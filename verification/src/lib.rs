//! Marty: a filesystem companion that remembers which directories you work in.
//!
//! The library holds the logic: the directory history and its motions, the hotspot
//! ranking and the caps of the persisted state, the activity trace, the project
//! detection that drives `scout`, and the text shown to the user.

pub mod text;
pub mod error;
pub mod paths;
pub mod marty;
pub mod signals;
pub mod memory;
pub mod persistence;
pub mod outputs;
pub mod config;
pub mod scheduler;
pub mod cli;
pub mod scout;
pub mod tui;
pub mod metrics;
pub mod rows;
