//! The command line: an optional state file and a subcommand.

use vstd::prelude::*;
use crate::persistence::{default_state_path, state_path_in};

verus! {

/// How many hotspots `hotspots` lists unless told.
pub const DEFAULT_TOP: usize = 5;

/// How many trace entries `trace` lists unless told.
pub const DEFAULT_LAST: usize = 10;

/// How deep `scout` draws the tree unless told.
pub const DEFAULT_DEPTH: usize = 3;

/// How many tokens per file `scout` bundles unless told.
pub const DEFAULT_TOKEN_LIMIT: usize = 8000;

/// The parsed command line.
#[derive(Debug)]
pub struct Cli {
    /// Path to the persisted state file (default: ~/.marty/state.json)
    pub state: Option<String>,
    pub command: Option<Commands>,
}

/// The subcommands.
#[derive(Debug)]
pub enum Commands {
    /// Visit a directory to reinforce it as a hotspot
    Visit { path: String },
    /// List the top N hotspots by energy
    Hotspots { top: usize, json: bool },
    /// Show all directory beliefs (relationships)
    Beliefs { json: bool },
    /// Tag a directory
    Tag { path: String, tag: String },
    /// Show the last N trace (navigation history) entries
    Trace { last: usize, json: bool },
    /// Open the interactive TUI
    Tui,
    /// Start the HTTP dashboard server
    Server,
    /// Scout a directory: tree + source snapshot
    Scout { path: String, json: bool, depth: usize, token_limit: usize },
}

impl Cli {
    /// The state file to use: the one given with `--state`, else the default one.
    pub fn state_path(&self) -> (r: String)
        ensures
            match self.state {
                Some(s) => r@ == s@,
                None => exists|home: Option<Seq<char>>| (home matches Some(h) ==> h.len() > 0) && r@ == state_path_in(home),
            },
    {
        match &self.state {
            Some(s) => s.clone(),
            None => default_state_path(),
        }
    }
}

} // verus!
