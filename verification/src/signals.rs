//! What happens in Marty, as recorded in the trace.

use vstd::prelude::*;
use std::time::{Duration, SystemTime, UNIX_EPOCH};

verus! {

/// One recorded event. A reinforcement weight is kept as the bits of its IEEE-754 double
/// (`f64::to_bits`), so that it is stored and read back exactly.
#[derive(Debug)]
pub enum Signal {
    Visit { path: String, ts: i64 },
    Reinforce { path: String, weight_bits: u64, ts: i64 },
    Promote { path: String, ts: i64 },
    Demote { path: String, reason: String, ts: i64 },
    Tag { path: String, tag: String, ts: i64 },
}

/// The directory a signal is about.
pub open spec fn signal_path(s: Signal) -> Seq<char> {
    match s {
        Signal::Visit { path, .. } => path@,
        Signal::Reinforce { path, .. } => path@,
        Signal::Promote { path, .. } => path@,
        Signal::Demote { path, .. } => path@,
        Signal::Tag { path, .. } => path@,
    }
}

/// When a signal happened, in seconds since the Unix epoch.
pub open spec fn signal_ts(s: Signal) -> i64 {
    match s {
        Signal::Visit { ts, .. } => ts,
        Signal::Reinforce { ts, .. } => ts,
        Signal::Promote { ts, .. } => ts,
        Signal::Demote { ts, .. } => ts,
        Signal::Tag { ts, .. } => ts,
    }
}

/// `std::time::SystemTime`, carried through unchanged.
#[verifier::external_type_specification]
#[verifier::external_body]
pub struct ExSystemTime(SystemTime);

/// `SystemTime::now`: the reading of the system clock. It depends on the clock, so nothing
/// is stated of it.
#[verifier::external_body]
fn system_now() -> SystemTime {
    SystemTime::now()
}

/// `SystemTime::duration_since` the Unix epoch: `Ok` with the time elapsed since the epoch,
/// or, for a reading before the epoch, `Err` with the time by which it falls short (the
/// duration that std's error carries). It never panics.
#[verifier::external_body]
fn since_epoch(t: &SystemTime) -> Result<Duration, Duration> {
    match t.duration_since(UNIX_EPOCH) {
        Ok(d) => Ok(d),
        Err(e) => Err(e.duration()),
    }
}

/// What `Duration::as_secs` gives for `d`: its whole seconds.
pub uninterp spec fn whole_seconds(d: Duration) -> u64;

/// `Duration::as_secs`: the whole seconds of `d`.
#[verifier::external_body]
fn seconds_of(d: &Duration) -> (r: u64)
    ensures
        r == whole_seconds(*d),
{
    d.as_secs()
}

/// A count of whole seconds as an `i64`, held to `i64::MAX`.
pub open spec fn clamped_seconds(secs: u64) -> int {
    if secs > i64::MAX {
        i64::MAX as int
    } else {
        secs as int
    }
}

/// The seconds since the Unix epoch of a clock reading `secs` whole seconds after it
/// (`after_epoch`) or before it: that many seconds, negative before the epoch, held to
/// the range of `i64`.
pub open spec fn epoch_seconds(after_epoch: bool, secs: u64) -> int {
    if after_epoch {
        clamped_seconds(secs)
    } else {
        -clamped_seconds(secs)
    }
}

/// Computes `epoch_seconds`.
pub fn epoch_seconds_of(after_epoch: bool, secs: u64) -> (r: i64)
    ensures
        r == epoch_seconds(after_epoch, secs),
{
    let s: i64 = if secs > 9223372036854775807u64 {
        9223372036854775807i64
    } else {
        secs as i64
    };
    if after_epoch {
        s
    } else {
        -s
    }
}

impl Signal {
    /// The current time in whole seconds since the Unix epoch, by the system clock; a clock
    /// set before the epoch gives a negative count rather than a failure. Which reading
    /// the clock gives is not stated.
    pub fn timestamp_now() -> (r: i64)
        ensures
            exists|after_epoch: bool, secs: u64| r == epoch_seconds(after_epoch, secs),
    {
        let t = system_now();
        match since_epoch(&t) {
            Ok(d) => epoch_seconds_of(true, seconds_of(&d)),
            Err(d) => epoch_seconds_of(false, seconds_of(&d)),
        }
    }

    /// A copy of this signal.
    pub fn duplicate(&self) -> (r: Signal)
        ensures
            r == *self,
    {
        match self {
            Signal::Visit { path, ts } => Signal::Visit { path: path.clone(), ts: *ts },
            Signal::Reinforce { path, weight_bits, ts } => Signal::Reinforce {
                path: path.clone(),
                weight_bits: *weight_bits,
                ts: *ts,
            },
            Signal::Promote { path, ts } => Signal::Promote { path: path.clone(), ts: *ts },
            Signal::Demote { path, reason, ts } => Signal::Demote {
                path: path.clone(),
                reason: reason.clone(),
                ts: *ts,
            },
            Signal::Tag { path, tag, ts } => Signal::Tag {
                path: path.clone(),
                tag: tag.clone(),
                ts: *ts,
            },
        }
    }
}

} // verus!
