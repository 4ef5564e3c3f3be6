//! What to do while the daemon's connection is lost.
//!
//! A daemon that restarts in place is back within moments. Starting another one
//! meanwhile would leave two, so it is waited for first, for two seconds.

use vstd::prelude::*;

verus! {

/// How often a plain connect is tried.
pub const RECONNECT_TRIES: u8 = 20;

/// How long to wait after a connect that failed.
pub const RECONNECT_PAUSE_MILLIS: u64 = 100;

#[derive(Debug, Clone, Copy, PartialEq, Eq, Structural)]
pub enum Reconnect {
    /// Connect to the daemon that was there before.
    TryAgain,
    /// Connect, starting a daemon where none answers.
    StartDaemon,
}

/// What to do after `tries` connects that failed.
pub fn reconnect_step(tries: u8) -> (r: Reconnect)
    ensures
        r == if tries < RECONNECT_TRIES {
            Reconnect::TryAgain
        } else {
            Reconnect::StartDaemon
        },
{
    if tries < RECONNECT_TRIES {
        Reconnect::TryAgain
    } else {
        Reconnect::StartDaemon
    }
}

} // verus!
