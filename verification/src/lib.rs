//! Distributed execution core for a SQL query engine: stage plans with
//! unresolved shuffle references, shuffle resolution against completed
//! upstream stages, partitioned shuffle output with exact row accounting,
//! and the pull-based poll loop that bounds executor concurrency.

use vstd::prelude::*;

pub mod client;
pub mod config;
pub mod error;
pub mod executor;
pub mod object_store;
pub mod plan;
pub mod poll_loop;
pub mod shuffle;
pub mod store;
pub mod text;

verus! {

/// Given an interval in seconds and the current time in seconds since the
/// epoch, return the time that many seconds before now, saturating at zero.
pub fn seconds_before(now_seconds: u64, interval_seconds: u64) -> (r: u64)
    ensures
        now_seconds >= interval_seconds ==> r == now_seconds - interval_seconds,
        now_seconds < interval_seconds ==> r == 0,
{
    if now_seconds >= interval_seconds {
        now_seconds - interval_seconds
    } else {
        0
    }
}

/// Relies on std::time::SystemTime::now and duration_since(UNIX_EPOCH):
/// the number of whole seconds the system clock reads past the Unix
/// epoch, or zero if it reads before it. The value depends on the clock,
/// so nothing is assumed of it: callers hold for every outcome.
#[verifier::external_body]
fn epoch_seconds_now() -> u64 {
    std::time::SystemTime::now().duration_since(std::time::UNIX_EPOCH).map(
        |d| d.as_secs(),
    ).unwrap_or(0)
}

/// Given an interval in seconds, get the time in seconds before now. The
/// clock's reading is whatever it is; the subtraction saturates at zero,
/// as `seconds_before` states.
pub fn get_time_before(interval_seconds: u64) -> u64 {
    seconds_before(epoch_seconds_now(), interval_seconds)
}

} // verus!
