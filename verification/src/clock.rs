//! Wall-clock timestamps as decimal seconds since the Unix epoch.

use vstd::prelude::*;

use crate::text::{decimal, decimal_string};

verus! {

/// Seconds since the Unix epoch by the system clock (`SystemTime::now`), or
/// `None` when the clock reads earlier than the epoch. Nothing is stated of the value.
#[verifier::external_body]
fn unix_seconds() -> Option<u64> {
    std::time::SystemTime::now().duration_since(std::time::UNIX_EPOCH).ok().map(|d| d.as_secs())
}

/// The current time as decimal seconds since the Unix epoch; `0` when the
/// clock reads earlier than the epoch (the stamp of checkpoints).
pub fn chrono_now() -> (s: String)
    ensures
        exists|n: nat| s@ == decimal(n),
{
    match unix_seconds() {
        Some(secs) => decimal_string(secs),
        None => decimal_string(0),
    }
}

/// The current time as decimal seconds since the Unix epoch; empty when the
/// clock reads earlier than the epoch (the stamp of jobs, logs and benchmarks).
pub fn now_str() -> (s: String)
    ensures
        s@.len() == 0 || exists|n: nat| s@ == decimal(n),
{
    match unix_seconds() {
        Some(secs) => decimal_string(secs),
        None => String::new(),
    }
}

} // verus!
