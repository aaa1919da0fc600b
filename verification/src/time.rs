//! Wall-clock access for the `clock` builtin and the execution timing line.
//!
//! The readings depend on the machine's clock, so nothing is promised about
//! them; every caller states what holds of its result whatever the clock
//! returned.

use vstd::prelude::*;

verus! {

#[verifier::external_type_specification]
#[verifier::external_body]
pub struct ExSystemTime(std::time::SystemTime);

/// Relies on std::time::SystemTime::now: the current wall-clock time.
#[verifier::external_body]
pub fn system_now() -> std::time::SystemTime {
    std::time::SystemTime::now()
}

/// Relies on std::time::SystemTime::duration_since: the span from the epoch
/// to `t`, read out as whole milliseconds; a clock reading before the epoch
/// comes back as zero.
#[verifier::external_body]
pub fn millis_since_epoch(t: &std::time::SystemTime) -> u64 {
    match t.duration_since(std::time::UNIX_EPOCH) {
        Ok(d) => d.as_millis() as u64,
        Err(_) => 0,
    }
}

} // verus!
