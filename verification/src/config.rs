use std::time::Duration;
use vstd::prelude::*;

verus! {

/// Largest number of joints a skin may have.
pub const MAX_JOINT_COUNT: usize = 20;

/// Number of fixed simulation updates per second.
pub const UPDATES_PER_SECOND: u64 = 50;

/// The duration that `Duration::from_millis` returns for `ms` milliseconds.
pub uninterp spec fn duration_of_millis(ms: u64) -> Duration;

/// Trusted: `std::time::Duration::from_millis`, which builds the duration of
/// `ms` milliseconds; the contract only names that value.
#[verifier::external_body]
fn duration_from_millis(ms: u64) -> (d: Duration)
    ensures
        d == duration_of_millis(ms),
{
    Duration::from_millis(ms)
}

/// Length of one fixed simulation step: a second divided by the update rate.
pub fn time_step() -> (d: Duration)
    ensures
        d == duration_of_millis(20u64),
        1000u64 / UPDATES_PER_SECOND == 20,
{
    let ms: u64 = 1000 / UPDATES_PER_SECOND;
    duration_from_millis(ms)
}

} // verus!
