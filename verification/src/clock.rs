//! The wall clock, read through chrono.

use vstd::prelude::*;

verus! {

/// `std::time::SystemTime::now`, made a `chrono::DateTime<Utc>` by chrono's
/// `From<SystemTime>` and read by `DateTime::timestamp_millis`: the instant
/// of the call in Unix milliseconds, also for a clock that stands before
/// 1970. Two readings may differ in any way, so nothing is claimed of the
/// result.
#[verifier::external_body]
pub(crate) fn unix_millis_now() -> i64 {
    chrono::DateTime::<chrono::Utc>::from(std::time::SystemTime::now()).timestamp_millis()
}

/// The whole seconds in `millis` milliseconds, rounded down.
pub open spec fn whole_seconds(millis: i64) -> int {
    if millis >= 0 {
        millis / 1000
    } else {
        -((-millis + 999) / 1000)
    }
}

/// Computes `whole_seconds`.
pub fn seconds_of(millis: i64) -> (seconds: i64)
    ensures
        seconds == whole_seconds(millis),
        seconds * 1000 <= millis < seconds * 1000 + 1000,
{
    if millis >= 0 {
        millis / 1000
    } else {
        let behind: i128 = -(millis as i128) + 999;
        (-(behind / 1000)) as i64
    }
}

/// The instant of the call in Unix seconds: the whole seconds of one reading
/// of the clock. Which reading that is, is not known.
pub(crate) fn unix_seconds_now() -> (seconds: i64)
    ensures
        exists|millis: i64| seconds == #[trigger] whole_seconds(millis),
{
    seconds_of(unix_millis_now())
}

/// Whether `budget_ms` milliseconds lie between two clock readings; a clock
/// that ran backwards counts as a spent budget.
pub open spec fn budget_spent(start_ms: i64, now_ms: i64, budget_ms: u64) -> bool {
    now_ms < start_ms || now_ms - start_ms >= budget_ms
}

/// Computes `budget_spent`.
pub fn is_budget_spent(start_ms: i64, now_ms: i64, budget_ms: u64) -> (spent: bool)
    ensures
        spent == budget_spent(start_ms, now_ms, budget_ms),
{
    if now_ms < start_ms {
        true
    } else {
        let passed: i128 = now_ms as i128 - start_ms as i128;
        passed >= budget_ms as i128
    }
}

} // verus!
