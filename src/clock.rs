//! Wall-clock pacing of automatic steps: the local time of day comes from
//! chrono, and whether a step is due is decided from the milliseconds elapsed.

use vstd::prelude::*;
use chrono::NaiveTime;

verus! {

/// chrono's `NaiveTime`, a time of day, held opaque: the simulator only
/// stores it and hands it back to chrono.
#[verifier::external_type_specification]
#[verifier::external_body]
pub struct ExNaiveTime(NaiveTime);

/// Relies on chrono's `Local::now` and `DateTime::time`: the local time of day
/// at the call. Nothing is promised of its value.
#[verifier::external_body]
pub(crate) fn local_time_now() -> NaiveTime {
    chrono::Local::now().time()
}

/// Relies on chrono's `NaiveTime::signed_duration_since` and
/// `TimeDelta::num_milliseconds`: the whole milliseconds from `earlier` to
/// `later`, negative where `later` is the earlier time of day.
#[verifier::external_body]
pub(crate) fn millis_between(later: &NaiveTime, earlier: &NaiveTime) -> i64 {
    later.signed_duration_since(*earlier).num_milliseconds()
}

/// The pause between automatic steps at `ticks_per_second` steps per second,
/// in whole milliseconds; with no steps per second no step ever falls due.
pub open spec fn spec_tick_interval_ms(ticks_per_second: int) -> int {
    if ticks_per_second == 0 {
        i64::MAX as int
    } else {
        1000int / ticks_per_second
    }
}

/// The pause between automatic steps at `ticks_per_second` steps per second,
/// in whole milliseconds.
pub fn tick_interval_ms(ticks_per_second: u32) -> (r: i64)
    ensures
        r == spec_tick_interval_ms(ticks_per_second as int),
{
    if ticks_per_second == 0 {
        i64::MAX
    } else {
        1000 / (ticks_per_second as i64)
    }
}

/// Whether an automatic step is due once `elapsed_ms` milliseconds have passed
/// since the last one: strictly more than the pause between steps.
pub fn is_step_due(elapsed_ms: i64, ticks_per_second: u32) -> (r: bool)
    ensures
        r == (elapsed_ms > spec_tick_interval_ms(ticks_per_second as int)),
{
    elapsed_ms > tick_interval_ms(ticks_per_second)
}

} // verus!
