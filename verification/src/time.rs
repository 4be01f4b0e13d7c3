//! Instants and durations, in whole nanoseconds.
use vstd::prelude::*;

verus! {

/// How far (in nanoseconds) playback may run past a note before the note's judge counts as late.
pub const JUDGE_BUFFER: i64 = 500_000_000;

/// How long (in nanoseconds) playback stays frozen once enough data has arrived again.
pub const RESUME_BUFFER_TIME: i64 = 1_500_000_000;

/// The stretch (in nanoseconds) before the end of a chart in which nobody is paused any more.
pub const END_WINDOW: i64 = 2_000_000_000;

/// Nanoseconds in one second.
pub const NANOS_PER_SECOND: i64 = 1_000_000_000;

/// The instant closest to `x` that an `i64` can hold.
pub open spec fn saturate(x: int) -> i64 {
    if x > i64::MAX {
        i64::MAX
    } else if x < i64::MIN {
        i64::MIN
    } else {
        x as i64
    }
}

/// Adds two durations; a sum out of range stays at the end of the range.
pub fn add_time(a: i64, b: i64) -> (r: i64)
    ensures
        r == saturate(a + b),
{
    let sum: i128 = a as i128 + b as i128;
    if sum > i64::MAX as i128 {
        i64::MAX
    } else if sum < i64::MIN as i128 {
        i64::MIN
    } else {
        sum as i64
    }
}

/// The duration from `b` to `a`; a difference out of range stays at the end of the range.
pub fn sub_time(a: i64, b: i64) -> (r: i64)
    ensures
        r == saturate(a - b),
{
    let difference: i128 = a as i128 - b as i128;
    if difference > i64::MAX as i128 {
        i64::MAX
    } else if difference < i64::MIN as i128 {
        i64::MIN
    } else {
        difference as i64
    }
}

/// Whether `later` lies more than `gap` after `earlier`.
pub fn exceeds(later: i64, earlier: i64, gap: i64) -> (r: bool)
    ensures
        r == (later > earlier + gap),
{
    later as i128 > earlier as i128 + gap as i128
}

} // verus!
