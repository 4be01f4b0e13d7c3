//! The frame rate, reported once per second.
use crate::time::NANOS_PER_SECOND;
use vstd::prelude::*;

verus! {

/// The whole second that a time (in nanoseconds) lies in, counted towards zero, as far as 32 bits
/// hold it.
pub open spec fn second_of(time: int) -> i32 {
    let second = if time >= 0 {
        time / (NANOS_PER_SECOND as int)
    } else {
        -((-time) / (NANOS_PER_SECOND as int))
    };
    if second > i32::MAX {
        i32::MAX
    } else if second < i32::MIN {
        i32::MIN
    } else {
        second as i32
    }
}

/// How many frames of this length (in nanoseconds) fit into a second.
pub open spec fn frames_per_second(length: int) -> u32 {
    if length < 0 {
        0
    } else if length == 0 {
        u32::MAX
    } else {
        (NANOS_PER_SECOND as int / length) as u32
    }
}

/// Remembers the second of the last report.
#[derive(Debug)]
pub struct FpsMeter {
    pub last_second: i32,
}

impl FpsMeter {
    /// A meter that has reported nothing yet.
    pub fn new() -> (r: Self)
        ensures
            r.last_second == -1,
    {
        FpsMeter { last_second: -1 }
    }

    /// The frame rate to report for a frame from `start` to `end`, if `end` lies in another second
    /// than the last report.
    pub fn observe(&mut self, start: i64, end: i64) -> (r: Option<u32>)
        ensures
            final(self).last_second == second_of(end as int),
            r == if second_of(end as int) != old(self).last_second {
                Some(frames_per_second(end - start))
            } else {
                None
            },
    {
        let time: i128 = end as i128;
        let magnitude: i128 = if time >= 0 {
            time
        } else {
            -time
        };
        let seconds: i128 = magnitude / NANOS_PER_SECOND as i128;
        let second: i128 = if time >= 0 {
            seconds
        } else {
            -seconds
        };
        let now: i32 = if second > i32::MAX as i128 {
            i32::MAX
        } else if second < i32::MIN as i128 {
            i32::MIN
        } else {
            second as i32
        };
        if now == self.last_second {
            return None;
        }
        self.last_second = now;
        let length: i128 = end as i128 - start as i128;
        if length < 0 {
            Some(0)
        } else if length == 0 {
            Some(u32::MAX)
        } else {
            let rate: i128 = NANOS_PER_SECOND as i128 / length;
            assert(0 <= rate <= NANOS_PER_SECOND) by (nonlinear_arith)
                requires
                    length > 0,
                    rate == NANOS_PER_SECOND as int / length as int,
                    NANOS_PER_SECOND == 1_000_000_000,
            ;
            Some(rate as u32)
        }
    }
}

} // verus!
