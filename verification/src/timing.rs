//! Wall-clock frame timing. The core only consumes durations; this module
//! produces them, so its clock readings rest on `std::time`.

use crate::precision::Real;
use vstd::prelude::*;

verus! {

/// `std::time::Instant`, declared so a clock reading can be held and passed
/// around; nothing is assumed about what it contains.
#[verifier::external_type_specification]
#[verifier::external_body]
pub struct ExInstant(std::time::Instant);

/// Relies on `std::time::Instant::now`: a reading of a monotonic clock.
/// Nothing can be promised of the value.
pub assume_specification[ std::time::Instant::now ]() -> std::time::Instant;

/// Relies on `std::time::Instant::duration_since`: the time elapsed from
/// `earlier` to `this`, or zero when `earlier` is the later one; it does not
/// panic. Nothing further can be promised of the value.
pub assume_specification[ std::time::Instant::duration_since ](
    this: &std::time::Instant,
    earlier: std::time::Instant,
) -> std::time::Duration;

/// Relies on `std::time::Duration::as_micros`: the whole number of
/// microseconds the duration holds. Nothing can be promised of the value.
pub assume_specification[ std::time::Duration::as_micros ](d: &std::time::Duration) -> u128;

/// Frame timing: remembers the instant of the previous tick.
#[derive(Debug)]
pub struct TimingData {
    /// The instant of the previous tick, or of creation.
    pub last_time: std::time::Instant,
}

impl TimingData {
    /// Timing data whose reference point is the present instant.
    pub fn new() -> TimingData {
        TimingData { last_time: std::time::Instant::now() }
    }

    /// The time elapsed since the last tick, in seconds as a fixed-point
    /// scalar (its raw unit is the microsecond), saturating at the largest
    /// representable scalar; the reference point moves to the present.
    pub fn tick(&mut self) -> (r: Real)
        ensures
            r@ >= 0,
    {
        let current_time = std::time::Instant::now();
        let delta_time = current_time.duration_since(self.last_time);
        self.last_time = current_time;
        let micros = delta_time.as_micros();
        if micros > 0x7FFF_FFFF_FFFF_FFFFu128 {
            Real::max_value()
        } else {
            Real::from_raw(micros as i64)
        }
    }
}

} // verus!
