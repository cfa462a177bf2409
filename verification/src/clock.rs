//! The in-game wall clock and its speed settings.
//!
//! The clock is derived from a running total of in-game seconds; the
//! monotonically increasing day counter drives every day-gated system.
//! Accumulating real frame time into in-game seconds is the caller's
//! concern; this module holds the conversions.

use vstd::prelude::*;

verus! {

/// How fast in-game time passes relative to real time.
#[derive(Clone, Copy, PartialEq, Eq, Debug, Structural, Default)]
pub enum TimeSpeed {
    Paused,
    #[default]
    Normal,
    Fast,
    UltraFast,
}

/// In-game seconds that pass per real second at the given speed: about one
/// in-game week per real minute at normal speed, twice and four times that
/// when fast.
pub fn speed_multiplier(speed: TimeSpeed) -> (r: u64)
    ensures
        r == spec_speed_multiplier(speed),
{
    match speed {
        TimeSpeed::Paused => 0,
        TimeSpeed::Normal => 10080,
        TimeSpeed::Fast => 20160,
        TimeSpeed::UltraFast => 40320,
    }
}

/// The multiplier table: paused stops time, the other speeds double in turn.
pub open spec fn spec_speed_multiplier(speed: TimeSpeed) -> int {
    match speed {
        TimeSpeed::Paused => 0,
        TimeSpeed::Normal => 10080,
        TimeSpeed::Fast => 20160,
        TimeSpeed::UltraFast => 40320,
    }
}

/// The in-game calendar clock.  Days are counted from 1.
#[derive(Clone, Copy, PartialEq, Eq, Debug, Structural, Default)]
pub struct GameClock {
    pub day: u32,
    /// 0-23
    pub hour: u8,
    /// 0-59
    pub minute: u8,
    /// 0-59
    pub second: u8,
}

/// Derive the calendar clock from the total of elapsed in-game seconds.
pub fn update_game_clock(clock: &mut GameClock, total_seconds: u64)
    requires
        total_seconds / 86400 + 1 <= u32::MAX,
    ensures
        final(clock).second == total_seconds as int % 60,
        final(clock).minute == (total_seconds as int / 60) % 60,
        final(clock).hour == (total_seconds as int / 3600) % 24,
        final(clock).day == total_seconds as int / 86400 + 1,
{
    clock.second = (total_seconds % 60) as u8;
    clock.minute = ((total_seconds / 60) % 60) as u8;
    clock.hour = ((total_seconds / 3600) % 24) as u8;
    clock.day = (total_seconds / 86400) as u32 + 1;
}

} // verus!
