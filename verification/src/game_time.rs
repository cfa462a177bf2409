//! In-game time for the terminal front end, with scaling, pausing and a
//! verified textual rendering.

use vstd::prelude::*;
use vstd::string::StringExecFns;

verus! {

/// The decimal digit character for one digit value.
pub open spec fn spec_digit(d: int) -> char {
    if d == 0 {
        '0'
    } else if d == 1 {
        '1'
    } else if d == 2 {
        '2'
    } else if d == 3 {
        '3'
    } else if d == 4 {
        '4'
    } else if d == 5 {
        '5'
    } else if d == 6 {
        '6'
    } else if d == 7 {
        '7'
    } else if d == 8 {
        '8'
    } else {
        '9'
    }
}

/// The usual decimal rendering of a number, most significant digit first,
/// with no leading zeros (zero itself is "0").
pub open spec fn spec_decimal(n: nat) -> Seq<char>
    decreases n,
{
    if n < 10 {
        seq![spec_digit(n as int)]
    } else {
        spec_decimal(n / 10) + seq![spec_digit((n % 10) as int)]
    }
}

/// Decimal rendering padded with one leading zero below ten, as clock
/// fields are written.
pub open spec fn spec_two_digit(n: nat) -> Seq<char> {
    if n < 10 {
        seq!['0'] + spec_decimal(n)
    } else {
        spec_decimal(n)
    }
}

/// The single-character string for one decimal digit.
fn digit_str(d: u64) -> (r: &'static str)
    requires
        d < 10,
    ensures
        r@ == seq![spec_digit(d as int)],
{
    proof {
        reveal_strlit("0");
        reveal_strlit("1");
        reveal_strlit("2");
        reveal_strlit("3");
        reveal_strlit("4");
        reveal_strlit("5");
        reveal_strlit("6");
        reveal_strlit("7");
        reveal_strlit("8");
        reveal_strlit("9");
    }
    match d {
        0 => "0",
        1 => "1",
        2 => "2",
        3 => "3",
        4 => "4",
        5 => "5",
        6 => "6",
        7 => "7",
        8 => "8",
        _ => "9",
    }
}

/// Render a number in decimal.
pub fn decimal_string(n: u64) -> (s: String)
    ensures
        s@ == spec_decimal(n as nat),
    decreases n,
{
    if n < 10 {
        String::from_str(digit_str(n))
    } else {
        let mut s = decimal_string(n / 10);
        s.append(digit_str(n % 10));
        s
    }
}

/// Render a number in decimal, padded to at least two digits.
pub fn two_digit_string(n: u64) -> (s: String)
    ensures
        s@ == spec_two_digit(n as nat),
{
    if n < 10 {
        proof {
            reveal_strlit("0");
        }
        let mut s = String::from_str("0");
        let d = decimal_string(n);
        s.append(d.as_str());
        s
    } else {
        decimal_string(n)
    }
}

/// Manages in-game time with scaling support.
#[derive(Clone, Copy, PartialEq, Eq, Debug, Structural)]
pub struct GameTime {
    /// Total elapsed in-game seconds.
    pub elapsed_game_seconds: u64,
    /// How fast game time progresses relative to real time:
    /// in-game seconds per real second.
    pub time_scale: u64,
    /// Whether time is currently paused.
    pub paused: bool,
}

/// What `display` renders: "Day D, HH:MM (Sx speed)", with " [PAUSED]"
/// appended while paused.
pub open spec fn spec_display(t: GameTime) -> Seq<char> {
    let total = t.elapsed_game_seconds as nat;
    let days = (total / 86400) % 4294967296;
    let hours = (total % 86400) / 3600;
    let minutes = (total % 3600) / 60;
    "Day "@ + spec_decimal(days) + ", "@ + spec_two_digit(hours) + ":"@ + spec_two_digit(minutes)
        + " ("@ + spec_decimal(t.time_scale as nat) + "x speed)"@ + if t.paused {
        " [PAUSED]"@
    } else {
        Seq::<char>::empty()
    }
}

impl GameTime {
    /// Create a new game time manager starting at day 0, running at
    /// real-time speed.
    pub fn new() -> (r: Self)
        ensures
            r.elapsed_game_seconds == 0,
            r.time_scale == 1,
            !r.paused,
    {
        GameTime { elapsed_game_seconds: 0, time_scale: 1, paused: false }
    }

    /// Create a new game time with a specific time scale.
    pub fn with_scale(time_scale: u64) -> (r: Self)
        ensures
            r.elapsed_game_seconds == 0,
            r.time_scale == time_scale,
            !r.paused,
    {
        GameTime { elapsed_game_seconds: 0, time_scale, paused: false }
    }

    /// Advance time by the given real-time delta (in seconds), scaled;
    /// saturates instead of wrapping, and does nothing while paused.
    pub fn tick(&mut self, delta_seconds: u64)
        ensures
            final(self).time_scale == old(self).time_scale,
            final(self).paused == old(self).paused,
            final(self).elapsed_game_seconds == if old(self).paused {
                old(self).elapsed_game_seconds as int
            } else {
                vstd::math::min(
                    old(self).elapsed_game_seconds as int + vstd::math::min(
                        delta_seconds as int * old(self).time_scale as int,
                        u64::MAX as int,
                    ),
                    u64::MAX as int,
                )
            },
    {
        if !self.paused {
            proof {
                assert((delta_seconds as int) * (self.time_scale as int) <= (u64::MAX as int) * (
                u64::MAX as int)) by (nonlinear_arith)
                    requires
                        0 <= delta_seconds as int <= u64::MAX as int,
                        0 <= self.time_scale as int <= u64::MAX as int,
                ;
            }
            let wide: u128 = delta_seconds as u128 * self.time_scale as u128;
            let scaled: u64 = if wide > u64::MAX as u128 {
                u64::MAX
            } else {
                wide as u64
            };
            self.elapsed_game_seconds = self.elapsed_game_seconds.saturating_add(scaled);
        }
    }

    /// Set the time scale.
    pub fn set_time_scale(&mut self, scale: u64)
        ensures
            *final(self) == (GameTime { time_scale: scale, ..*old(self) }),
    {
        self.time_scale = scale;
    }

    /// Get the current time scale.
    pub fn time_scale(&self) -> (r: u64)
        ensures
            r == self.time_scale,
    {
        self.time_scale
    }

    /// Pause time progression.
    pub fn pause(&mut self)
        ensures
            *final(self) == (GameTime { paused: true, ..*old(self) }),
    {
        self.paused = true;
    }

    /// Resume time progression.
    pub fn resume(&mut self)
        ensures
            *final(self) == (GameTime { paused: false, ..*old(self) }),
    {
        self.paused = false;
    }

    /// Toggle pause state.
    pub fn toggle_pause(&mut self)
        ensures
            *final(self) == (GameTime { paused: !old(self).paused, ..*old(self) }),
    {
        self.paused = !self.paused;
    }

    /// Check if time is paused.
    pub fn is_paused(&self) -> (r: bool)
        ensures
            r == self.paused,
    {
        self.paused
    }

    /// Get total elapsed game time in seconds.
    pub fn elapsed_seconds(&self) -> (r: u64)
        ensures
            r == self.elapsed_game_seconds,
    {
        self.elapsed_game_seconds
    }

    /// Get elapsed time as days, hours and minutes.  The day count is
    /// truncated to 32 bits.
    pub fn as_dhm(&self) -> (r: (u32, u32, u32))
        ensures
            r.0 == ((self.elapsed_game_seconds as int / 86400) % 4294967296),
            r.1 == (self.elapsed_game_seconds as int % 86400) / 3600,
            r.2 == (self.elapsed_game_seconds as int % 3600) / 60,
    {
        let total_seconds = self.elapsed_game_seconds;
        let days = (total_seconds / 86400) % 4294967296;
        let hours = (total_seconds % 86400) / 3600;
        let minutes = (total_seconds % 3600) / 60;
        (days as u32, hours as u32, minutes as u32)
    }

    /// Format the current game time for display.
    pub fn display(&self) -> (s: String)
        ensures
            s@ == spec_display(*self),
    {
        let (days, hours, minutes) = self.as_dhm();
        proof {
            reveal_strlit("Day ");
            reveal_strlit(", ");
            reveal_strlit(":");
            reveal_strlit(" (");
            reveal_strlit("x speed)");
            reveal_strlit(" [PAUSED]");
        }
        let mut s = String::from_str("Day ");
        let days_str = decimal_string(days as u64);
        s.append(days_str.as_str());
        s.append(", ");
        let hours_str = two_digit_string(hours as u64);
        s.append(hours_str.as_str());
        s.append(":");
        let minutes_str = two_digit_string(minutes as u64);
        s.append(minutes_str.as_str());
        s.append(" (");
        let scale_str = decimal_string(self.time_scale);
        s.append(scale_str.as_str());
        s.append("x speed)");
        if self.paused {
            s.append(" [PAUSED]");
        }
        s
    }
}

impl Default for GameTime {
    /// Same as `new`: day 0, real-time speed, running.
    fn default() -> (r: Self)
        ensures
            r.elapsed_game_seconds == 0,
            r.time_scale == 1,
            !r.paused,
    {
        GameTime::new()
    }
}

} // verus!
