//! The standalone simulation shell's city: a name and a running clock.

use vstd::prelude::*;
use vstd::string::StringExecFns;
use crate::game_time::{spec_display, GameTime};

verus! {

/// Represents the city state.
pub struct City {
    pub name: String,
    pub time: GameTime,
}

impl City {
    /// Create a new city with a given name.
    pub fn new(name: String) -> (r: Self)
        ensures
            r.name == name,
            r.time.elapsed_game_seconds == 0,
            r.time.time_scale == 1,
            !r.time.paused,
    {
        City { name, time: GameTime::new() }
    }

    /// Advance the city simulation by `delta_seconds` of real time.
    pub fn update(&mut self, delta_seconds: u64)
        ensures
            final(self).name == old(self).name,
            final(self).time.time_scale == old(self).time.time_scale,
            final(self).time.paused == old(self).time.paused,
            final(self).time.elapsed_game_seconds == if old(self).time.paused {
                old(self).time.elapsed_game_seconds as int
            } else {
                vstd::math::min(
                    old(self).time.elapsed_game_seconds as int + vstd::math::min(
                        delta_seconds as int * old(self).time.time_scale as int,
                        u64::MAX as int,
                    ),
                    u64::MAX as int,
                )
            },
    {
        self.time.tick(delta_seconds);
    }

    /// A display string for the city's current state: the name, a slash,
    /// and the clock rendering.
    pub fn display_status(&self) -> (s: String)
        ensures
            s@ == self.name@ + "/"@ + spec_display(self.time),
    {
        proof {
            reveal_strlit("/");
        }
        let mut s = self.name.clone();
        s.append("/");
        let t = self.time.display();
        s.append(t.as_str());
        s
    }
}

} // verus!
