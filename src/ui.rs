use crate::geometry::{clamp_limit, clamp_spec, within, LIMIT, SECOND};
use vstd::prelude::*;

verus! {

/// How often the frame-rate display refreshes.
pub const REFRESH_RATE: i64 = SECOND;

/// The frame-rate display's refresh timer.
#[derive(Clone, Copy, Debug, PartialEq, Eq, Structural)]
pub struct Fps {
    /// Time until the next refresh.
    pub cooldown: i64,
}

impl Fps {
    pub open spec fn wf(&self) -> bool {
        within(self.cooldown as int, LIMIT as int)
    }

    pub fn new() -> (r: Fps)
        ensures
            r.cooldown == REFRESH_RATE,
    {
        Fps { cooldown: REFRESH_RATE }
    }

    /// Counts down by the frame's measured `dt`; once the timer runs out it
    /// restarts and the display should be refreshed (returns true).
    pub fn update(&mut self, dt: i64) -> (refresh: bool)
        requires
            old(self).wf(),
            0 <= dt <= LIMIT,
        ensures
            final(self).wf(),
            refresh == (clamp_spec(old(self).cooldown - dt) < 0),
            final(self).cooldown == if refresh {
                REFRESH_RATE as int
            } else {
                old(self).cooldown - dt
            },
    {
        let c = clamp_limit(self.cooldown as i128 - dt as i128);
        if c < 0 {
            self.cooldown = REFRESH_RATE;
            true
        } else {
            self.cooldown = c;
            false
        }
    }
}

} // verus!
