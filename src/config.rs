use crate::geometry::{within, SECOND, UNIT};
use vstd::prelude::*;

verus! {

/// Length of one simulation tick: 1/60 s, rounded to the microsecond.
pub const TICK: i64 = 16_667;

/// Height of the ground line.
pub const GROUND_Y: i64 = -330_000;

/// Divisor that turns a vertical max velocity into a per-tick gravity pull.
pub const GRAVITY_CONSTANT: i64 = 20;

/// Half of the playfield's width: it spans `[-HALF_WIDTH, HALF_WIDTH]`.
pub const HALF_WIDTH: i64 = 500_000;

/// Height of the rendered view in pixels, used to tell airborne from grounded.
pub const VIEW_HEIGHT: i64 = 200;

/// The constants every simulation step reads.
#[derive(Clone, Copy, Debug, PartialEq, Eq, Structural)]
pub struct SimConfig {
    /// Length of a tick.
    pub dt: i64,
    /// Height of the ground line.
    pub ground_y: i64,
    /// Gravity divisor.
    pub gravity: i64,
    /// Half of the playfield's width.
    pub half_width: i64,
    /// Height of the rendered view in pixels.
    pub view_height: i64,
}

impl SimConfig {
    pub open spec fn wf(self) -> bool {
        &&& 0 < self.dt <= SECOND
        &&& within(self.ground_y as int, UNIT as int)
        &&& 0 < self.gravity <= 1_000_000
        &&& 0 < self.half_width <= UNIT
        &&& 0 < self.view_height <= 100_000
    }

    /// The configuration the game runs with.
    pub fn standard() -> (r: SimConfig)
        ensures
            r.wf(),
            r.dt == TICK,
            r.ground_y == GROUND_Y,
            r.gravity == GRAVITY_CONSTANT,
            r.half_width == HALF_WIDTH,
            r.view_height == VIEW_HEIGHT,
    {
        SimConfig {
            dt: TICK,
            ground_y: GROUND_Y,
            gravity: GRAVITY_CONSTANT,
            half_width: HALF_WIDTH,
            view_height: VIEW_HEIGHT,
        }
    }
}

} // verus!
