use crate::bonus::{Bonus, BonusType};
use crate::geometry::{clamp_limit, clamp_spec, floor_div, within, Vec2, LIMIT, SECOND};
use crate::random::random_range;
use vstd::prelude::*;

verus! {

/// The factory may only emit while strictly inside `(-SPAWN_BAND, SPAWN_BAND)`.
pub const SPAWN_BAND: i64 = 400_000;

/// Cooldowns are drawn from `[0, MAX_COOLDOWN)`.
pub const MAX_COOLDOWN: i64 = 30_000_000;

/// Height at which the factory stops descending and starts its patrol.
pub const PATROL_Y: i64 = 300_000;

/// Past this horizontal distance from the middle the patrol turns around.
pub const PATROL_EDGE: i64 = 1_700_000;

/// The bonus spawner: it descends, patrols and drops bonuses on a cooldown.
#[derive(Clone, Copy, Debug, PartialEq, Eq, Structural)]
pub struct Factory {
    /// Time until the next emission is allowed.
    pub cooldown: i64,
    /// Time the emitting sprite keeps showing.
    pub alt_image_cooldown: i64,
    pub position: Vec2,
    /// Velocity in length units per second.
    pub velocity: Vec2,
    pub size: Vec2,
    /// Cosmetic rotation, in microradians.
    pub rotation: i64,
    /// Angular velocity, in microradians per second.
    pub rotation_velocity: i64,
}

/// Whether a factory at `x` is inside the spawn band.
pub open spec fn in_band(x: int) -> bool {
    -SPAWN_BAND < x < SPAWN_BAND
}

/// A tick of `rate` per second, floored.
pub open spec fn over_tick(dt: int, rate: int) -> int {
    dt * rate / SECOND as int
}

impl Factory {
    pub open spec fn wf(&self) -> bool {
        &&& self.position.bounded()
        &&& self.velocity.bounded()
        &&& within(self.cooldown as int, LIMIT as int)
        &&& within(self.alt_image_cooldown as int, LIMIT as int)
        &&& within(self.rotation as int, LIMIT as int)
        &&& within(self.rotation_velocity as int, LIMIT as int)
    }

    /// A fresh factory: above the view, drifting right, its first emission
    /// twenty seconds away.
    pub open spec fn new_spec() -> Factory {
        Factory {
            cooldown: 20_000_000i64,
            alt_image_cooldown: 0,
            position: Vec2 { x: 0, y: 1_100_000 },
            velocity: Vec2 { x: 150_000, y: 0 },
            size: Vec2 { x: 100_000, y: 100_000 },
            rotation: 0,
            rotation_velocity: -1_000_000i64,
        }
    }

    pub fn new() -> (r: Factory)
        ensures
            r.wf(),
            r == Factory::new_spec(),
    {
        Factory {
            cooldown: 20 * SECOND,
            alt_image_cooldown: 0,
            position: Vec2 { x: 0, y: 1_100_000 },
            velocity: Vec2 { x: 150_000, y: 0 },
            size: Vec2 { x: 100_000, y: 100_000 },
            rotation: 0,
            rotation_velocity: -1_000_000,
        }
    }

    /// Whether the tick of length `dt` lets this factory emit.
    pub open spec fn ready(&self, dt: int) -> bool {
        clamp_spec(self.cooldown - dt) < 0 && in_band(self.position.x as int)
    }

    /// Whether the emitting sprite shows.
    pub fn shows_alt_image(&self) -> (r: bool)
        ensures
            r == (self.alt_image_cooldown > 0),
    {
        self.alt_image_cooldown > 0
    }

    /// Counts both cooldowns down by `dt`; when the spawn cooldown has run
    /// out inside the band, restarts it at `next_cooldown`, shows the emitting
    /// sprite for a second and emits a bonus of type `tag` moving by `velocity`
    /// from the factory's position.
    pub fn spawn_with(&mut self, dt: i64, next_cooldown: i64, tag: BonusType, velocity: Vec2) -> (r: Option<Bonus>)
        requires
            old(self).wf(),
            0 < dt <= SECOND,
            within(next_cooldown as int, LIMIT as int),
        ensures
            final(self).wf(),
            r.is_some() == old(self).ready(dt as int),
            final(self).position == old(self).position,
            final(self).velocity == old(self).velocity,
            final(self).size == old(self).size,
            final(self).rotation == old(self).rotation,
            final(self).rotation_velocity == old(self).rotation_velocity,
            match r {
                Some(b) => {
                    &&& final(self).cooldown == next_cooldown
                    &&& final(self).alt_image_cooldown == SECOND
                    &&& b.tag == tag
                    &&& b.position == old(self).position
                    &&& b.velocity == velocity
                    &&& b.size == (Vec2 { x: 50_000, y: 50_000 })
                    &&& b.cbox_size == (Vec2 { x: 45_000, y: 65_000 })
                    &&& b.rotation == 0
                },
                None => {
                    &&& final(self).cooldown == clamp_spec(old(self).cooldown - dt)
                    &&& final(self).alt_image_cooldown == clamp_spec(old(self).alt_image_cooldown - dt)
                },
            },
    {
        if self.tick_cooldowns(dt) {
            Some(self.emit(next_cooldown, tag, velocity))
        } else {
            None
        }
    }

    fn tick_cooldowns(&mut self, dt: i64) -> (ready: bool)
        requires
            old(self).wf(),
            0 < dt <= SECOND,
        ensures
            final(self).wf(),
            ready == old(self).ready(dt as int),
            final(self).cooldown == clamp_spec(old(self).cooldown - dt),
            final(self).alt_image_cooldown == clamp_spec(old(self).alt_image_cooldown - dt),
            final(self).position == old(self).position,
            final(self).velocity == old(self).velocity,
            final(self).size == old(self).size,
            final(self).rotation == old(self).rotation,
            final(self).rotation_velocity == old(self).rotation_velocity,
    {
        self.cooldown = clamp_limit(self.cooldown as i128 - dt as i128);
        self.alt_image_cooldown = clamp_limit(self.alt_image_cooldown as i128 - dt as i128);
        self.cooldown < 0 && -SPAWN_BAND < self.position.x && self.position.x < SPAWN_BAND
    }

    fn emit(&mut self, next_cooldown: i64, tag: BonusType, velocity: Vec2) -> (b: Bonus)
        requires
            old(self).wf(),
            within(next_cooldown as int, LIMIT as int),
        ensures
            *final(self) == (Factory { cooldown: next_cooldown, alt_image_cooldown: SECOND, ..*old(self) }),
            b.tag == tag,
            b.position == old(self).position,
            b.velocity == velocity,
            b.size == (Vec2 { x: 50_000, y: 50_000 }),
            b.cbox_size == (Vec2 { x: 45_000, y: 65_000 }),
            b.rotation == 0,
    {
        self.alt_image_cooldown = SECOND;
        self.cooldown = next_cooldown;
        Bonus::new(tag, self.position, velocity)
    }

    /// A drawn cooldown in `[0, MAX_COOLDOWN)`.
    pub fn cooldown() -> (r: i64)
        ensures
            0 <= r < MAX_COOLDOWN,
    {
        random_range(0, MAX_COOLDOWN)
    }

    /// `g` and `out` are what the spawn scheduler's tick of `dt` makes of
    /// `self`: when the cooldown runs out inside the band, one bonus at the
    /// factory's position, with a cooldown restarted in `[0, MAX_COOLDOWN)`;
    /// otherwise no bonus and both cooldowns counted down.
    pub open spec fn spawned(&self, g: Factory, dt: int, out: Option<Bonus>) -> bool {
        &&& g.wf()
        &&& out.is_some() == self.ready(dt)
        &&& g.position == self.position
        &&& g.velocity == self.velocity
        &&& g.size == self.size
        &&& g.rotation == self.rotation
        &&& g.rotation_velocity == self.rotation_velocity
        &&& match out {
            Some(b) => {
                &&& 0 <= g.cooldown < MAX_COOLDOWN
                &&& g.alt_image_cooldown == SECOND
                &&& b.position == self.position
                &&& -10_000 <= b.velocity.x < 10_000
                &&& b.velocity.y == 10_000
                &&& b.size == (Vec2 { x: 50_000, y: 50_000 })
                &&& b.cbox_size == (Vec2 { x: 45_000, y: 65_000 })
                &&& b.rotation == 0
            },
            None => {
                &&& g.cooldown == clamp_spec(self.cooldown - dt)
                &&& g.alt_image_cooldown == clamp_spec(self.alt_image_cooldown - dt)
            },
        }
    }

    /// The spawn scheduler's tick: as `spawn_with`, with the next cooldown,
    /// the bonus type and its velocity drawn at random.
    pub fn spawn(&mut self, dt: i64) -> (r: Option<Bonus>)
        requires
            old(self).wf(),
            0 < dt <= SECOND,
        ensures
            old(self).spawned(*final(self), dt as int, r),
    {
        if self.tick_cooldowns(dt) {
            let next = Self::cooldown();
            let tag = Bonus::random_type();
            let velocity = Bonus::random_velocity();
            Some(self.emit(next, tag, velocity))
        } else {
            None
        }
    }
}

} // verus!

verus! {

/// `rate` per second over a tick of `dt`, as an integer step.
pub fn over_tick_of(dt: i64, rate: i64) -> (r: i64)
    requires
        0 < dt <= SECOND,
        within(rate as int, LIMIT as int),
    ensures
        r == over_tick(dt as int, rate as int),
        within(r as int, LIMIT as int),
{
    assert(-1_000_000_000_000_000_000 <= dt * rate <= 1_000_000_000_000_000_000) by (nonlinear_arith)
        requires
            0 < dt <= 1_000_000,
            -1_000_000_000_000 <= rate <= 1_000_000_000_000,
    ;
    let q = floor_div(dt as i128 * rate as i128, SECOND as i128);
    proof {
        vstd::arithmetic::div_mod::lemma_div_is_ordered(dt * rate, 1_000_000_000_000_000_000, SECOND as int);
        vstd::arithmetic::div_mod::lemma_div_is_ordered(-1_000_000_000_000_000_000, dt * rate, SECOND as int);
    }
    q as i64
}

impl Factory {
    /// The factory after a tick of `dt`: it descends to the patrol height
    /// by `dt / 50` per tick without passing it,
    /// then patrols sideways; past a patrol edge its horizontal velocity is
    /// multiplied by `speed_roll` thousandths and its spin restarts (still when
    /// `spin_choice` is 0, else at `spin_roll`); the spin is then integrated and
    /// damped toward zero in proportion to the rotation.
    pub open spec fn moved(&self, dt: int, speed_roll: int, spin_choice: int, spin_roll: int) -> Factory {
        let f1 = if self.position.y > PATROL_Y {
            let y = self.position.y - dt / 50;
            Factory { position: Vec2 { x: self.position.x, y: if y < PATROL_Y { PATROL_Y } else { y as i64 } }, ..*self }
        } else {
            let p = Vec2 {
                x: clamp_spec(self.position.x + over_tick(dt, self.velocity.x as int)) as i64,
                y: clamp_spec(PATROL_Y + over_tick(dt, self.velocity.y as int)) as i64,
            };
            if p.x > PATROL_EDGE || p.x < -PATROL_EDGE {
                Factory {
                    position: p,
                    velocity: Vec2 { x: clamp_spec(self.velocity.x * speed_roll / 1000) as i64, y: self.velocity.y },
                    rotation: 0,
                    rotation_velocity: if spin_choice == 0 { 0 } else { spin_roll as i64 },
                    ..*self
                }
            } else {
                Factory { position: p, ..*self }
            }
        };
        let rot = clamp_spec(f1.rotation + over_tick(dt, f1.rotation_velocity as int));
        Factory {
            rotation: rot as i64,
            rotation_velocity: clamp_spec(f1.rotation_velocity - rot / 30) as i64,
            ..f1
        }
    }

    /// One tick of movement with the given draws (see `moved`).
    pub fn update_with(&mut self, dt: i64, speed_roll: i64, spin_choice: i64, spin_roll: i64)
        requires
            old(self).wf(),
            0 < dt <= SECOND,
            -1200 <= speed_roll < -700,
            0 <= spin_choice < 3,
            -1_500_000 <= spin_roll < -500_000,
        ensures
            final(self).wf(),
            *final(self) == old(self).moved(dt as int, speed_roll as int, spin_choice as int, spin_roll as int),
            old(self).position.y > PATROL_Y ==> {
                &&& PATROL_Y <= final(self).position.y <= old(self).position.y
                &&& dt >= 50 ==> final(self).position.y < old(self).position.y
                &&& final(self).position.x == old(self).position.x
                &&& final(self).velocity == old(self).velocity
            },
    {
        if self.position.y > PATROL_Y {
            let y = self.position.y - dt / 50;
            self.position.y = if y < PATROL_Y {
                PATROL_Y
            } else {
                y
            };
        } else {
            let x = clamp_limit(self.position.x as i128 + over_tick_of(dt, self.velocity.x) as i128);
            let y = clamp_limit(PATROL_Y as i128 + over_tick_of(dt, self.velocity.y) as i128);
            self.position = Vec2 { x, y };
            if x > PATROL_EDGE || x < -PATROL_EDGE {
                assert(-1_200_000_000_000_000 <= self.velocity.x * speed_roll <= 1_200_000_000_000_000) by (nonlinear_arith)
                    requires
                        -1200 <= speed_roll < -700,
                        -1_000_000_000_000 <= self.velocity.x <= 1_000_000_000_000,
                ;
                let vx = floor_div(self.velocity.x as i128 * speed_roll as i128, 1000);
                proof {
                    vstd::arithmetic::div_mod::lemma_div_is_ordered(self.velocity.x * speed_roll, 1_200_000_000_000_000, 1000);
                    vstd::arithmetic::div_mod::lemma_div_is_ordered(-1_200_000_000_000_000, self.velocity.x * speed_roll, 1000);
                }
                self.velocity.x = clamp_limit(vx);
                self.rotation = 0;
                self.rotation_velocity = if spin_choice == 0 {
                    0
                } else {
                    spin_roll
                };
            }
        }
        let rot = clamp_limit(self.rotation as i128 + over_tick_of(dt, self.rotation_velocity) as i128);
        let damp = floor_div(rot as i128, 30);
        proof {
            vstd::arithmetic::div_mod::lemma_div_is_ordered(rot as int, LIMIT as int, 30);
            vstd::arithmetic::div_mod::lemma_div_is_ordered(-LIMIT, rot as int, 30);
        }
        self.rotation = rot;
        self.rotation_velocity = clamp_limit(self.rotation_velocity as i128 - damp);
    }

    /// `g` is `self` moved by one tick of `dt` under some allowed draws.
    pub open spec fn moved_somehow(&self, g: Factory, dt: int) -> bool {
        exists|speed_roll: int, spin_choice: int, spin_roll: int|
            -1200 <= speed_roll < -700 && 0 <= spin_choice < 3 && -1_500_000 <= spin_roll < -500_000
                && g == self.moved(dt, speed_roll, spin_choice, spin_roll)
    }

    /// One tick of movement, drawing the turn-around speed factor and spin.
    pub fn update(&mut self, dt: i64)
        requires
            old(self).wf(),
            0 < dt <= SECOND,
        ensures
            final(self).wf(),
            old(self).moved_somehow(*final(self), dt as int),
            old(self).position.y > PATROL_Y ==> {
                &&& PATROL_Y <= final(self).position.y <= old(self).position.y
                &&& dt >= 50 ==> final(self).position.y < old(self).position.y
                &&& final(self).position.x == old(self).position.x
                &&& final(self).velocity == old(self).velocity
            },
    {
        let speed_roll = random_range(-1200, -700);
        let spin_choice = random_range(0, 3);
        let spin_roll = random_range(-1_500_000, -500_000);
        self.update_with(dt, speed_roll, spin_choice, spin_roll);
    }
}

} // verus!

verus! {

proof fn lemma_spawn_prefix(fs: Seq<Factory>, outs: Seq<Option<Bonus>>, dt: int, i: int)
    requires
        fs.len() == outs.len() + 1,
        0 < dt <= SECOND,
        fs[0].wf(),
        0 <= fs[0].cooldown,
        forall|j: int| 0 <= j < outs.len() ==> #[trigger] fs[j].spawned(fs[j + 1], dt, outs[j]),
        0 <= i < outs.len(),
        i * dt <= fs[0].cooldown,
    ensures
        fs[i].cooldown == fs[0].cooldown - i * dt,
        fs[i].position == fs[0].position,
        forall|j: int| 0 <= j < i ==> (#[trigger] outs[j]).is_none(),
    decreases i,
{
    if i > 0 {
        assert((i - 1) * dt <= fs[0].cooldown) by (nonlinear_arith)
            requires
                i * dt <= fs[0].cooldown,
                0 < dt,
        ;
        lemma_spawn_prefix(fs, outs, dt, i - 1);
        assert(fs[i - 1].spawned(fs[(i - 1) + 1], dt, outs[i - 1]));
        assert(fs[0].cooldown - (i - 1) * dt - dt == fs[0].cooldown - i * dt) by (nonlinear_arith);
        assert(fs[0].cooldown - i * dt >= 0);
        assert(fs[0].cooldown <= LIMIT) by {
            assert(fs[0].wf());
        }
    }
}

/// The spawn scheduler keeps its cooldown: a factory that stays in the band
/// with cooldown `C >= 0` emits nothing during the first `C / dt` ticks and
/// exactly one bonus on the tick after, when its cooldown restarts in
/// `[0, MAX_COOLDOWN)`. `fs` are the factory's states and `outs` what each
/// tick emitted.
pub proof fn lemma_spawn_after_cooldown(fs: Seq<Factory>, outs: Seq<Option<Bonus>>, dt: int)
    requires
        fs.len() == outs.len() + 1,
        0 < dt <= SECOND,
        fs[0].wf(),
        0 <= fs[0].cooldown,
        in_band(fs[0].position.x as int),
        forall|j: int| 0 <= j < outs.len() ==> #[trigger] fs[j].spawned(fs[j + 1], dt, outs[j]),
        outs.len() == (fs[0].cooldown as int) / dt + 1,
    ensures
        forall|j: int| 0 <= j < outs.len() - 1 ==> (#[trigger] outs[j]).is_none(),
        outs.last().is_some(),
        0 <= fs.last().cooldown < MAX_COOLDOWN,
{
    let c = fs[0].cooldown as int;
    let n = outs.len() as int;
    vstd::arithmetic::div_mod::lemma_fundamental_div_mod(c, dt);
    let q = c / dt;
    assert(q >= 0) by {
        vstd::arithmetic::div_mod::lemma_div_pos_is_pos(c, dt);
    }
    assert(q * dt <= c) by (nonlinear_arith)
        requires
            c == dt * q + c % dt,
            0 <= c % dt,
    ;
    lemma_spawn_prefix(fs, outs, dt, n - 1);
    assert(fs[n - 1].spawned(fs[(n - 1) + 1], dt, outs[n - 1]));
    assert(c - q * dt - dt < 0) by (nonlinear_arith)
        requires
            c == dt * q + c % dt,
            c % dt < dt,
    ;
    assert(fs[n - 1].ready(dt));
}

} // verus!
