use crate::config::{SimConfig, GROUND_Y, TICK};
use crate::geometry::{
    clamp_limit,
    clamp_spec,
    floor_div,
    trunc_div,
    trunc_div_of,
    within,
    Vec2,
    LIMIT,
    SECOND,
    UNIT,
};
use crate::mutation::{
    all_live,
    all_wf,
    counted_down,
    fold_factors,
    live,
    scaled,
    update_mutation_list,
    FactorKind,
    Mutation,
};
use vstd::prelude::*;

verus! {

/// Which way a player looks.
#[derive(Clone, Copy, Debug, PartialEq, Eq, Structural)]
pub enum Facing {
    Left,
    Right,
}

/// Which of the two players.
#[derive(Clone, Copy, Debug, PartialEq, Eq, Structural)]
pub enum PlayerType {
    Player1,
    Player2,
}

/// What a player's sprite shows.
#[derive(Clone, Copy, Debug, PartialEq, Eq, Structural)]
pub enum PlayerAnimationStatus {
    Walking,
    Standing,
    Jumping,
    Falling,
}

/// How a player's sprite is tinted by its mutations.
#[derive(Clone, Copy, Debug, PartialEq, Eq, Structural)]
pub enum Tint {
    Plain,
    /// The effective horizontal max velocity is zero.
    Frozen,
    /// The effective horizontal max velocity is above the base one.
    Boosted,
}

/// Key codes bound to a player's moves.
#[derive(Clone, Copy, Debug, PartialEq, Eq, Structural)]
pub struct Controls {
    pub up: u32,
    pub left: u32,
    pub right: u32,
}

/// Half a walk cycle: each walk frame shows for this long.
pub const WALK_ANIMATION_CYCLE: i64 = 200_000;

#[derive(Clone, Debug)]
pub struct Player {
    pub tag: PlayerType,
    pub position: Vec2,
    pub facing: Facing,
    pub size: Vec2,
    /// Collision size; only `x` is read, as the collision radius.
    pub cbox_size: Vec2,
    /// Base max velocity, in length units per second.
    pub max_velocity: Vec2,
    /// Displacement per tick.
    pub velocity: Vec2,
    /// Input direction, each component -1, 0 or 1.
    pub input_axis: Vec2,
    pub controls: Controls,
    pub score: u32,
    /// Time into the walk cycle, in microseconds.
    pub walk_time: i64,
    pub mutations: Vec<Mutation>,
}

pub open spec fn unit_axis(v: i64) -> bool {
    v == -1 || v == 0 || v == 1
}

pub open spec fn nonneg_bounded(v: Vec2) -> bool {
    0 <= v.x <= LIMIT && 0 <= v.y <= LIMIT
}

/// `dt` of a per-second `rate`, as a per-tick amount.
pub open spec fn per_tick(dt: int, rate: int) -> int {
    dt * rate / SECOND as int
}

/// Row of the rendered view, counted from the top and rounded toward zero,
/// that height `y` falls on.
pub open spec fn pixel_row(cfg: SimConfig, y: int) -> int {
    trunc_div(cfg.view_height * (UNIT / 2) - cfg.view_height * y, UNIT as int)
}

/// Strictly above the ground, as seen on screen.
pub open spec fn airborne(cfg: SimConfig, y: int) -> bool {
    pixel_row(cfg, cfg.ground_y as int) > pixel_row(cfg, y)
}

/// Horizontal wrap: leaving one edge re-enters at the other, same offset.
pub open spec fn wrap_x(cfg: SimConfig, x: int) -> int {
    if x > cfg.half_width {
        x - 2 * cfg.half_width
    } else if x < -cfg.half_width {
        x + 2 * cfg.half_width
    } else {
        x
    }
}

/// Per-tick fall of a player whose base vertical max velocity is `base_y`.
pub open spec fn gravity_step(cfg: SimConfig, base_y: int) -> int {
    cfg.dt * base_y / (SECOND * cfg.gravity)
}

impl Player {
    pub open spec fn wf(&self) -> bool {
        &&& self.position.bounded()
        &&& self.velocity.bounded()
        &&& nonneg_bounded(self.size)
        &&& nonneg_bounded(self.cbox_size)
        &&& nonneg_bounded(self.max_velocity)
        &&& unit_axis(self.input_axis.x)
        &&& unit_axis(self.input_axis.y)
        &&& 0 <= self.walk_time <= 2 * WALK_ANIMATION_CYCLE
        &&& all_wf(self.mutations@)
    }

    /// Base max velocity with every active mutation's velocity factors applied.
    pub open spec fn effective_max_velocity(&self) -> Vec2 {
        Vec2 {
            x: scaled(self.max_velocity.x as int, self.mutations@, FactorKind::VelocityX) as i64,
            y: scaled(self.max_velocity.y as int, self.mutations@, FactorKind::VelocityY) as i64,
        }
    }

    /// Collision size with every active mutation's size factor applied.
    pub open spec fn effective_cbox(&self) -> Vec2 {
        Vec2 {
            x: scaled(self.cbox_size.x as int, self.mutations@, FactorKind::Size) as i64,
            y: scaled(self.cbox_size.y as int, self.mutations@, FactorKind::Size) as i64,
        }
    }

    /// Velocity after one tick of `cfg`.
    pub open spec fn next_velocity(&self, cfg: SimConfig) -> Vec2 {
        let mv = self.effective_max_velocity();
        let vx = per_tick(cfg.dt as int, mv.x as int) * self.input_axis.x;
        let vy = if airborne(cfg, self.position.y as int) {
            let v0 = if mv.y == 0 && self.velocity.y > 0 {
                0
            } else {
                self.velocity.y as int
            };
            clamp_spec(v0 - gravity_step(cfg, self.max_velocity.y as int))
        } else {
            per_tick(cfg.dt as int, mv.y as int) * self.input_axis.y
        };
        Vec2 { x: vx as i64, y: vy as i64 }
    }

    /// Position after one tick of `cfg`.
    pub open spec fn next_position(&self, cfg: SimConfig) -> Vec2 {
        let v = self.next_velocity(cfg);
        let y = clamp_spec(self.position.y + v.y);
        Vec2 {
            x: clamp_spec(wrap_x(cfg, self.position.x + v.x)) as i64,
            y: if y < cfg.ground_y { cfg.ground_y as int } else { y } as i64,
        }
    }

    /// Whether the coming tick starts a jump (the jump sound's cue).
    pub open spec fn jumps(&self, cfg: SimConfig) -> bool {
        !airborne(cfg, self.position.y as int) && self.input_axis.y != 0
            && self.effective_max_velocity().y > 0
    }

    /// `self` with only position and velocity changed.
    pub open spec fn moved_to(&self, other: &Player, pos: Vec2, vel: Vec2) -> bool {
        &&& other.position == pos
        &&& other.velocity == vel
        &&& other.mutations@ == self.mutations@
        &&& self.same_traits(other)
    }

    /// Equal in everything but position, velocity and mutations.
    pub open spec fn same_traits(&self, other: &Player) -> bool {
        &&& other.tag == self.tag
        &&& other.facing == self.facing
        &&& other.size == self.size
        &&& other.cbox_size == self.cbox_size
        &&& other.max_velocity == self.max_velocity
        &&& other.input_axis == self.input_axis
        &&& other.controls == self.controls
        &&& other.score == self.score
        &&& other.walk_time == self.walk_time
    }

    pub fn new(controls: Controls, tag: PlayerType) -> (r: Player)
        ensures
            r.wf(),
            r.tag == tag,
            r.controls == controls,
            r.position == (match tag {
                PlayerType::Player1 => Vec2 { x: 250_000, y: GROUND_Y },
                PlayerType::Player2 => Vec2 { x: -250_000i64, y: GROUND_Y },
            }),
            r.facing == (match tag {
                PlayerType::Player1 => Facing::Left,
                PlayerType::Player2 => Facing::Right,
            }),
            r.size == (Vec2 { x: 100_000, y: 100_000 }),
            r.cbox_size == (Vec2 { x: 55_000, y: 75_000 }),
            r.max_velocity == (Vec2 { x: 200_000, y: 1_000_000 }),
            r.velocity == (Vec2 { x: 0, y: 0 }),
            r.input_axis == (Vec2 { x: 0, y: 0 }),
            r.score == 0,
            r.walk_time == 0,
            r.mutations@.len() == 0,
    {
        let (position, facing) = match tag {
            PlayerType::Player1 => (Vec2 { x: 250_000, y: GROUND_Y }, Facing::Left),
            PlayerType::Player2 => (Vec2 { x: -250_000, y: GROUND_Y }, Facing::Right),
        };
        Player {
            tag,
            position,
            facing,
            size: Vec2 { x: 100_000, y: 100_000 },
            cbox_size: Vec2 { x: 55_000, y: 75_000 },
            max_velocity: Vec2 { x: 200_000, y: 1_000_000 },
            velocity: Vec2 { x: 0, y: 0 },
            input_axis: Vec2 { x: 0, y: 0 },
            controls,
            score: 0,
            walk_time: 0,
            mutations: Vec::new(),
        }
    }

    pub fn max_velocity_mutated(&self) -> (r: Vec2)
        requires
            self.wf(),
        ensures
            r == self.effective_max_velocity(),
            nonneg_bounded(r),
    {
        Vec2 {
            x: fold_factors(self.max_velocity.x, &self.mutations, FactorKind::VelocityX),
            y: fold_factors(self.max_velocity.y, &self.mutations, FactorKind::VelocityY),
        }
    }

    pub fn cbox_size_mutated(&self) -> (r: Vec2)
        requires
            self.wf(),
        ensures
            r == self.effective_cbox(),
            nonneg_bounded(r),
    {
        Vec2 {
            x: fold_factors(self.cbox_size.x, &self.mutations, FactorKind::Size),
            y: fold_factors(self.cbox_size.y, &self.mutations, FactorKind::Size),
        }
    }

    /// Counts the mutations down by `dt` and drops the expired ones.
    pub fn update_mutations(&mut self, dt: i64)
        requires
            old(self).wf(),
            0 < dt <= SECOND,
        ensures
            final(self).wf(),
            final(self).mutations@ == live(counted_down(old(self).mutations@, dt as int)),
            all_live(final(self).mutations@),
            old(self).same_traits(final(self)),
            final(self).position == old(self).position,
            final(self).velocity == old(self).velocity,
    {
        update_mutation_list(&mut self.mutations, dt);
    }
}

/// `speed * axis` for a per-tick speed and a unit axis component.
fn directed(speed: i64, axis: i64) -> (r: i64)
    requires
        0 <= speed <= LIMIT,
        unit_axis(axis),
    ensures
        r == speed * axis,
        within(r as int, LIMIT as int),
{
    if axis > 0 {
        speed
    } else if axis < 0 {
        -speed
    } else {
        0
    }
}

/// Per-tick amount of a per-second rate.
pub fn per_tick_of(dt: i64, rate: i64) -> (r: i64)
    requires
        0 < dt <= SECOND,
        0 <= rate <= LIMIT,
    ensures
        r == per_tick(dt as int, rate as int),
        0 <= r <= rate,
{
    assert(0 <= dt * rate <= rate * SECOND) by (nonlinear_arith)
        requires
            0 < dt <= 1_000_000,
            0 <= rate,
    ;
    let r = (dt as u128 * rate as u128) / (SECOND as u128);
    proof {
        vstd::arithmetic::div_mod::lemma_div_is_ordered((dt * rate) as int, (rate * SECOND) as int, SECOND as int);
        vstd::arithmetic::div_mod::lemma_div_by_multiple(rate as int, SECOND as int);
        vstd::arithmetic::div_mod::lemma_div_pos_is_pos((dt * rate) as int, SECOND as int);
    }
    r as i64
}

/// Row of the rendered view that height `y` falls on.
pub fn pixel_row_of(cfg: &SimConfig, y: i64) -> (r: i128)
    requires
        cfg.wf(),
        within(y as int, LIMIT as int),
    ensures
        r == pixel_row(*cfg, y as int),
{
    let h: i128 = cfg.view_height as i128;
    assert(0 < h * 500_000 <= 50_000_000_000) by (nonlinear_arith)
        requires
            0 < h <= 100_000,
    ;
    assert(-100_000_000_000_000_000 <= h * (y as i128) <= 100_000_000_000_000_000) by (nonlinear_arith)
        requires
            0 < h <= 100_000,
            -1_000_000_000_000 <= y <= 1_000_000_000_000,
    ;
    trunc_div_of(h * ((UNIT / 2) as i128) - h * (y as i128), UNIT as i128)
}

pub fn is_airborne(cfg: &SimConfig, y: i64) -> (r: bool)
    requires
        cfg.wf(),
        within(y as int, LIMIT as int),
    ensures
        r == airborne(*cfg, y as int),
{
    pixel_row_of(cfg, cfg.ground_y) > pixel_row_of(cfg, y)
}

pub fn wrap_horizontal(cfg: &SimConfig, x: i64) -> (r: i64)
    requires
        cfg.wf(),
        within(x as int, 2 * LIMIT),
    ensures
        r == clamp_spec(wrap_x(*cfg, x as int)),
{
    let w = if x > cfg.half_width {
        x - 2 * cfg.half_width
    } else if x < -cfg.half_width {
        x + 2 * cfg.half_width
    } else {
        x
    };
    clamp_limit(w as i128)
}

impl Player {
    /// Advances the player by one tick: input-driven horizontal velocity,
    /// a jump from the ground or gravity in the air, ground clamp and
    /// horizontal wrap. Returns whether a jump started.
    pub fn update_position(&mut self, cfg: &SimConfig) -> (jumped: bool)
        requires
            old(self).wf(),
            cfg.wf(),
        ensures
            final(self).wf(),
            old(self).moved_to(
                final(self),
                old(self).next_position(*cfg),
                old(self).next_velocity(*cfg),
            ),
            jumped == old(self).jumps(*cfg),
            final(self).position.y >= cfg.ground_y,
    {
        let mv = self.max_velocity_mutated();
        let vx = directed(per_tick_of(cfg.dt, mv.x), self.input_axis.x);
        let mut jumped = false;
        let vy = if is_airborne(cfg, self.position.y) {
            let v0: i64 = if mv.y == 0 && self.velocity.y > 0 {
                0
            } else {
                self.velocity.y
            };
            assert(0 <= cfg.dt * self.max_velocity.y <= 1_000_000_000_000_000_000) by (nonlinear_arith)
                requires
                    0 < cfg.dt <= 1_000_000,
                    0 <= self.max_velocity.y <= 1_000_000_000_000,
            ;
            let num: u128 = cfg.dt as u128 * self.max_velocity.y as u128;
            let g: u128 = num / (SECOND as u128 * cfg.gravity as u128);
            proof {
                vstd::arithmetic::div_mod::lemma_div_is_ordered(num as int, 1_000_000_000_000_000_000, SECOND * cfg.gravity);
                vstd::arithmetic::div_mod::lemma_div_pos_is_pos(num as int, SECOND * cfg.gravity);
                vstd::arithmetic::div_mod::lemma_div_is_ordered_by_denominator(1_000_000_000_000_000_000, SECOND as int, SECOND * cfg.gravity);
                vstd::arithmetic::div_mod::lemma_div_by_multiple(1_000_000_000_000, SECOND as int);
            }
            clamp_limit(v0 as i128 - g as i128)
        } else {
            jumped = self.input_axis.y != 0 && mv.y > 0;
            directed(per_tick_of(cfg.dt, mv.y), self.input_axis.y)
        };
        self.velocity = Vec2 { x: vx, y: vy };
        let y = clamp_limit(self.position.y as i128 + vy as i128);
        let y = if y < cfg.ground_y {
            cfg.ground_y
        } else {
            y
        };
        let x = wrap_horizontal(cfg, self.position.x + vx);
        self.position = Vec2 { x, y };
        jumped
    }
}

} // verus!

verus! {

/// In the air, one tick lowers a player's vertical velocity by the gravity step
/// of its base vertical max velocity (a frozen player first loses any upward
/// speed), input moves it neither way, and it never ends below the ground.
pub proof fn lemma_gravity_in_air(p: Player, cfg: SimConfig)
    requires
        p.wf(),
        cfg.wf(),
        airborne(cfg, p.position.y as int),
        p.input_axis == (Vec2 { x: 0, y: 0 }),
    ensures
        p.next_velocity(cfg).x == 0,
        p.next_velocity(cfg).y == clamp_spec(
            (if p.effective_max_velocity().y == 0 && p.velocity.y > 0 {
                0
            } else {
                p.velocity.y as int
            }) - gravity_step(cfg, p.max_velocity.y as int),
        ),
        p.next_position(cfg).y >= cfg.ground_y,
{
}

/// Crossing the right edge by `eps` re-enters at the left edge plus `eps`, and
/// crossing the left edge by `eps` re-enters at the right edge minus `eps`:
/// a teleport that keeps the offset, not a reflection.
pub proof fn lemma_wrap_teleports(p: Player, cfg: SimConfig, eps: int)
    requires
        p.wf(),
        cfg.wf(),
        0 < eps <= 2 * cfg.half_width,
    ensures
        p.position.x + p.next_velocity(cfg).x == cfg.half_width + eps
            ==> p.next_position(cfg).x == -cfg.half_width + eps,
        p.position.x + p.next_velocity(cfg).x == -cfg.half_width - eps
            ==> p.next_position(cfg).x == cfg.half_width - eps,
{
}

} // verus!

verus! {

impl Player {
    /// Input axis and facing after key `key` goes down.
    pub open spec fn pressed(&self, key: u32) -> (Vec2, Facing) {
        if key == self.controls.up {
            (Vec2 { x: self.input_axis.x, y: 1 }, self.facing)
        } else if key == self.controls.left {
            (Vec2 { x: -1i64, y: self.input_axis.y }, Facing::Left)
        } else if key == self.controls.right {
            (Vec2 { x: 1, y: self.input_axis.y }, Facing::Right)
        } else {
            (self.input_axis, self.facing)
        }
    }

    /// Input axis after key `key` goes up: a released side key only stops
    /// movement toward its own side.
    pub open spec fn released(&self, key: u32) -> Vec2 {
        if key == self.controls.up {
            Vec2 { x: self.input_axis.x, y: 0 }
        } else if key == self.controls.left {
            Vec2 { x: if self.input_axis.x < 0 { 0 } else { self.input_axis.x }, y: self.input_axis.y }
        } else if key == self.controls.right {
            Vec2 { x: if self.input_axis.x > 0 { 0 } else { self.input_axis.x }, y: self.input_axis.y }
        } else {
            self.input_axis
        }
    }

    pub fn press(&mut self, key: u32)
        requires
            old(self).wf(),
        ensures
            final(self).wf(),
            (final(self).input_axis, final(self).facing) == old(self).pressed(key),
            final(self).position == old(self).position,
            final(self).velocity == old(self).velocity,
            final(self).score == old(self).score,
            final(self).mutations@ == old(self).mutations@,
            final(self).controls == old(self).controls,
            final(self).tag == old(self).tag,
            final(self).size == old(self).size,
            final(self).cbox_size == old(self).cbox_size,
            final(self).max_velocity == old(self).max_velocity,
            final(self).walk_time == old(self).walk_time,
    {
        if key == self.controls.up {
            self.input_axis.y = 1;
        } else if key == self.controls.left {
            self.facing = Facing::Left;
            self.input_axis.x = -1;
        } else if key == self.controls.right {
            self.facing = Facing::Right;
            self.input_axis.x = 1;
        }
    }

    pub fn release(&mut self, key: u32)
        requires
            old(self).wf(),
        ensures
            final(self).wf(),
            final(self).input_axis == old(self).released(key),
            final(self).facing == old(self).facing,
            final(self).position == old(self).position,
            final(self).velocity == old(self).velocity,
            final(self).score == old(self).score,
            final(self).mutations@ == old(self).mutations@,
            final(self).controls == old(self).controls,
            final(self).tag == old(self).tag,
            final(self).size == old(self).size,
            final(self).cbox_size == old(self).cbox_size,
            final(self).max_velocity == old(self).max_velocity,
            final(self).walk_time == old(self).walk_time,
    {
        if key == self.controls.up {
            self.input_axis.y = 0;
        } else if key == self.controls.left {
            if self.input_axis.x < 0 {
                self.input_axis.x = 0;
            }
        } else if key == self.controls.right {
            if self.input_axis.x > 0 {
                self.input_axis.x = 0;
            }
        }
    }

    /// `q` is `self` after one tick of `cfg`: its mutations counted down and
    /// the expired ones dropped, then moved under the remaining ones
    /// (`mid` is the player between the two steps).
    pub open spec fn ticked(&self, q: &Player, cfg: SimConfig, jumped: bool) -> bool {
        &&& q.mutations@ == live(counted_down(self.mutations@, cfg.dt as int))
        &&& exists|mid: Player|
            {
                &&& self.same_traits(&mid)
                &&& mid.position == self.position
                &&& mid.velocity == self.velocity
                &&& mid.mutations@ == q.mutations@
                &&& mid.moved_to(q, mid.next_position(cfg), mid.next_velocity(cfg))
                &&& jumped == mid.jumps(cfg)
            }
    }

    /// One tick for a player: mutations count down and expire, then the
    /// player moves under the remaining ones. Returns whether a jump started.
    pub fn tick(&mut self, cfg: &SimConfig) -> (jumped: bool)
        requires
            old(self).wf(),
            cfg.wf(),
        ensures
            final(self).wf(),
            final(self).mutations@ == live(counted_down(old(self).mutations@, cfg.dt as int)),
            old(self).ticked(final(self), *cfg, jumped),
    {
        self.update_mutations(cfg.dt);
        let ghost mid = *self;
        let jumped = self.update_position(cfg);
        assert(old(self).same_traits(&mid));
        jumped
    }

    /// The sprite's state: falling or jumping by the sign of the vertical
    /// velocity, else walking while moving sideways, else standing.
    pub open spec fn status(&self) -> PlayerAnimationStatus {
        if self.velocity.y < 0 {
            PlayerAnimationStatus::Falling
        } else if self.velocity.y > 0 {
            PlayerAnimationStatus::Jumping
        } else if self.velocity.x != 0 {
            PlayerAnimationStatus::Walking
        } else {
            PlayerAnimationStatus::Standing
        }
    }

    pub fn animation_status(&self) -> (r: PlayerAnimationStatus)
        ensures
            r == self.status(),
    {
        if self.velocity.y < 0 {
            PlayerAnimationStatus::Falling
        } else if self.velocity.y > 0 {
            PlayerAnimationStatus::Jumping
        } else if self.velocity.x != 0 {
            PlayerAnimationStatus::Walking
        } else {
            PlayerAnimationStatus::Standing
        }
    }

    /// Advances the walk cycle by one frame of display while walking and
    /// returns the status with the walk frame to show (0 or 1; 0 when not
    /// walking). The cycle shows frame 1 for its first half, frame 0 for the
    /// second, and restarts after both.
    pub fn next_pose(&mut self) -> (r: (PlayerAnimationStatus, usize))
        requires
            old(self).wf(),
        ensures
            final(self).wf(),
            r.0 == old(self).status(),
            r.0 != PlayerAnimationStatus::Walking ==> r.1 == 0 && final(self).walk_time
                == old(self).walk_time,
            r.0 == PlayerAnimationStatus::Walking ==> {
                let t = old(self).walk_time + TICK;
                &&& final(self).walk_time == (if t > 2 * WALK_ANIMATION_CYCLE { 0 } else { t })
                &&& r.1 == (if t > WALK_ANIMATION_CYCLE { 0usize } else { 1usize })
            },
            final(self).position == old(self).position,
            final(self).velocity == old(self).velocity,
            final(self).score == old(self).score,
            final(self).mutations@ == old(self).mutations@,
    {
        let status = self.animation_status();
        match status {
            PlayerAnimationStatus::Walking => {
                let t = self.walk_time + TICK;
                if t > 2 * WALK_ANIMATION_CYCLE {
                    self.walk_time = 0;
                    (status, 0)
                } else {
                    self.walk_time = t;
                    if t > WALK_ANIMATION_CYCLE {
                        (status, 0)
                    } else {
                        (status, 1)
                    }
                }
            },
            _ => (status, 0),
        }
    }

    /// The tint that shows the player's mutations.
    pub fn tint(&self) -> (r: Tint)
        requires
            self.wf(),
        ensures
            r == (if self.effective_max_velocity().x == 0 {
                Tint::Frozen
            } else if self.effective_max_velocity().x > self.max_velocity.x {
                Tint::Boosted
            } else {
                Tint::Plain
            }),
    {
        let mv = self.max_velocity_mutated();
        if mv.x == 0 {
            Tint::Frozen
        } else if mv.x > self.max_velocity.x {
            Tint::Boosted
        } else {
            Tint::Plain
        }
    }

    /// Drawn size: the base size under every active size factor.
    pub fn size_mutated(&self) -> (r: Vec2)
        requires
            self.wf(),
        ensures
            r.x == scaled(self.size.x as int, self.mutations@, FactorKind::Size),
            r.y == scaled(self.size.y as int, self.mutations@, FactorKind::Size),
    {
        Vec2 {
            x: fold_factors(self.size.x, &self.mutations, FactorKind::Size),
            y: fold_factors(self.size.y, &self.mutations, FactorKind::Size),
        }
    }

    /// Where the sprite is drawn: raised by two thirds of its growth so a
    /// grown player stands on the same ground.
    pub fn draw_position(&self) -> (r: Vec2)
        requires
            self.wf(),
        ensures
            r.x == self.position.x,
            r.y == clamp_spec(self.position.y + 2 * (scaled(self.size.y as int, self.mutations@, FactorKind::Size) - self.size.y) / 3),
    {
        let s = self.size_mutated();
        let lift = floor_div(2 * (s.y as i128 - self.size.y as i128), 3);
        Vec2 { x: self.position.x, y: clamp_limit(self.position.y as i128 + lift) }
    }
}

} // verus!

verus! {

/// Standing still on the ground inside the playfield, with no key held.
pub open spec fn resting(p: Player, cfg: SimConfig) -> bool {
    &&& p.position.y == cfg.ground_y
    &&& -cfg.half_width <= p.position.x <= cfg.half_width
    &&& p.velocity == (Vec2 { x: 0, y: 0 })
    &&& p.input_axis == (Vec2 { x: 0, y: 0 })
}

/// A resting player stays where it is through a tick, whatever its
/// mutations, and does not jump.
pub proof fn lemma_resting_player_stays(p: Player, q: Player, cfg: SimConfig, jumped: bool)
    requires
        cfg.wf(),
        resting(p, cfg),
        p.ticked(&q, cfg, jumped),
    ensures
        resting(q, cfg),
        q.position == p.position,
        !jumped,
{
    let mid = choose|mid: Player|
        {
            &&& p.same_traits(&mid)
            &&& mid.position == p.position
            &&& mid.velocity == p.velocity
            &&& mid.mutations@ == q.mutations@
            &&& mid.moved_to(&q, mid.next_position(cfg), mid.next_velocity(cfg))
            &&& jumped == mid.jumps(cfg)
        };
    let mv = mid.effective_max_velocity();
    assert(!airborne(cfg, mid.position.y as int));
    assert(per_tick(cfg.dt as int, mv.x as int) * 0 == 0);
    assert(per_tick(cfg.dt as int, mv.y as int) * 0 == 0);
    assert(mid.next_velocity(cfg) == Vec2 { x: 0, y: 0 });
}

} // verus!
