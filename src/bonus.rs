use crate::config::SimConfig;
use crate::geometry::{clamp_limit, clamp_spec, floor_div, within, Vec2, LIMIT, SECOND};
use crate::mutation::Mutation;
use crate::player::Player;
use crate::random::random_range;
use vstd::prelude::*;

verus! {

/// What a bonus does to the player who picks it up.
#[derive(Clone, Copy, Debug, PartialEq, Eq, Structural)]
pub enum BonusType {
    GiveOnePoint,
    GiveFivePoint,
    Velocity2,
    Freeze,
}

/// The effect of a bonus: points now, or a timed mutation.
#[derive(Clone, Copy, Debug, PartialEq, Eq, Structural)]
pub enum Effect {
    ScoreDelta(u32),
    TimedMutation(Mutation),
}

/// Bonuses at or below this height bounce.
pub const BOUNCE_MARGIN: i64 = 30_000;

/// Vertical speed under which a bouncing bonus stops sliding.
pub const REST_SPEED: i64 = 10_000;

pub open spec fn type_of_index(i: int) -> BonusType {
    if i == 0 {
        BonusType::GiveOnePoint
    } else if i == 1 {
        BonusType::GiveFivePoint
    } else if i == 2 {
        BonusType::Velocity2
    } else {
        BonusType::Freeze
    }
}

pub open spec fn effect_of(t: BonusType) -> Effect {
    match t {
        BonusType::GiveOnePoint => Effect::ScoreDelta(1),
        BonusType::GiveFivePoint => Effect::ScoreDelta(5),
        BonusType::Velocity2 => Effect::TimedMutation(
            Mutation {
                duration: 7_500_000,
                size_factor: 1000,
                velocity_factor: Vec2 { x: 2000, y: 1500 },
                active: true,
            },
        ),
        BonusType::Freeze => Effect::TimedMutation(
            Mutation {
                duration: 2_000_000,
                size_factor: 1000,
                velocity_factor: Vec2 { x: 0, y: 0 },
                active: true,
            },
        ),
    }
}

pub open spec fn label_of(t: BonusType) -> Seq<char> {
    match t {
        BonusType::GiveOnePoint => "score +1"@,
        BonusType::GiveFivePoint => "score +5"@,
        BonusType::Velocity2 => "speed x2"@,
        BonusType::Freeze => "freeze"@,
    }
}

pub open spec fn add_score(score: u32, delta: u32) -> u32 {
    if score + delta > u32::MAX {
        u32::MAX
    } else {
        (score + delta) as u32
    }
}

impl BonusType {
    /// The type numbered `i` in declaration order.
    pub fn from_index(i: i64) -> (r: BonusType)
        requires
            0 <= i < 4,
        ensures
            r == type_of_index(i as int),
    {
        if i == 0 {
            BonusType::GiveOnePoint
        } else if i == 1 {
            BonusType::GiveFivePoint
        } else if i == 2 {
            BonusType::Velocity2
        } else {
            BonusType::Freeze
        }
    }

    pub fn effect(&self) -> (r: Effect)
        ensures
            r == effect_of(*self),
    {
        match self {
            BonusType::GiveOnePoint => Effect::ScoreDelta(1),
            BonusType::GiveFivePoint => Effect::ScoreDelta(5),
            BonusType::Velocity2 => Effect::TimedMutation(
                Mutation {
                    duration: 7_500_000,
                    size_factor: 1000,
                    velocity_factor: Vec2 { x: 2000, y: 1500 },
                    active: true,
                },
            ),
            BonusType::Freeze => Effect::TimedMutation(
                Mutation {
                    duration: 2_000_000,
                    size_factor: 1000,
                    velocity_factor: Vec2 { x: 0, y: 0 },
                    active: true,
                },
            ),
        }
    }

    /// The label shown where the bonus was picked up.
    pub fn text(&self) -> (r: String)
        ensures
            r@ == label_of(*self),
    {
        match self {
            BonusType::GiveOnePoint => "score +1".to_owned(),
            BonusType::GiveFivePoint => "score +5".to_owned(),
            BonusType::Velocity2 => "speed x2".to_owned(),
            BonusType::Freeze => "freeze".to_owned(),
        }
    }
}

/// `score + delta`, saturating.
pub fn saturating_score(score: u32, delta: u32) -> (r: u32)
    ensures
        r == add_score(score, delta),
{
    if score > u32::MAX - delta {
        u32::MAX
    } else {
        score + delta
    }
}

/// A falling power-up. Its label is `description()`.
#[derive(Clone, Copy, Debug, PartialEq, Eq, Structural)]
pub struct Bonus {
    pub tag: BonusType,
    pub position: Vec2,
    pub size: Vec2,
    pub cbox_size: Vec2,
    /// Displacement per tick.
    pub velocity: Vec2,
    /// Cosmetic spin, in microradians.
    pub rotation: i64,
}

impl Bonus {
    pub open spec fn wf(&self) -> bool {
        &&& self.position.bounded()
        &&& self.velocity.bounded()
        &&& within(self.rotation as int, LIMIT as int)
    }

    /// A fresh bonus of type `tag` at `position`, moving by `velocity`.
    pub fn new(tag: BonusType, position: Vec2, velocity: Vec2) -> (r: Bonus)
        ensures
            r.tag == tag,
            r.position == position,
            r.velocity == velocity,
            r.size == (Vec2 { x: 50_000, y: 50_000 }),
            r.cbox_size == (Vec2 { x: 45_000, y: 65_000 }),
            r.rotation == 0,
    {
        Bonus {
            tag,
            position,
            size: Vec2 { x: 50_000, y: 50_000 },
            cbox_size: Vec2 { x: 45_000, y: 65_000 },
            velocity,
            rotation: 0,
        }
    }

    /// A uniformly drawn bonus type.
    pub fn random_type() -> (r: BonusType) {
        BonusType::from_index(random_range(0, 4))
    }

    /// A drawn start velocity: sideways below 0.01 units per tick either way, and
    /// 0.01 units per tick upward.
    pub fn random_velocity() -> (r: Vec2)
        ensures
            -10_000 <= r.x < 10_000,
            r.y == 10_000,
    {
        Vec2 { x: random_range(-10_000, 10_000), y: 10_000 }
    }

    /// A drawn spawn point over the middle half of the playfield, at height 0.5.
    pub fn random_position() -> (r: Vec2)
        ensures
            -250_000 <= r.x < 250_000,
            r.y == 500_000,
    {
        Vec2 { x: random_range(-250_000, 250_000), y: 500_000 }
    }

    /// A bonus of drawn type and velocity at `position`, or at a drawn point.
    pub fn random(position: Option<Vec2>) -> (r: Bonus)
        ensures
            match position {
                Some(p) => r.position == p,
                None => -250_000 <= r.position.x < 250_000 && r.position.y == 500_000,
            },
            -10_000 <= r.velocity.x < 10_000,
            r.velocity.y == 10_000,
            r.size == (Vec2 { x: 50_000, y: 50_000 }),
            r.cbox_size == (Vec2 { x: 45_000, y: 65_000 }),
            r.rotation == 0,
    {
        let tag = Self::random_type();
        let position = match position {
            Some(p) => p,
            None => Self::random_position(),
        };
        Bonus::new(tag, position, Self::random_velocity())
    }

    /// The label shown where this bonus is picked up.
    pub fn description(&self) -> (r: String)
        ensures
            r@ == label_of(self.tag),
    {
        self.tag.text()
    }

    /// Gives a score bonus to `p` at once; a timed bonus is returned as the
    /// mutation to add instead.
    pub fn apply(&self, p: &mut Player) -> (r: Option<Mutation>)
        ensures
            match effect_of(self.tag) {
                Effect::ScoreDelta(d) => r.is_none() && final(p).score == add_score(old(p).score, d),
                Effect::TimedMutation(m) => r == Some(m) && final(p).score == old(p).score,
            },
            final(p).position == old(p).position,
            final(p).velocity == old(p).velocity,
            final(p).mutations@ == old(p).mutations@,
            final(p).tag == old(p).tag,
            final(p).facing == old(p).facing,
            final(p).size == old(p).size,
            final(p).cbox_size == old(p).cbox_size,
            final(p).max_velocity == old(p).max_velocity,
            final(p).input_axis == old(p).input_axis,
            final(p).controls == old(p).controls,
            final(p).walk_time == old(p).walk_time,
    {
        match self.tag.effect() {
            Effect::ScoreDelta(d) => {
                p.score = saturating_score(p.score, d);
                None
            },
            Effect::TimedMutation(m) => Some(m),
        }
    }
}

} // verus!

verus! {

/// Vertical velocity after a bounce: reversed and cut to nine tenths.
pub open spec fn bounced(vy: int) -> int {
    (-9 * vy) / 10
}

impl Bonus {
    /// Velocity after one tick of `cfg`.
    pub open spec fn next_velocity(&self, cfg: SimConfig) -> Vec2 {
        if self.position.y > cfg.ground_y - BOUNCE_MARGIN {
            Vec2 { x: self.velocity.x, y: clamp_spec(self.velocity.y - cfg.dt / cfg.gravity) as i64 }
        } else {
            let vy = bounced(self.velocity.y as int);
            Vec2 { x: if vy < REST_SPEED { 0 } else { self.velocity.x }, y: vy as i64 }
        }
    }

    /// Position after one tick of `cfg`: mirrored past a side edge, then moved.
    pub open spec fn next_position(&self, cfg: SimConfig) -> Vec2 {
        let v = self.next_velocity(cfg);
        let x0 = if self.position.x > cfg.half_width || self.position.x < -cfg.half_width {
            -self.position.x
        } else {
            self.position.x as int
        };
        Vec2 {
            x: clamp_spec(x0 + v.x) as i64,
            y: clamp_spec(self.position.y + v.y) as i64,
        }
    }

    /// Rotation after one tick: spin proportional to the sideways velocity.
    pub open spec fn next_rotation(&self, cfg: SimConfig) -> int {
        clamp_spec(self.rotation + cfg.dt * 500 * self.velocity.x / SECOND as int)
    }

    /// The bonus after one tick of `cfg`.
    pub open spec fn next(&self, cfg: SimConfig) -> Bonus {
        Bonus {
            position: self.next_position(cfg),
            velocity: self.next_velocity(cfg),
            rotation: self.next_rotation(cfg) as i64,
            ..*self
        }
    }

    /// Moves the bonus by one tick: fall, inelastic bounce on the ground,
    /// mirror at the side edges, spin.
    pub fn update(&mut self, cfg: &SimConfig)
        requires
            old(self).wf(),
            cfg.wf(),
        ensures
            final(self).wf(),
            *final(self) == old(self).next(*cfg),
            final(self).velocity == old(self).next_velocity(*cfg),
            final(self).position == old(self).next_position(*cfg),
            final(self).rotation == old(self).next_rotation(*cfg),
            final(self).tag == old(self).tag,
            final(self).size == old(self).size,
            final(self).cbox_size == old(self).cbox_size,
    {
        assert(-500_000_000_000_000_000_000 <= cfg.dt * 500 * self.velocity.x <= 500_000_000_000_000_000_000) by (nonlinear_arith)
            requires
                0 < cfg.dt <= 1_000_000,
                -1_000_000_000_000 <= self.velocity.x <= 1_000_000_000_000,
        ;
        let spin = floor_div(cfg.dt as i128 * 500 * self.velocity.x as i128, SECOND as i128);
        proof {
            vstd::arithmetic::div_mod::lemma_div_is_ordered(
                cfg.dt * 500 * self.velocity.x,
                500_000_000_000_000_000_000,
                SECOND as int,
            );
            vstd::arithmetic::div_mod::lemma_div_is_ordered(
                -500_000_000_000_000_000_000,
                cfg.dt * 500 * self.velocity.x,
                SECOND as int,
            );
        }
        self.rotation = clamp_limit(self.rotation as i128 + spin);
        if self.position.y > cfg.ground_y - BOUNCE_MARGIN {
            self.velocity.y = clamp_limit(self.velocity.y as i128 - (cfg.dt / cfg.gravity) as i128);
        } else {
            let vy = floor_div(-9 * self.velocity.y as i128, 10);
            proof {
                vstd::arithmetic::div_mod::lemma_div_is_ordered(-9 * self.velocity.y, 9 * LIMIT, 10);
                vstd::arithmetic::div_mod::lemma_div_is_ordered(-9 * LIMIT, -9 * self.velocity.y, 10);
            }
            self.velocity.y = vy as i64;
            if self.velocity.y < REST_SPEED {
                self.velocity.x = 0;
            }
        }
        if self.position.x > cfg.half_width || self.position.x < -cfg.half_width {
            self.position.x = -self.position.x;
        }
        self.position.y = clamp_limit(self.position.y as i128 + self.velocity.y as i128);
        self.position.x = clamp_limit(self.position.x as i128 + self.velocity.x as i128);
    }
}

} // verus!
