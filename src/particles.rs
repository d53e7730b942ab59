use crate::bonus::{label_of, BonusType};
use crate::config::SimConfig;
use crate::geometry::{clamp_limit, clamp_spec, within, Vec2, LIMIT, SECOND};
use crate::random::random_range;
use vstd::prelude::*;

verus! {

/// Particles that fall to this height or lower are dropped.
pub const BLOOD_FLOOR: i64 = -500_000;

/// How many particles a kill sprays.
pub const BLOOD_COUNT: usize = 7;

/// A cosmetic particle sprayed by a kill.
#[derive(Clone, Copy, Debug, PartialEq, Eq, Structural)]
pub struct Blood {
    pub position: Vec2,
    pub size: Vec2,
    /// Displacement per tick.
    pub velocity: Vec2,
}

/// A floating label left where a bonus was picked up. Its text is `text()`.
#[derive(Clone, Copy, Debug, PartialEq, Eq, Structural)]
pub struct BonusText {
    pub tag: BonusType,
    pub position: Vec2,
    /// Time left on screen.
    pub cooldown: i64,
}

/// Per-tick gravity on a particle: 1.2 units per second squared over the
/// gravity divisor.
pub open spec fn blood_pull(cfg: SimConfig) -> int {
    cfg.dt * 12 / (10 * cfg.gravity)
}

impl Blood {
    pub open spec fn wf(&self) -> bool {
        self.position.bounded() && self.velocity.bounded()
    }

    pub open spec fn next(&self, cfg: SimConfig) -> Blood {
        let vy = clamp_spec(self.velocity.y - blood_pull(cfg));
        Blood {
            position: Vec2 {
                x: clamp_spec(self.position.x + self.velocity.x) as i64,
                y: clamp_spec(self.position.y + vy) as i64,
            },
            velocity: Vec2 { x: self.velocity.x, y: vy as i64 },
            size: self.size,
        }
    }

    /// One tick of ballistic motion.
    pub fn update(&mut self, cfg: &SimConfig)
        requires
            old(self).wf(),
            cfg.wf(),
        ensures
            *final(self) == old(self).next(*cfg),
            final(self).wf(),
    {
        let pull = cfg.dt * 12 / (10 * cfg.gravity);
        self.velocity.y = clamp_limit(self.velocity.y as i128 - pull as i128);
        self.position.x = clamp_limit(self.position.x as i128 + self.velocity.x as i128);
        self.position.y = clamp_limit(self.position.y as i128 + self.velocity.y as i128);
    }
}

/// A particle at `position` moving by `velocity`.
pub fn blood_particle(position: Vec2, velocity: Vec2) -> (r: Blood)
    ensures
        r == (Blood { position, size: Vec2 { x: 25_000, y: 25_000 }, velocity }),
{
    Blood { position, size: Vec2 { x: 25_000, y: 25_000 }, velocity }
}

/// A particle at `position` with a drawn velocity: sideways below 0.01
/// units per tick either way, upward below 0.025.
pub fn random_blood_particle(position: Vec2) -> (r: Blood)
    ensures
        r.position == position,
        r.size == (Vec2 { x: 25_000, y: 25_000 }),
        -10_000 <= r.velocity.x < 10_000,
        0 <= r.velocity.y < 25_000,
{
    let vx = random_range(-10_000, 10_000);
    let vy = random_range(0, 25_000);
    blood_particle(position, Vec2 { x: vx, y: vy })
}

pub open spec fn all_blood_wf(ps: Seq<Blood>) -> bool {
    forall|i: int| 0 <= i < ps.len() ==> #[trigger] ps[i].wf()
}

/// Every particle moved by a tick, keeping those still above `BLOOD_FLOOR`.
pub open spec fn blood_after(ps: Seq<Blood>, cfg: SimConfig) -> Seq<Blood>
    decreases ps.len(),
{
    if ps.len() == 0 {
        ps
    } else {
        let rest = blood_after(ps.drop_last(), cfg);
        let b = ps.last().next(cfg);
        if b.position.y > BLOOD_FLOOR {
            rest.push(b)
        } else {
            rest
        }
    }
}

pub proof fn lemma_blood_after_wf(ps: Seq<Blood>, cfg: SimConfig)
    requires
        all_blood_wf(ps),
    ensures
        all_blood_wf(blood_after(ps, cfg)),
    decreases ps.len(),
{
    if ps.len() > 0 {
        assert(all_blood_wf(ps.drop_last())) by {
            assert forall|i: int| 0 <= i < ps.drop_last().len() implies #[trigger] ps.drop_last()[i].wf() by {
                assert(ps[i].wf());
            }
        }
        lemma_blood_after_wf(ps.drop_last(), cfg);
        assert(ps[ps.len() - 1].wf());
        let rest = blood_after(ps.drop_last(), cfg);
        let b = ps.last().next(cfg);
        assert(b.wf());
        assert forall|i: int| 0 <= i < rest.push(b).len() implies #[trigger] rest.push(b)[i].wf() by {
            if i < rest.len() {
                assert(rest[i].wf());
            }
        }
    }
}

/// Moves every particle by one tick and drops those that fell out of view.
pub fn update_blood(ps: &mut Vec<Blood>, cfg: &SimConfig)
    requires
        all_blood_wf(old(ps)@),
        cfg.wf(),
    ensures
        final(ps)@ == blood_after(old(ps)@, *cfg),
        all_blood_wf(final(ps)@),
{
    let mut kept: Vec<Blood> = Vec::new();
    let mut i: usize = 0;
    while i < ps.len()
        invariant
            i <= ps.len(),
            cfg.wf(),
            all_blood_wf(ps@),
            kept@ == blood_after(ps@.subrange(0, i as int), *cfg),
        decreases ps.len() - i,
    {
        let mut b = ps[i];
        assert(ps@.subrange(0, i as int + 1).drop_last() == ps@.subrange(0, i as int));
        assert(ps@[i as int].wf());
        b.update(cfg);
        if b.position.y > BLOOD_FLOOR {
            kept.push(b);
        }
        i += 1;
    }
    assert(ps@.subrange(0, ps.len() as int) == ps@);
    proof {
        lemma_blood_after_wf(ps@, *cfg);
    }
    *ps = kept;
}

impl BonusText {
    pub open spec fn wf(&self) -> bool {
        self.position.bounded() && within(self.cooldown as int, LIMIT as int)
    }

    /// A label for a bonus of type `tag` picked up at `position`, shown for a second.
    pub fn new(tag: BonusType, position: Vec2) -> (r: BonusText)
        ensures
            r == (BonusText { tag, position, cooldown: SECOND }),
    {
        BonusText { tag, position, cooldown: SECOND }
    }

    pub fn text(&self) -> (r: String)
        ensures
            r@ == label_of(self.tag),
    {
        self.tag.text()
    }

    /// Rises by 0.1 units per second while its time runs out.
    pub open spec fn next(&self, cfg: SimConfig) -> BonusText {
        BonusText {
            tag: self.tag,
            position: Vec2 { x: self.position.x, y: clamp_spec(self.position.y + cfg.dt / 10) as i64 },
            cooldown: clamp_spec(self.cooldown - cfg.dt) as i64,
        }
    }
}

pub open spec fn all_text_wf(ts: Seq<BonusText>) -> bool {
    forall|i: int| 0 <= i < ts.len() ==> #[trigger] ts[i].wf()
}

/// Every label moved by a tick, keeping those with time left.
pub open spec fn texts_after(ts: Seq<BonusText>, cfg: SimConfig) -> Seq<BonusText>
    decreases ts.len(),
{
    if ts.len() == 0 {
        ts
    } else {
        let rest = texts_after(ts.drop_last(), cfg);
        let t = ts.last().next(cfg);
        if t.cooldown > 0 {
            rest.push(t)
        } else {
            rest
        }
    }
}

pub proof fn lemma_texts_after_wf(ts: Seq<BonusText>, cfg: SimConfig)
    requires
        all_text_wf(ts),
    ensures
        all_text_wf(texts_after(ts, cfg)),
    decreases ts.len(),
{
    if ts.len() > 0 {
        assert(all_text_wf(ts.drop_last())) by {
            assert forall|i: int| 0 <= i < ts.drop_last().len() implies #[trigger] ts.drop_last()[i].wf() by {
                assert(ts[i].wf());
            }
        }
        lemma_texts_after_wf(ts.drop_last(), cfg);
        assert(ts[ts.len() - 1].wf());
        let rest = texts_after(ts.drop_last(), cfg);
        let t = ts.last().next(cfg);
        assert(t.wf());
        assert forall|i: int| 0 <= i < rest.push(t).len() implies #[trigger] rest.push(t)[i].wf() by {
            if i < rest.len() {
                assert(rest[i].wf());
            }
        }
    }
}

/// Moves every label by one tick and drops those whose time ran out.
pub fn update_texts(ts: &mut Vec<BonusText>, cfg: &SimConfig)
    requires
        all_text_wf(old(ts)@),
        cfg.wf(),
    ensures
        final(ts)@ == texts_after(old(ts)@, *cfg),
        all_text_wf(final(ts)@),
{
    let mut kept: Vec<BonusText> = Vec::new();
    let mut i: usize = 0;
    while i < ts.len()
        invariant
            i <= ts.len(),
            cfg.wf(),
            all_text_wf(ts@),
            kept@ == texts_after(ts@.subrange(0, i as int), *cfg),
        decreases ts.len() - i,
    {
        let t = ts[i];
        assert(ts@.subrange(0, i as int + 1).drop_last() == ts@.subrange(0, i as int));
        assert(ts@[i as int].wf());
        let moved = BonusText {
            tag: t.tag,
            position: Vec2 { x: t.position.x, y: clamp_limit(t.position.y as i128 + (cfg.dt / 10) as i128) },
            cooldown: clamp_limit(t.cooldown as i128 - cfg.dt as i128),
        };
        if moved.cooldown > 0 {
            kept.push(moved);
        }
        i += 1;
    }
    assert(ts@.subrange(0, ts.len() as int) == ts@);
    proof {
        lemma_texts_after_wf(ts@, *cfg);
    }
    *ts = kept;
}

} // verus!
