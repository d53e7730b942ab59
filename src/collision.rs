use crate::bonus::{add_score, effect_of, Bonus, BonusType, Effect};
use crate::particles::{all_text_wf, BonusText};
use crate::geometry::{LIMIT, SECOND};
use crate::config::SimConfig;
use crate::geometry::{closer_than, is_closer_than, Vec2};
use crate::mutation::{all_wf, Mutation};
use crate::player::Player;
use crate::random::random_range;
use vstd::prelude::*;

verus! {

/// `a` is above `b` and moving down.
pub open spec fn falls_on(a: Player, b: Player) -> bool {
    a.position.y > b.position.y && a.velocity.y < 0
}

/// Collision radius of a player: the `x` of its effective collision size.
pub open spec fn radius(p: Player) -> int {
    p.effective_cbox().x as int
}

/// The kill between the players at indices 0 and 1, as (killer, victim):
/// exactly one of them must fall onto the other, and they must be closer
/// than the killer's collision radius.
pub open spec fn kill_of(p0: Player, p1: Player) -> Option<(usize, usize)> {
    if falls_on(p0, p1) && !falls_on(p1, p0) && closer_than(p0.position, p1.position, radius(p0)) {
        Some((0, 1))
    } else if falls_on(p1, p0) && !falls_on(p0, p1) && closer_than(p1.position, p0.position, radius(p1)) {
        Some((1, 0))
    } else {
        None
    }
}

/// The kill, if any, between two players.
pub fn find_kill(p0: &Player, p1: &Player) -> (r: Option<(usize, usize)>)
    requires
        p0.wf(),
        p1.wf(),
    ensures
        r == kill_of(*p0, *p1),
{
    let f01 = p0.position.y > p1.position.y && p0.velocity.y < 0;
    let f10 = p1.position.y > p0.position.y && p1.velocity.y < 0;
    if f01 && !f10 {
        let r0 = p0.cbox_size_mutated().x;
        if is_closer_than(p0.position, p1.position, r0) {
            return Some((0, 1));
        }
    }
    if f10 && !f01 {
        let r1 = p1.cbox_size_mutated().x;
        if is_closer_than(p1.position, p0.position, r1) {
            return Some((1, 0));
        }
    }
    None
}

/// Two players collide when exactly one falls onto the other within its
/// radius; when both or neither fall onto the other, nobody is killed.
pub proof fn lemma_kill_rule(p0: Player, p1: Player)
    ensures
        (falls_on(p0, p1) == falls_on(p1, p0)) ==> kill_of(p0, p1).is_none(),
        falls_on(p0, p1) && !falls_on(p1, p0) && closer_than(p0.position, p1.position, radius(p0))
            ==> kill_of(p0, p1) == Some((0usize, 1usize)),
        falls_on(p1, p0) && !falls_on(p0, p1) && closer_than(p1.position, p0.position, radius(p1))
            ==> kill_of(p0, p1) == Some((1usize, 0usize)),
{
}

/// `q` equals `p` but for score, velocity and position.
pub open spec fn same_but_motion_and_score(p: Player, q: Player) -> bool {
    &&& q.tag == p.tag
    &&& q.facing == p.facing
    &&& q.size == p.size
    &&& q.cbox_size == p.cbox_size
    &&& q.max_velocity == p.max_velocity
    &&& q.input_axis == p.input_axis
    &&& q.controls == p.controls
    &&& q.walk_time == p.walk_time
    &&& q.mutations@ == p.mutations@
}

pub open spec fn two_players(ps: Seq<Player>) -> bool {
    ps.len() == 2 && ps[0].wf() && ps[1].wf()
}

/// The outcome of a kill: the killer scores a point and bounces (its
/// vertical velocity reversed), the victim is moved to `respawn`.
pub open spec fn killed(old_ps: Seq<Player>, new_ps: Seq<Player>, killer: int, victim: int, respawn: Vec2) -> bool {
    let k = old_ps[killer];
    let v = old_ps[victim];
    let k2 = new_ps[killer];
    let v2 = new_ps[victim];
    &&& new_ps.len() == 2
    &&& same_but_motion_and_score(k, k2)
    &&& same_but_motion_and_score(v, v2)
    &&& k2.score == add_score(k.score, 1)
    &&& k2.velocity == (Vec2 { x: k.velocity.x, y: -k.velocity.y as i64 })
    &&& k2.position == k.position
    &&& v2.score == v.score
    &&& v2.velocity == v.velocity
    &&& v2.position == respawn
}

/// Applies a kill with the victim's new position given.
pub fn kill_at(players: &mut Vec<Player>, killer_index: usize, victim_index: usize, respawn: Vec2)
    requires
        two_players(old(players)@),
        killer_index < 2,
        victim_index < 2,
        killer_index != victim_index,
        respawn.bounded(),
    ensures
        two_players(final(players)@),
        killed(old(players)@, final(players)@, killer_index as int, victim_index as int, respawn),
{
    let s = players[killer_index].score;
    players[killer_index].score = crate::bonus::saturating_score(s, 1);
    let vy = players[killer_index].velocity.y;
    players[killer_index].velocity.y = -vy;
    players[victim_index].position = respawn;
}

/// A drawn spawn point on the ground, anywhere across the playfield.
pub fn random_position(cfg: &SimConfig) -> (r: Vec2)
    requires
        cfg.wf(),
    ensures
        -cfg.half_width <= r.x < cfg.half_width,
        r.y == cfg.ground_y,
{
    Vec2 { x: random_range(-cfg.half_width, cfg.half_width), y: cfg.ground_y }
}

/// Applies a kill, respawning the victim at a drawn point on the ground.
pub fn kill(players: &mut Vec<Player>, killer_index: usize, victim_index: usize, cfg: &SimConfig)
    requires
        two_players(old(players)@),
        killer_index < 2,
        victim_index < 2,
        killer_index != victim_index,
        cfg.wf(),
    ensures
        two_players(final(players)@),
        exists|respawn: Vec2|
            -cfg.half_width <= respawn.x < cfg.half_width && respawn.y == cfg.ground_y
                && killed(old(players)@, final(players)@, killer_index as int, victim_index as int, respawn),
{
    let respawn = random_position(cfg);
    kill_at(players, killer_index, victim_index, respawn);
}

} // verus!

verus! {

/// `b` lies strictly inside `p`'s collision radius.
pub open spec fn touches(p: Player, b: Bonus) -> bool {
    closer_than(p.position, b.position, radius(p))
}

/// The bonuses of `bs` that `p` touches, in order.
pub open spec fn picked(p: Player, bs: Seq<Bonus>) -> Seq<Bonus>
    decreases bs.len(),
{
    if bs.len() == 0 {
        bs
    } else if touches(p, bs.last()) {
        picked(p, bs.drop_last()).push(bs.last())
    } else {
        picked(p, bs.drop_last())
    }
}

/// The bonuses of `bs` that `p` does not touch, in order.
pub open spec fn left_over(p: Player, bs: Seq<Bonus>) -> Seq<Bonus>
    decreases bs.len(),
{
    if bs.len() == 0 {
        bs
    } else if touches(p, bs.last()) {
        left_over(p, bs.drop_last())
    } else {
        left_over(p, bs.drop_last()).push(bs.last())
    }
}

/// `score` after the score bonuses among `bs`, in order.
pub open spec fn score_after(score: u32, bs: Seq<Bonus>) -> u32
    decreases bs.len(),
{
    if bs.len() == 0 {
        score
    } else {
        let prev = score_after(score, bs.drop_last());
        match effect_of(bs.last().tag) {
            Effect::ScoreDelta(d) => add_score(prev, d),
            Effect::TimedMutation(_) => prev,
        }
    }
}

/// The mutations of the timed bonuses among `bs`, in order.
pub open spec fn mutations_from(bs: Seq<Bonus>) -> Seq<Mutation>
    decreases bs.len(),
{
    if bs.len() == 0 {
        Seq::empty()
    } else {
        let prev = mutations_from(bs.drop_last());
        match effect_of(bs.last().tag) {
            Effect::ScoreDelta(_) => prev,
            Effect::TimedMutation(m) => prev.push(m),
        }
    }
}

/// The floating label of each bonus of `bs`, at the bonus's position.
pub open spec fn labels_for(bs: Seq<Bonus>) -> Seq<BonusText> {
    bs.map_values(|b: Bonus| BonusText { tag: b.tag, position: b.position, cooldown: SECOND })
}

pub open spec fn all_bonus_wf(bs: Seq<Bonus>) -> bool {
    forall|i: int| 0 <= i < bs.len() ==> #[trigger] bs[i].wf()
}

pub proof fn lemma_effect_wf(t: BonusType)
    ensures
        effect_of(t) matches Effect::TimedMutation(m) ==> m.wf(),
{
}

pub proof fn lemma_left_over_wf(p: Player, bs: Seq<Bonus>)
    requires
        all_bonus_wf(bs),
    ensures
        all_bonus_wf(left_over(p, bs)),
    decreases bs.len(),
{
    if bs.len() > 0 {
        assert(all_bonus_wf(bs.drop_last())) by {
            assert forall|i: int| 0 <= i < bs.drop_last().len() implies #[trigger] bs.drop_last()[i].wf() by {
                assert(bs[i].wf());
            }
        }
        lemma_left_over_wf(p, bs.drop_last());
        assert(bs[bs.len() - 1].wf());
        let rest = left_over(p, bs.drop_last());
        assert forall|i: int| 0 <= i < rest.push(bs.last()).len() implies #[trigger] rest.push(bs.last())[i].wf() by {
            if i < rest.len() {
                assert(rest[i].wf());
            }
        }
    }
}

/// `q` is `p` after picking up the bonuses of `bs` in its reach: their
/// points added in order, their mutations appended in order.
pub open spec fn picks(p: Player, q: Player, bs: Seq<Bonus>) -> bool {
    let got = picked(p, bs);
    &&& q.score == score_after(p.score, got)
    &&& q.mutations@ == p.mutations@ + mutations_from(got)
    &&& q.position == p.position
    &&& q.velocity == p.velocity
    &&& q.tag == p.tag
    &&& q.facing == p.facing
    &&& q.size == p.size
    &&& q.cbox_size == p.cbox_size
    &&& q.max_velocity == p.max_velocity
    &&& q.input_axis == p.input_axis
    &&& q.controls == p.controls
    &&& q.walk_time == p.walk_time
}

/// Player `i` picks up every bonus inside its collision radius (the radius
/// taken before the pass): each is removed from `bonuses`, leaves a label in
/// `texts`, and gives its effect, points at once or a mutation appended to
/// the player's list. Returns the types picked up, in order.
pub fn pick_up(players: &mut Vec<Player>, i: usize, bonuses: &mut Vec<Bonus>, texts: &mut Vec<BonusText>) -> (r: Vec<BonusType>)
    requires
        two_players(old(players)@),
        i < 2,
        all_bonus_wf(old(bonuses)@),
    ensures
        two_players(final(players)@),
        picks(old(players)@[i as int], final(players)@[i as int], old(bonuses)@),
        final(bonuses)@ == left_over(old(players)@[i as int], old(bonuses)@),
        final(texts)@ == old(texts)@ + labels_for(picked(old(players)@[i as int], old(bonuses)@)),
        r@ == picked(old(players)@[i as int], old(bonuses)@).map_values(|b: Bonus| b.tag),
        all_text_wf(old(texts)@) ==> all_text_wf(final(texts)@),
        final(players)@[1 - i] == old(players)@[1 - i],
        all_bonus_wf(final(bonuses)@),
{
    let ghost p = players@[i as int];
    let ghost bs = bonuses@;
    let ghost t0 = texts@;
    let reach = players[i].cbox_size_mutated().x;
    let mut kept: Vec<Bonus> = Vec::new();
    let mut tags: Vec<BonusType> = Vec::new();
    let mut k: usize = 0;
    while k < bonuses.len()
        invariant
            bonuses@ == bs,
            all_bonus_wf(bs),
            k <= bs.len(),
            i < 2,
            reach == radius(p),
            0 <= reach <= LIMIT,
            p.wf(),
            players@.len() == 2,
            players@[1 - i] == old(players)@[1 - i],
            old(players)@[i as int] == p,
            two_players(players@),
            kept@ == left_over(p, bs.subrange(0, k as int)),
            texts@ == t0 + labels_for(picked(p, bs.subrange(0, k as int))),
            all_text_wf(t0) ==> all_text_wf(texts@),
            tags@ == picked(p, bs.subrange(0, k as int)).map_values(|b: Bonus| b.tag),
            ({
                let q = players@[i as int];
                let got = picked(p, bs.subrange(0, k as int));
                &&& q.score == score_after(p.score, got)
                &&& q.mutations@ == p.mutations@ + mutations_from(got)
                &&& q.position == p.position
                &&& q.velocity == p.velocity
                &&& q.tag == p.tag
                &&& q.facing == p.facing
                &&& q.size == p.size
                &&& q.cbox_size == p.cbox_size
                &&& q.max_velocity == p.max_velocity
                &&& q.input_axis == p.input_axis
                &&& q.controls == p.controls
                &&& q.walk_time == p.walk_time
            }),
        decreases bs.len() - k,
    {
        let b = bonuses[k];
        let ghost pre = bs.subrange(0, k as int);
        assert(bs.subrange(0, k as int + 1).drop_last() == pre);
        assert(bs.subrange(0, k as int + 1).last() == b);
        assert(bs[k as int].wf());
        if is_closer_than(players[i].position, b.position, reach) {
            let ghost got = picked(p, pre);
            let m = b.apply(&mut players[i]);
            match m {
                Some(m) => {
                    proof {
                        lemma_effect_wf(b.tag);
                    }
                    let ghost before = players@[i as int].mutations@;
                    assert(all_wf(before));
                    players[i].mutations.push(m);
                    assert(players@[i as int].mutations@ == before.push(m));
                    assert(all_wf(players@[i as int].mutations@)) by {
                        let ms = players@[i as int].mutations@;
                        assert forall|j: int| 0 <= j < ms.len() implies #[trigger] ms[j].wf() by {
                            if j < before.len() {
                                assert(before[j].wf());
                            }
                        }
                    }
                    assert(before.push(m) == p.mutations@ + mutations_from(got).push(m));
                },
                None => {},
            }
            let ghost tb = texts@;
            texts.push(BonusText::new(b.tag, b.position));
            assert(all_text_wf(t0) ==> all_text_wf(texts@)) by {
                if all_text_wf(t0) {
                    assert forall|j: int| 0 <= j < texts@.len() implies #[trigger] texts@[j].wf() by {
                        if j < tb.len() {
                            assert(tb[j].wf());
                        }
                    }
                }
            }
            tags.push(b.tag);
            proof {
                let got2 = picked(p, bs.subrange(0, k as int + 1));
                assert(got2 == got.push(b));
                assert(labels_for(got2) == labels_for(got).push(BonusText { tag: b.tag, position: b.position, cooldown: SECOND }));
                assert(got2.map_values(|b: Bonus| b.tag) == got.map_values(|b: Bonus| b.tag).push(b.tag));
                assert(got2.drop_last() == got);
                assert(got2.last() == b);
            }
        } else {
            kept.push(b);
        }
        k += 1;
    }
    assert(bs.subrange(0, bs.len() as int) == bs);
    proof {
        lemma_left_over_wf(p, bs);
    }
    *bonuses = kept;
    tags
}

} // verus!

verus! {

pub proof fn lemma_untouched(p: Player, bs: Seq<Bonus>)
    requires
        forall|i: int| 0 <= i < bs.len() ==> !touches(p, #[trigger] bs[i]),
    ensures
        picked(p, bs) == Seq::<Bonus>::empty(),
        left_over(p, bs) == bs,
    decreases bs.len(),
{
    if bs.len() > 0 {
        assert forall|i: int| 0 <= i < bs.drop_last().len() implies !touches(p, #[trigger] bs.drop_last()[i]) by {
            assert(bs[i] == bs.drop_last()[i]);
        }
        lemma_untouched(p, bs.drop_last());
        assert(!touches(p, bs[bs.len() - 1]));
        assert(bs.drop_last().push(bs.last()) == bs);
    }
}

/// Picking up a lone bonus: when `b` is the only bonus in reach of `p`, the
/// pass removes exactly `b`; a one-point bonus adds exactly one point and no
/// mutation, and a freeze bonus adds exactly the mutation with velocity
/// factors (0, 0) and leaves the score as it was.
pub proof fn lemma_single_pickup(p: Player, bs: Seq<Bonus>, b: Bonus)
    requires
        forall|i: int| 0 <= i < bs.len() ==> !touches(p, #[trigger] bs[i]),
        touches(p, b),
    ensures
        left_over(p, bs.push(b)) == bs,
        picked(p, bs.push(b)) == seq![b],
        b.tag == BonusType::GiveOnePoint && p.score < u32::MAX ==> score_after(p.score, seq![b]) == p.score + 1
            && mutations_from(seq![b]) == Seq::<Mutation>::empty(),
        b.tag == BonusType::Freeze ==> score_after(p.score, seq![b]) == p.score && mutations_from(seq![b])
            == seq![Mutation { duration: 2_000_000, size_factor: 1000, velocity_factor: Vec2 { x: 0, y: 0 }, active: true }],
{
    lemma_untouched(p, bs);
    assert(bs.push(b).drop_last() == bs);
    assert(seq![b].drop_last() == Seq::<Bonus>::empty());
    assert(seq![b].last() == b);
    assert(score_after(p.score, Seq::<Bonus>::empty()) == p.score);
    assert(mutations_from(Seq::<Bonus>::empty()) == Seq::<Mutation>::empty());
    assert(Seq::<Bonus>::empty().push(b) == seq![b]);
    assert(Seq::<Mutation>::empty().push(
        Mutation { duration: 2_000_000, size_factor: 1000, velocity_factor: Vec2 { x: 0, y: 0 }, active: true },
    ) == seq![Mutation { duration: 2_000_000, size_factor: 1000, velocity_factor: Vec2 { x: 0, y: 0 }, active: true }]);
}

} // verus!

verus! {

/// A kill gives exactly one point, to the killer, and moves exactly one
/// player, the victim, to its respawn point.
pub proof fn lemma_kill_scores(ps: Seq<Player>, qs: Seq<Player>, killer: int, victim: int, respawn: Vec2)
    requires
        ps.len() == 2,
        0 <= killer < 2,
        victim == 1 - killer,
        killed(ps, qs, killer, victim, respawn),
        ps[killer].score < u32::MAX,
    ensures
        qs[killer].score == ps[killer].score + 1,
        qs[victim].score == ps[victim].score,
        qs[killer].position == ps[killer].position,
        qs[victim].position == respawn,
{
}

} // verus!
