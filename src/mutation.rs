use crate::digits::{digits_ok, high_value, lemma_p1000_pos, mul_digits, p1000, to_digits, val};
use crate::geometry::{clamp_spec, within, Vec2, LIMIT};
use vstd::prelude::*;

verus! {

/// Largest factor a mutation may carry (a thousandfold change).
pub const FACTOR_MAX: i64 = 1_000_000;

/// A timed modifier of a player's collision size and maximum velocity.
#[derive(Clone, Copy, Debug, PartialEq, Eq, Structural)]
pub struct Mutation {
    /// Remaining time, in microseconds.
    pub duration: i64,
    /// Collision size factor, in thousandths.
    pub size_factor: i64,
    /// Maximum velocity factors, in thousandths, one per axis.
    pub velocity_factor: Vec2,
    /// Only active mutations count down and take effect.
    pub active: bool,
}

pub open spec fn factor_ok(f: int) -> bool {
    0 <= f <= FACTOR_MAX
}

impl Mutation {
    pub open spec fn wf(self) -> bool {
        &&& within(self.duration as int, LIMIT as int)
        &&& factor_ok(self.size_factor as int)
        &&& factor_ok(self.velocity_factor.x as int)
        &&& factor_ok(self.velocity_factor.y as int)
    }
}

pub open spec fn all_wf(ms: Seq<Mutation>) -> bool {
    forall|i: int| 0 <= i < ms.len() ==> #[trigger] ms[i].wf()
}

/// Which factor of a mutation a fold reads.
#[derive(Clone, Copy, Debug, PartialEq, Eq, Structural)]
pub enum FactorKind {
    VelocityX,
    VelocityY,
    Size,
}

pub open spec fn pick(m: Mutation, k: FactorKind) -> int {
    match k {
        FactorKind::VelocityX => m.velocity_factor.x as int,
        FactorKind::VelocityY => m.velocity_factor.y as int,
        FactorKind::Size => m.size_factor as int,
    }
}

/// Number of active mutations.
pub open spec fn active_count(ms: Seq<Mutation>) -> nat
    decreases ms.len(),
{
    if ms.len() == 0 {
        0
    } else if ms.last().active {
        active_count(ms.drop_last()) + 1
    } else {
        active_count(ms.drop_last())
    }
}

/// Product of the selected factors (in thousandths) of the active mutations.
pub open spec fn factor_product(ms: Seq<Mutation>, k: FactorKind) -> int
    decreases ms.len(),
{
    if ms.len() == 0 {
        1
    } else if ms.last().active {
        factor_product(ms.drop_last(), k) * pick(ms.last(), k)
    } else {
        factor_product(ms.drop_last(), k)
    }
}

/// `v` times the product of the selected factors of the active mutations,
/// each factor read in thousandths: rounded down once, saturating at `LIMIT`.
pub open spec fn scaled(v: int, ms: Seq<Mutation>, k: FactorKind) -> int {
    clamp_spec(v * factor_product(ms, k) / p1000(active_count(ms)))
}

/// A non-negative `v` scaled by the selected factors of the active mutations.
pub fn fold_factors(v: i64, ms: &Vec<Mutation>, k: FactorKind) -> (r: i64)
    requires
        0 <= v <= LIMIT,
        all_wf(ms@),
    ensures
        r == scaled(v as int, ms@, k),
        0 <= r <= LIMIT,
{
    let mut ds = to_digits(v as u64);
    let mut n: usize = 0;
    let mut i: usize = 0;
    while i < ms.len()
        invariant
            i <= ms.len(),
            n <= i,
            all_wf(ms@),
            digits_ok(ds@),
            val(ds@) == v * factor_product(ms@.subrange(0, i as int), k),
            n == active_count(ms@.subrange(0, i as int)),
        decreases ms.len() - i,
    {
        let m = ms[i];
        let ghost pre = ms@.subrange(0, i as int);
        assert(ms@.subrange(0, i as int + 1).drop_last() == pre);
        assert(ms@.subrange(0, i as int + 1).last() == m);
        assert(m.wf());
        if m.active {
            let f = match k {
                FactorKind::VelocityX => m.velocity_factor.x,
                FactorKind::VelocityY => m.velocity_factor.y,
                FactorKind::Size => m.size_factor,
            };
            assert(f == pick(m, k));
            ds = mul_digits(&ds, f as u64);
            assert(f * (v * factor_product(pre, k)) == v * (factor_product(pre, k) * f)) by (nonlinear_arith);
            n += 1;
        }
        i += 1;
    }
    assert(ms@.subrange(0, ms.len() as int) == ms@);
    high_value(&ds, n)
}

} // verus!

verus! {

/// The mutations whose remaining time is still positive, in order.
pub open spec fn live(ms: Seq<Mutation>) -> Seq<Mutation>
    decreases ms.len(),
{
    if ms.len() == 0 {
        ms
    } else if ms.last().duration > 0 {
        live(ms.drop_last()).push(ms.last())
    } else {
        live(ms.drop_last())
    }
}

/// `m` after `dt` more microseconds: only an active mutation counts down.
pub open spec fn count_down(m: Mutation, dt: int) -> Mutation {
    if m.active {
        Mutation { duration: (m.duration - dt) as i64, ..m }
    } else {
        m
    }
}

pub open spec fn counted_down(ms: Seq<Mutation>, dt: int) -> Seq<Mutation> {
    ms.map_values(|m: Mutation| count_down(m, dt))
}

/// Every mutation has time left.
pub open spec fn all_live(ms: Seq<Mutation>) -> bool {
    forall|i: int| 0 <= i < ms.len() ==> (#[trigger] ms[i]).duration > 0
}

/// Every factor is in range and no remaining time is above `LIMIT`.
pub open spec fn all_bounded_above(ms: Seq<Mutation>) -> bool {
    forall|i: int|
        0 <= i < ms.len() ==> {
            let m = #[trigger] ms[i];
            &&& m.duration <= LIMIT
            &&& factor_ok(m.size_factor as int)
            &&& factor_ok(m.velocity_factor.x as int)
            &&& factor_ok(m.velocity_factor.y as int)
        }
}

pub proof fn lemma_live_facts(ms: Seq<Mutation>)
    ensures
        all_live(live(ms)),
        live(ms).len() <= ms.len(),
        all_wf(ms) ==> all_wf(live(ms)),
        all_bounded_above(ms) ==> all_wf(live(ms)),
    decreases ms.len(),
{
    if ms.len() > 0 {
        lemma_live_facts(ms.drop_last());
        if all_bounded_above(ms) {
            assert(all_bounded_above(ms.drop_last())) by {
                assert forall|i: int| 0 <= i < ms.drop_last().len() implies {
                    let m = #[trigger] ms.drop_last()[i];
                    &&& m.duration <= LIMIT
                    &&& factor_ok(m.size_factor as int)
                    &&& factor_ok(m.velocity_factor.x as int)
                    &&& factor_ok(m.velocity_factor.y as int)
                } by {
                    assert(ms[i] == ms.drop_last()[i]);
                }
            }
            assert(ms[ms.len() - 1] == ms.last());
        }
        if all_wf(ms) {
            assert(all_wf(ms.drop_last())) by {
                assert forall|i: int| 0 <= i < ms.drop_last().len() implies #[trigger] ms.drop_last()[i].wf() by {
                    assert(ms[i].wf());
                }
            }
            assert(ms.last().wf()) by {
                assert(ms[ms.len() - 1].wf());
            }
        }
    }
}

/// Removing expired mutations from a list where none has expired keeps it as it is.
pub proof fn lemma_live_of_clean(ms: Seq<Mutation>)
    requires
        all_live(ms),
    ensures
        live(ms) == ms,
    decreases ms.len(),
{
    if ms.len() > 0 {
        assert(all_live(ms.drop_last())) by {
            assert forall|i: int| 0 <= i < ms.drop_last().len() implies (#[trigger] ms.drop_last()[i]).duration > 0 by {
                assert(ms[i].duration > 0);
            }
        }
        lemma_live_of_clean(ms.drop_last());
        assert(ms[ms.len() - 1].duration > 0);
        assert(ms.drop_last().push(ms.last()) == ms);
    }
}

/// Removing expired mutations is idempotent: a second pass removes nothing.
pub proof fn lemma_remove_expired_idempotent(ms: Seq<Mutation>)
    ensures
        live(live(ms)) == live(ms),
{
    lemma_live_facts(ms);
    lemma_live_of_clean(live(ms));
}

/// Counts every active mutation down by `dt`, then removes the expired ones.
pub fn update_mutation_list(ms: &mut Vec<Mutation>, dt: i64)
    requires
        all_wf(old(ms)@),
        0 < dt <= 1_000_000,
    ensures
        final(ms)@ == live(counted_down(old(ms)@, dt as int)),
        all_wf(final(ms)@),
        all_live(final(ms)@),
{
    let ghost start = ms@;
    let mut i: usize = 0;
    while i < ms.len()
        invariant
            0 < dt <= 1_000_000,
            ms@.len() == start.len(),
            i <= ms@.len(),
            all_wf(start),
            forall|j: int| 0 <= j < i ==> ms@[j] == count_down(#[trigger] start[j], dt as int),
            forall|j: int| i <= j < ms@.len() ==> ms@[j] == #[trigger] start[j],
        decreases ms.len() - i,
    {
        let m = ms[i];
        assert(start[i as int].wf());
        if m.active {
            ms.set(i, Mutation { duration: m.duration - dt, ..m });
        }
        i += 1;
    }
    assert(ms@ == counted_down(start, dt as int));
    assert(all_bounded_above(ms@)) by {
        assert forall|j: int| 0 <= j < ms@.len() implies {
            let m = #[trigger] ms@[j];
            &&& m.duration <= LIMIT
            &&& factor_ok(m.size_factor as int)
            &&& factor_ok(m.velocity_factor.x as int)
            &&& factor_ok(m.velocity_factor.y as int)
        } by {
            assert(start[j].wf());
        }
    }
    proof {
        lemma_live_facts(ms@);
    }
    remove_expired(ms);
    proof {
        lemma_live_facts(counted_down(start, dt as int));
    }
}

/// Removes every mutation whose remaining time is not positive.
pub fn remove_expired(ms: &mut Vec<Mutation>)
    ensures
        final(ms)@ == live(old(ms)@),
{
    let mut kept: Vec<Mutation> = Vec::new();
    let mut i: usize = 0;
    while i < ms.len()
        invariant
            i <= ms.len(),
            kept@ == live(ms@.subrange(0, i as int)),
        decreases ms.len() - i,
    {
        let m = ms[i];
        assert(ms@.subrange(0, i as int + 1).drop_last() == ms@.subrange(0, i as int));
        if m.duration > 0 {
            kept.push(m);
        }
        i += 1;
    }
    assert(ms@.subrange(0, ms.len() as int) == ms@);
    *ms = kept;
}

} // verus!

verus! {

/// An active mutation with a zero factor zeroes the product, wherever it
/// stands in the list: a freeze halts input-driven movement.
pub proof fn lemma_zero_factor_freezes(v: int, ms: Seq<Mutation>, k: FactorKind, j: int)
    requires
        0 <= j < ms.len(),
        ms[j].active,
        pick(ms[j], k) == 0,
    ensures
        factor_product(ms, k) == 0,
        scaled(v, ms, k) == 0,
    decreases ms.len(),
{
    let init = ms.drop_last();
    if j < ms.len() - 1 {
        assert(init[j] == ms[j]);
        lemma_zero_factor_freezes(v, init, k, j);
        assert(factor_product(init, k) * pick(ms.last(), k) == 0) by (nonlinear_arith)
            requires
                factor_product(init, k) == 0,
        ;
    } else {
        assert(ms.last() == ms[j]);
        assert(factor_product(init, k) * 0 == 0);
    }
    lemma_p1000_pos(active_count(ms));
    assert(v * 0 == 0);
    vstd::arithmetic::div_mod::lemma_fundamental_div_mod_converse(0, p1000(active_count(ms)), 0, 0);
}

pub proof fn lemma_product_concat(a: Seq<Mutation>, b: Seq<Mutation>, k: FactorKind)
    ensures
        factor_product(a + b, k) == factor_product(a, k) * factor_product(b, k),
        active_count(a + b) == active_count(a) + active_count(b),
    decreases b.len(),
{
    if b.len() == 0 {
        assert(a + b == a);
    } else {
        lemma_product_concat(a, b.drop_last(), k);
        assert((a + b).drop_last() == a + b.drop_last());
        assert((a + b).last() == b.last());
        let pa = factor_product(a, k);
        let pb = factor_product(b.drop_last(), k);
        let f = pick(b.last(), k);
        assert(pa * pb * f == pa * (pb * f)) by (nonlinear_arith);
    }
}

/// Order does not matter: exchanging two neighbouring mutations (and so,
/// step by step, any reordering) leaves the product of the factors, the
/// number of active mutations and the scaled value as they were.
pub proof fn lemma_swap_keeps_product(v: int, ms: Seq<Mutation>, k: FactorKind, i: int)
    requires
        0 <= i,
        i + 1 < ms.len(),
    ensures
        ({
            let swapped = ms.update(i, ms[i + 1]).update(i + 1, ms[i]);
            &&& factor_product(swapped, k) == factor_product(ms, k)
            &&& active_count(swapped) == active_count(ms)
            &&& scaled(v, swapped, k) == scaled(v, ms, k)
        }),
{
    let swapped = ms.update(i, ms[i + 1]).update(i + 1, ms[i]);
    let a = ms.subrange(0, i);
    let c = ms.subrange(i + 2, ms.len() as int);
    let xy = seq![ms[i], ms[i + 1]];
    let yx = seq![ms[i + 1], ms[i]];
    assert(ms == a + xy + c);
    assert(swapped == a + yx + c);
    lemma_product_concat(a + xy, c, k);
    lemma_product_concat(a, xy, k);
    lemma_product_concat(a + yx, c, k);
    lemma_product_concat(a, yx, k);
    assert(xy.drop_last() == seq![ms[i]]);
    assert(yx.drop_last() == seq![ms[i + 1]]);
    assert(seq![ms[i]].drop_last() == Seq::<Mutation>::empty());
    assert(seq![ms[i + 1]].drop_last() == Seq::<Mutation>::empty());
    assert(seq![ms[i]].last() == ms[i]);
    assert(seq![ms[i + 1]].last() == ms[i + 1]);
    assert(xy.last() == ms[i + 1]);
    assert(yx.last() == ms[i]);
    assert(factor_product(Seq::<Mutation>::empty(), k) == 1);
    assert(active_count(Seq::<Mutation>::empty()) == 0);
    assert(active_count(seq![ms[i]]) == active_count(Seq::<Mutation>::empty()) + if ms[i].active { 1nat } else { 0nat });
    assert(active_count(seq![ms[i + 1]]) == active_count(Seq::<Mutation>::empty()) + if ms[i + 1].active { 1nat } else { 0nat });
    let fx = pick(ms[i], k);
    let fy = pick(ms[i + 1], k);
    assert(factor_product(xy, k) == factor_product(yx, k)) by {
        assert(factor_product(seq![ms[i]], k) == if ms[i].active { fx } else { 1 });
        assert(factor_product(seq![ms[i + 1]], k) == if ms[i + 1].active { fy } else { 1 });
        assert(fx * fy == fy * fx) by (nonlinear_arith);
    }
    assert(active_count(xy) == active_count(yx));
}

} // verus!
