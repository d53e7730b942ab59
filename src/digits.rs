//! Exact products of non-negative integers held as base-1000 digit strings,
//! lowest digit first, so that a long product never overflows.
use crate::geometry::{clamp_spec, LIMIT};
use vstd::prelude::*;

verus! {

/// `1000` to the power `e`.
pub open spec fn p1000(e: nat) -> int
    decreases e,
{
    if e == 0 {
        1
    } else {
        1000 * p1000((e - 1) as nat)
    }
}

/// The number a digit string stands for.
pub open spec fn val(ds: Seq<u64>) -> int
    decreases ds.len(),
{
    if ds.len() == 0 {
        0
    } else {
        val(ds.drop_last()) + ds.last() * p1000((ds.len() - 1) as nat)
    }
}

/// Every digit is below 1000.
pub open spec fn digits_ok(ds: Seq<u64>) -> bool {
    forall|i: int| 0 <= i < ds.len() ==> #[trigger] ds[i] < 1000
}

pub proof fn lemma_p1000_pos(e: nat)
    ensures
        p1000(e) >= 1,
    decreases e,
{
    if e > 0 {
        lemma_p1000_pos((e - 1) as nat);
    }
}

pub proof fn lemma_p1000_small()
    ensures
        p1000(4) == 1_000_000_000_000,
        p1000(5) == 1_000_000_000_000_000,
{
    assert(p1000(0) == 1);
    assert(p1000(1) == 1000);
    assert(p1000(2) == 1_000_000);
    assert(p1000(3) == 1_000_000_000);
    assert(p1000(4) == 1_000_000_000_000);
    assert(p1000(5) == 1_000_000_000_000_000);
}

pub proof fn lemma_p1000_adds(a: nat, b: nat)
    ensures
        p1000(a + b) == p1000(a) * p1000(b),
    decreases b,
{
    if b > 0 {
        lemma_p1000_adds(a, (b - 1) as nat);
        assert(p1000(a + b) == 1000 * p1000((a + b - 1) as nat));
        assert(1000 * (p1000(a) * p1000((b - 1) as nat)) == p1000(a) * (1000 * p1000((b - 1) as nat))) by (nonlinear_arith);
    }
}

pub proof fn lemma_p1000_mono(a: nat, b: nat)
    requires
        a <= b,
    ensures
        p1000(a) <= p1000(b),
    decreases b,
{
    if a < b {
        lemma_p1000_mono(a, (b - 1) as nat);
        lemma_p1000_pos((b - 1) as nat);
    }
}

pub proof fn lemma_val_bound(ds: Seq<u64>)
    requires
        digits_ok(ds),
    ensures
        0 <= val(ds) < p1000(ds.len()),
    decreases ds.len(),
{
    if ds.len() > 0 {
        let dl = ds.drop_last();
        assert(digits_ok(dl)) by {
            assert forall|i: int| 0 <= i < dl.len() implies #[trigger] dl[i] < 1000 by {
                assert(ds[i] < 1000);
            }
        }
        lemma_val_bound(dl);
        assert(ds[ds.len() - 1] < 1000);
        let p = p1000((ds.len() - 1) as nat);
        lemma_p1000_pos((ds.len() - 1) as nat);
        assert(val(dl) + ds.last() * p < 1000 * p) by (nonlinear_arith)
            requires
                0 <= val(dl) < p,
                0 <= ds.last() < 1000,
        ;
        assert(0 <= ds.last() * p) by (nonlinear_arith)
            requires
                0 <= ds.last(),
                p >= 1,
        ;
    }
}

/// Splitting a digit string at `n`: the low digits, plus `1000^n` times the high ones.
pub proof fn lemma_val_split(ds: Seq<u64>, n: int)
    requires
        0 <= n <= ds.len(),
    ensures
        val(ds) == val(ds.subrange(0, n)) + p1000(n as nat) * val(ds.subrange(n, ds.len() as int)),
    decreases ds.len(),
{
    if ds.len() == n {
        assert(ds.subrange(0, n) == ds);
        assert(val(ds.subrange(n, ds.len() as int)) == 0);
    } else {
        let dl = ds.drop_last();
        lemma_val_split(dl, n);
        assert(dl.subrange(0, n) == ds.subrange(0, n));
        let hi = ds.subrange(n, ds.len() as int);
        assert(hi.drop_last() == dl.subrange(n, dl.len() as int));
        assert(hi.last() == ds.last());
        lemma_p1000_adds(n as nat, (ds.len() - 1 - n) as nat);
        assert((n + (ds.len() - 1 - n)) as nat == (ds.len() - 1) as nat);
        let a = val(dl.subrange(n, dl.len() as int));
        let pn = p1000(n as nat);
        let pr = p1000((ds.len() - 1 - n) as nat);
        assert(pn * (a + ds.last() * pr) == pn * a + ds.last() * (pn * pr)) by (nonlinear_arith);
    }
}

pub proof fn lemma_val_zeros(ds: Seq<u64>)
    requires
        forall|i: int| 0 <= i < ds.len() ==> #[trigger] ds[i] == 0,
    ensures
        val(ds) == 0,
    decreases ds.len(),
{
    if ds.len() > 0 {
        let dl = ds.drop_last();
        assert forall|i: int| 0 <= i < dl.len() implies #[trigger] dl[i] == 0 by {
            assert(ds[i] == 0);
        }
        lemma_val_zeros(dl);
        assert(ds[ds.len() - 1] == 0);
        let p = p1000((ds.len() - 1) as nat);
        assert(ds.last() * p == 0) by (nonlinear_arith)
            requires
                ds.last() == 0,
        ;
    }
}

/// A digit string is at least any one of its digits times its place value.
pub proof fn lemma_val_ge_digit(ds: Seq<u64>, j: int)
    requires
        digits_ok(ds),
        0 <= j < ds.len(),
    ensures
        val(ds) >= ds[j] * p1000(j as nat),
{
    lemma_val_split(ds, j);
    let hi = ds.subrange(j, ds.len() as int);
    lemma_val_split(hi, 1);
    let top = hi.subrange(1, hi.len() as int);
    assert(digits_ok(top)) by {
        assert forall|i: int| 0 <= i < top.len() implies #[trigger] top[i] < 1000 by {
            assert(top[i] == ds[j + 1 + i]);
        }
    }
    assert(digits_ok(ds.subrange(0, j))) by {
        assert forall|i: int| 0 <= i < j implies #[trigger] ds.subrange(0, j)[i] < 1000 by {
            assert(ds.subrange(0, j)[i] == ds[i]);
        }
    }
    lemma_val_bound(top);
    lemma_val_bound(ds.subrange(0, j));
    let one = hi.subrange(0, 1);
    assert(one.drop_last().len() == 0);
    assert(one.drop_last().len() == 0);
    assert(val(one.drop_last()) == 0);
    assert(one.last() == ds[j]);
    assert(p1000(0) == 1);
    assert(val(one) == ds[j]);
    lemma_p1000_pos(j as nat);
    let pj = p1000(j as nat);
    assert(pj * (ds[j] + 1000 * val(top)) >= ds[j] * pj) by (nonlinear_arith)
        requires
            pj >= 1,
            val(top) >= 0,
            ds[j] >= 0,
    ;
}

/// The digits of `v`.
pub fn to_digits(v: u64) -> (ds: Vec<u64>)
    ensures
        val(ds@) == v,
        digits_ok(ds@),
{
    let mut ds: Vec<u64> = Vec::new();
    let mut rem = v;
    while rem > 0
        invariant
            val(ds@) + rem * p1000(ds@.len()) == v,
            digits_ok(ds@),
        decreases rem,
    {
        let d = rem % 1000;
        let q = rem / 1000;
        proof {
            vstd::arithmetic::div_mod::lemma_fundamental_div_mod(rem as int, 1000);
            let p = p1000(ds@.len());
            assert(rem * p == d * p + q * (1000 * p)) by (nonlinear_arith)
                requires
                    rem == 1000 * q + d,
            ;
        }
        let ghost before = ds@;
        ds.push(d);
        assert(ds@.drop_last() == before);
        assert forall|i: int| 0 <= i < ds@.len() implies #[trigger] ds@[i] < 1000 by {
            if i < before.len() {
                assert(before[i] < 1000);
            }
        }
        rem = q;
    }
    ds
}

/// The digits of `f` times the number that `ds` stands for.
pub fn mul_digits(ds: &Vec<u64>, f: u64) -> (out: Vec<u64>)
    requires
        digits_ok(ds@),
        f <= 1_000_000,
    ensures
        val(out@) == f * val(ds@),
        digits_ok(out@),
{
    let mut out: Vec<u64> = Vec::new();
    let mut carry: u64 = 0;
    let mut i: usize = 0;
    while i < ds.len()
        invariant
            i <= ds.len(),
            out@.len() == i,
            digits_ok(ds@),
            digits_ok(out@),
            f <= 1_000_000,
            carry <= 1_000_000,
            val(out@) + carry * p1000(i as nat) == f * val(ds@.subrange(0, i as int)),
        decreases ds.len() - i,
    {
        let d = ds[i];
        assert(d < 1000);
        assert(d * f <= 999_000_000) by (nonlinear_arith)
            requires
                d < 1000,
                f <= 1_000_000,
        ;
        let t = d * f + carry;
        let digit = t % 1000;
        let c2 = t / 1000;
        proof {
            vstd::arithmetic::div_mod::lemma_fundamental_div_mod(t as int, 1000);
            let p = p1000(i as nat);
            let pre = ds@.subrange(0, i as int);
            let pre2 = ds@.subrange(0, i as int + 1);
            assert(pre2.drop_last() == pre);
            assert(pre2.last() == d);
            assert(f * val(pre2) == f * val(pre) + (d * f) * p) by (nonlinear_arith)
                requires
                    val(pre2) == val(pre) + d * p,
            ;
            assert(digit * p + c2 * (1000 * p) == t * p) by (nonlinear_arith)
                requires
                    t == 1000 * c2 + digit,
            ;
            assert(t * p == (d * f) * p + carry * p) by (nonlinear_arith)
                requires
                    t == d * f + carry,
            ;
        }
        let ghost before = out@;
        out.push(digit);
        assert(out@.drop_last() == before);
        assert forall|j: int| 0 <= j < out@.len() implies #[trigger] out@[j] < 1000 by {
            if j < before.len() {
                assert(before[j] < 1000);
            }
        }
        carry = c2;
        i += 1;
    }
    assert(ds@.subrange(0, ds.len() as int) == ds@);
    while carry > 0
        invariant
            digits_ok(out@),
            val(out@) + carry * p1000(out@.len()) == f * val(ds@),
        decreases carry,
    {
        let digit = carry % 1000;
        let c2 = carry / 1000;
        proof {
            vstd::arithmetic::div_mod::lemma_fundamental_div_mod(carry as int, 1000);
            let p = p1000(out@.len());
            assert(carry * p == digit * p + c2 * (1000 * p)) by (nonlinear_arith)
                requires
                    carry == 1000 * c2 + digit,
            ;
        }
        let ghost before = out@;
        out.push(digit);
        assert(out@.drop_last() == before);
        assert forall|j: int| 0 <= j < out@.len() implies #[trigger] out@[j] < 1000 by {
            if j < before.len() {
                assert(before[j] < 1000);
            }
        }
        carry = c2;
    }
    out
}

/// `val(ds) / 1000^n`, rounded down and saturated at `LIMIT`.
pub fn high_value(ds: &Vec<u64>, n: usize) -> (r: i64)
    requires
        digits_ok(ds@),
    ensures
        r == clamp_spec(val(ds@) / p1000(n as nat)),
        0 <= r <= LIMIT,
{
    proof {
        lemma_val_bound(ds@);
        lemma_p1000_pos(n as nat);
    }
    if n >= ds.len() {
        proof {
            lemma_p1000_mono(ds@.len(), n as nat);
            vstd::arithmetic::div_mod::lemma_fundamental_div_mod_converse(val(ds@), p1000(n as nat), 0, val(ds@));
        }
        return 0;
    }
    let ghost lo = ds@.subrange(0, n as int);
    let ghost hi = ds@.subrange(n as int, ds.len() as int);
    proof {
        lemma_val_split(ds@, n as int);
        assert(digits_ok(lo)) by {
            assert forall|i: int| 0 <= i < lo.len() implies #[trigger] lo[i] < 1000 by {
                assert(lo[i] == ds@[i]);
            }
        }
        assert(digits_ok(hi)) by {
            assert forall|i: int| 0 <= i < hi.len() implies #[trigger] hi[i] < 1000 by {
                assert(hi[i] == ds@[n + i]);
            }
        }
        lemma_val_bound(lo);
        lemma_val_bound(hi);
        assert(val(ds@) == val(hi) * p1000(n as nat) + val(lo)) by (nonlinear_arith)
            requires
                val(ds@) == val(lo) + p1000(n as nat) * val(hi),
        ;
        vstd::arithmetic::div_mod::lemma_fundamental_div_mod_converse(val(ds@), p1000(n as nat), val(hi), val(lo));
    }
    // digits at place 5 or above put the quotient past LIMIT = 1000^4
    let mut j: usize = 5;
    while j < ds.len() - n
        invariant
            5 <= j,
            n < ds.len(),
            j <= ds.len() - n || j == 5,
            hi == ds@.subrange(n as int, ds.len() as int),
            digits_ok(hi),
            val(ds@) / p1000(n as nat) == val(hi),
            forall|i: int| 5 <= i < j ==> #[trigger] hi[i] == 0,
        decreases ds.len() - n - j,
    {
        if ds[n + j] != 0 {
            proof {
                let k = j as int;
                assert(hi[k] == ds@[n + j]);
                lemma_val_ge_digit(hi, k);
                lemma_p1000_mono(5, k as nat);
                lemma_p1000_small();
                assert(hi[k] * p1000(k as nat) >= p1000(k as nat)) by (nonlinear_arith)
                    requires
                        hi[k] >= 1,
                        p1000(k as nat) >= 1,
                ;
                assert(val(hi) > LIMIT);
                assert(val(ds@) / p1000(n as nat) == val(hi));
            }
            return LIMIT;
        }
        j += 1;
    }
    let top: usize = if ds.len() - n < 5 {
        ds.len() - n
    } else {
        5
    };
    let mut acc: u64 = 0;
    let mut pw: u64 = 1;
    let mut i: usize = 0;
    while i < top
        invariant
            top <= 5,
            n + top <= ds.len(),
            i <= top,
            hi == ds@.subrange(n as int, ds.len() as int),
            digits_ok(hi),
            val(ds@) / p1000(n as nat) == val(hi),
            forall|i: int| 5 <= i < hi.len() ==> #[trigger] hi[i] == 0,
            pw == p1000(i as nat),
            acc == val(hi.subrange(0, i as int)),
            acc < pw,
        decreases top - i,
    {
        let d = ds[n + i];
        assert(d == hi[i as int]);
        proof {
            lemma_p1000_small();
            lemma_p1000_mono(i as nat, 4);
            let s2 = hi.subrange(0, i as int + 1);
            assert(s2.drop_last() == hi.subrange(0, i as int));
            assert(s2.last() == d);
        }
        assert(acc + d * pw < 1000 * pw) by (nonlinear_arith)
            requires
                acc < pw,
                d < 1000,
        ;
        acc = acc + d * pw;
        pw = pw * 1000;
        i += 1;
    }
    proof {
        lemma_val_split(hi, top as int);
        let rest = hi.subrange(top as int, hi.len() as int);
        assert forall|i: int| 0 <= i < rest.len() implies #[trigger] rest[i] == 0 by {
            assert(rest[i] == hi[top + i]);
        }
        lemma_val_zeros(rest);
    }
    if acc > LIMIT as u64 {
        LIMIT
    } else {
        acc as i64
    }
}

} // verus!
