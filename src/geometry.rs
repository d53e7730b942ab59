use vstd::prelude::*;

verus! {

/// One world unit, in the integer length unit of the library.
pub const UNIT: i64 = 1_000_000;

/// One second, in the integer time unit of the library (microseconds).
pub const SECOND: i64 = 1_000_000;

/// Largest magnitude a coordinate or a velocity component may take.
pub const LIMIT: i64 = 1_000_000_000_000;

/// A 2D vector of fixed-point components.
#[derive(Clone, Copy, Debug, PartialEq, Eq, Structural)]
pub struct Vec2 {
    pub x: i64,
    pub y: i64,
}

pub open spec fn within(v: int, lim: int) -> bool {
    -lim <= v <= lim
}

impl Vec2 {
    pub open spec fn bounded(self) -> bool {
        within(self.x as int, LIMIT as int) && within(self.y as int, LIMIT as int)
    }

    pub fn new(x: i64, y: i64) -> (r: Vec2)
        ensures
            r.x == x,
            r.y == y,
    {
        Vec2 { x, y }
    }
}

/// `v` forced into `[-LIMIT, LIMIT]`.
pub open spec fn clamp_spec(v: int) -> int {
    if v > LIMIT {
        LIMIT as int
    } else if v < -LIMIT {
        -LIMIT
    } else {
        v
    }
}

pub fn clamp_limit(v: i128) -> (r: i64)
    ensures
        r == clamp_spec(v as int),
{
    if v > LIMIT as i128 {
        LIMIT
    } else if v < -(LIMIT as i128) {
        -LIMIT
    } else {
        v as i64
    }
}

/// Squared Euclidean distance between two points.
pub open spec fn dist2(a: Vec2, b: Vec2) -> int {
    (a.x - b.x) * (a.x - b.x) + (a.y - b.y) * (a.y - b.y)
}

/// Whether `a` and `b` are strictly closer than `radius`.
pub open spec fn closer_than(a: Vec2, b: Vec2, radius: int) -> bool {
    radius > 0 && dist2(a, b) < radius * radius
}

pub fn is_closer_than(a: Vec2, b: Vec2, radius: i64) -> (r: bool)
    requires
        a.bounded(),
        b.bounded(),
        within(radius as int, LIMIT as int),
    ensures
        r == closer_than(a, b, radius as int),
{
    if radius <= 0 {
        return false;
    }
    let dx: i128 = a.x as i128 - b.x as i128;
    let dy: i128 = a.y as i128 - b.y as i128;
    let r: i128 = radius as i128;
    assert(0 <= dx * dx <= 4_000_000_000_000_000_000_000_000) by (nonlinear_arith)
        requires
            -2_000_000_000_000 <= dx <= 2_000_000_000_000,
    ;
    assert(0 <= dy * dy <= 4_000_000_000_000_000_000_000_000) by (nonlinear_arith)
        requires
            -2_000_000_000_000 <= dy <= 2_000_000_000_000,
    ;
    assert(0 <= r * r <= 1_000_000_000_000_000_000_000_000) by (nonlinear_arith)
        requires
            0 < r <= 1_000_000_000_000,
    ;
    dx * dx + dy * dy < r * r
}

} // verus!

verus! {

/// Floor division by a positive divisor (the spec `/` on `int`).
pub fn floor_div(n: i128, d: i128) -> (q: i128)
    requires
        0 < d,
        within(n as int, 1_000_000_000_000_000_000_000_000_000_000),
    ensures
        q == n as int / d as int,
{
    if n >= 0 {
        (n as u128 / d as u128) as i128
    } else {
        let m: u128 = (-n) as u128;
        let du: u128 = d as u128;
        let t: u128 = (m + du - 1) / du;
        proof {
            vstd::arithmetic::div_mod::lemma_fundamental_div_mod((m + du - 1) as int, du as int);
            let rem = (m + du - 1) as int % du as int;
            assert(0 <= rem < du);
            assert((m + du - 1) as int == du * t + rem);
            assert(t <= m) by (nonlinear_arith)
                requires
                    (m + du - 1) as int == du * t + rem,
                    0 <= rem,
                    1 <= du,
                    0 < m,
            ;
            assert(0 <= du * t - m < du && n == -(t as int) * d + (du * t - m)) by (nonlinear_arith)
                requires
                    (m + du - 1) as int == du * t + rem,
                    0 <= rem < du,
                    du == d,
                    m == -n,
            ;
            vstd::arithmetic::div_mod::lemma_fundamental_div_mod_converse(
                n as int,
                d as int,
                -(t as int),
                du * t - m,
            );
        }
        -(t as i128)
    }
}

} // verus!

verus! {

/// Division by a positive divisor rounding toward zero, as Rust's integer
/// division and float-to-integer casts round.
pub open spec fn trunc_div(n: int, d: int) -> int {
    if n >= 0 {
        n / d
    } else {
        -((-n) / d)
    }
}

pub fn trunc_div_of(n: i128, d: i128) -> (q: i128)
    requires
        0 < d,
        within(n as int, 1_000_000_000_000_000_000_000_000_000_000),
    ensures
        q == trunc_div(n as int, d as int),
{
    let m: u128 = if n >= 0 {
        n as u128
    } else {
        (-n) as u128
    };
    let t: u128 = m / (d as u128);
    proof {
        vstd::arithmetic::div_mod::lemma_fundamental_div_mod(m as int, d as int);
        vstd::arithmetic::div_mod::lemma_div_pos_is_pos(m as int, d as int);
        assert(t <= m) by (nonlinear_arith)
            requires
                m == d * t + (m as int) % (d as int),
                0 <= (m as int) % (d as int),
                1 <= d,
                0 <= t,
        ;
    }
    if n >= 0 {
        t as i128
    } else {
        -(t as i128)
    }
}

} // verus!
