//! Milli-unit fixed point: every length, speed and time value in the game
//! is an `i64` count of thousandths of a unit (or of a second).

use vstd::prelude::*;

verus! {

/// Fixed-point steps per whole unit, and milliseconds per second.
pub const MILLI: i64 = 1000;

/// A 2-D position, velocity or direction in milli-units.
#[derive(Clone, Copy, Debug, PartialEq, Eq)]
pub struct Vec2i {
    pub x: i64,
    pub y: i64,
}

/// Builds a vector from its two milli-unit coordinates.
pub fn vec2(x: i64, y: i64) -> (v: Vec2i)
    ensures
        v.x == x,
        v.y == y,
{
    Vec2i { x, y }
}

/// Magnitude of a mathematical integer.
pub open spec fn mag(a: int) -> int {
    if a >= 0 {
        a
    } else {
        -a
    }
}

/// Truncating (round-toward-zero) signed division: the semantics of the
/// executable division used throughout the physics code.
pub open spec fn tdiv(a: int, b: int) -> int
    recommends
        b >= 1,
{
    if a >= 0 {
        a / b
    } else {
        -((-a) / b)
    }
}

/// Magnitude of a signed machine word, as an unsigned one.
pub fn abs_u64(a: i64) -> (r: u64)
    requires
        a != i64::MIN,
    ensures
        r as int == mag(a as int),
{
    if a >= 0 {
        a as u64
    } else {
        (-a) as u64
    }
}

/// `r` is the integer square root of `n`: the greatest value whose
/// square does not exceed `n`.
pub open spec fn is_sqrt(n: int, r: int) -> bool {
    0 <= r && r * r <= n && n < (r + 1) * (r + 1)
}

/// Integer square root: the greatest `r` whose square does not exceed `n`.
pub fn isqrt(n: u64) -> (r: u64)
    ensures
        is_sqrt(n as int, r as int),
{
    let mut lo: u64 = 0;
    let mut hi: u64 = 0xFFFF_FFFF;
    proof {
        assert((n as int) < (0xFFFF_FFFFi64 as int + 1) * (0xFFFF_FFFFi64 as int + 1))
            by (nonlinear_arith);
    }
    while lo < hi
        invariant
            lo <= hi <= 0xFFFF_FFFF,
            (lo as int) * (lo as int) <= n as int,
            (n as int) < ((hi as int) + 1) * ((hi as int) + 1),
        decreases hi - lo,
    {
        let mid = lo + (hi - lo + 1) / 2;
        assert(lo < mid <= hi);
        assert((mid as int) * (mid as int) <= (0xFFFF_FFFFu64 as int) * (0xFFFF_FFFFu64 as int))
            by (nonlinear_arith)
            requires
                0 <= mid <= 0xFFFF_FFFFu64,
        ;
        assert((0xFFFF_FFFFu64 as int) * (0xFFFF_FFFFu64 as int) <= u64::MAX as int);
        if mid * mid <= n {
            lo = mid;
        } else {
            hi = mid - 1;
            proof {
                assert((n as int) < ((hi as int) + 1) * ((hi as int) + 1));
            }
        }
    }
    lo
}

/// `a * b / d`, the product exact, the quotient truncated toward zero.
pub fn mul_div_trunc(a: i64, b: u64, d: u64) -> (r: i64)
    requires
        d >= 1,
        a != i64::MIN,
        mag(a as int) * (b as int) <= i64::MAX as int,
    ensures
        r as int == tdiv((a as int) * (b as int), d as int),
        mag(r as int) <= mag(a as int) * (b as int),
{
    let m = abs_u64(a);
    proof {
        assert((m as int) * (b as int) == mag((a as int) * (b as int))) by (nonlinear_arith)
            requires
                m as int == mag(a as int),
        ;
    }
    let p = m * b;
    let q = p / d;
    proof {
        assert(q as int <= p as int) by (nonlinear_arith)
            requires
                d >= 1,
                q as int == (p as int) / (d as int),
                p >= 0,
        ;
    }
    if a >= 0 {
        proof {
            assert((a as int) * (b as int) >= 0) by (nonlinear_arith)
                requires
                    a >= 0,
                    b >= 0,
            ;
        }
        q as i64
    } else {
        proof {
            assert((a as int) * (b as int) <= 0) by (nonlinear_arith)
                requires
                    a < 0,
                    b >= 0,
            ;
        }
        -(q as i64)
    }
}

/// Integer square roots are unique: two roots of the same value agree.
pub proof fn lemma_is_sqrt_unique(n: int, r1: int, r2: int)
    requires
        is_sqrt(n, r1),
        is_sqrt(n, r2),
    ensures
        r1 == r2,
{
    assert(r1 <= r2 && r2 <= r1) by (nonlinear_arith)
        requires
            r1 * r1 <= n,
            n < (r1 + 1) * (r1 + 1),
            r2 * r2 <= n,
            n < (r2 + 1) * (r2 + 1),
            r1 >= 0,
            r2 >= 0,
    ;
}

/// Quotients shrink: if `mag(a) <= b * c` then `a / b` is at most `c` in
/// magnitude. Used to show the steering clamp never lengthens a step.
pub proof fn lemma_tdiv_bound(a: int, b: int, c: int)
    requires
        b >= 1,
        c >= 0,
        mag(a) <= b * c,
    ensures
        mag(tdiv(a, b)) <= c,
{
    if a >= 0 {
        assert(a / b <= c) by (nonlinear_arith)
            requires
                b >= 1,
                0 <= a <= b * c,
        ;
        assert(a / b >= 0) by (nonlinear_arith)
            requires
                b >= 1,
                a >= 0,
        ;
    } else {
        assert((-a) / b <= c) by (nonlinear_arith)
            requires
                b >= 1,
                0 <= -a <= b * c,
        ;
        assert((-a) / b >= 0) by (nonlinear_arith)
            requires
                b >= 1,
                -a >= 0,
        ;
    }
}

} // verus!
