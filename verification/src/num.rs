//! Integer helpers shared by the simulation: truncating division, clamping,
//! and a verified integer square root.

use vstd::arithmetic::div_mod::{lemma_div_nonincreasing, lemma_div_pos_is_pos};
use vstd::prelude::*;

verus! {

/// Division of `n` by a positive `d` that rounds toward zero, the rounding
/// that hardware division of signed integers performs.
pub open spec fn tdiv(n: int, d: int) -> int
    recommends
        d > 0,
{
    if n >= 0 {
        n / d
    } else {
        -((-n) / d)
    }
}

/// `v` pushed into the closed interval `[lo, hi]`.
pub open spec fn clamp_spec(v: int, lo: int, hi: int) -> int
    recommends
        lo <= hi,
{
    if v < lo {
        lo
    } else if v > hi {
        hi
    } else {
        v
    }
}

/// Truncating division is an odd function of the dividend.
pub proof fn lemma_tdiv_neg(n: int, d: int)
    requires
        d > 0,
    ensures
        tdiv(-n, d) == -tdiv(n, d),
{
}

/// The quotient of a truncating division never exceeds the dividend in
/// magnitude, and keeps its sign.
pub proof fn lemma_tdiv_bound(n: int, d: int)
    requires
        d > 0,
    ensures
        n >= 0 ==> 0 <= tdiv(n, d) <= n,
        n < 0 ==> n <= tdiv(n, d) <= 0,
{
    if n >= 0 {
        lemma_div_pos_is_pos(n, d);
        lemma_div_nonincreasing(n, d);
    } else {
        lemma_div_pos_is_pos(-n, d);
        lemma_div_nonincreasing(-n, d);
    }
}

/// Clamping into an interval that is symmetric around zero is an odd function.
pub proof fn lemma_clamp_neg(v: int, b: int)
    requires
        b >= 0,
    ensures
        clamp_spec(-v, -b, b) == -clamp_spec(v, -b, b),
{
}

/// Truncating division of a signed value by a positive divisor.
pub fn tdiv_i128(n: i128, d: i128) -> (r: i128)
    requires
        d > 0,
        n > i128::MIN,
    ensures
        r == tdiv(n as int, d as int),
{
    proof {
        lemma_tdiv_bound(n as int, d as int);
    }
    if n >= 0 {
        ((n as u128) / (d as u128)) as i128
    } else {
        let m: u128 = (-n) as u128;
        -((m / (d as u128)) as i128)
    }
}

/// Clamps a wide intermediate value back into an `i64` interval.
pub fn clamp_i128(v: i128, lo: i64, hi: i64) -> (r: i64)
    requires
        lo <= hi,
    ensures
        r as int == clamp_spec(v as int, lo as int, hi as int),
{
    if v < lo as i128 {
        lo
    } else if v > hi as i128 {
        hi
    } else {
        v as i64
    }
}

/// Clamps a value into an `i64` interval.
pub fn clamp_i64(v: i64, lo: i64, hi: i64) -> (r: i64)
    requires
        lo <= hi,
    ensures
        r as int == clamp_spec(v as int, lo as int, hi as int),
{
    if v < lo {
        lo
    } else if v > hi {
        hi
    } else {
        v
    }
}

/// Floor of the square root of `x`: the spec walks up from zero, raising the
/// root by one whenever the next square still fits under `x`.
pub open spec fn sqf(x: nat) -> nat
    decreases x,
{
    if x == 0 {
        0
    } else {
        let p = sqf((x - 1) as nat);
        if (p + 1) * (p + 1) <= x {
            p + 1
        } else {
            p
        }
    }
}

/// `sqf(x)` is the floor of the square root: its square fits under `x` and
/// the next square does not.
pub proof fn lemma_sqf_bounds(x: nat)
    ensures
        sqf(x) * sqf(x) <= x,
        x < (sqf(x) + 1) * (sqf(x) + 1),
    decreases x,
{
    if x > 0 {
        lemma_sqf_bounds((x - 1) as nat);
        let p = sqf((x - 1) as nat);
        assert(sqf(x) == if (p + 1) * (p + 1) <= x {
            (p + 1) as nat
        } else {
            p
        });
        let s = sqf(x);
        if (p + 1) * (p + 1) <= x {
            assert(s == p + 1);
            assert(x == (p + 1) * (p + 1));
            assert(s * s <= x) by (nonlinear_arith)
                requires
                    s == p + 1,
                    (p + 1) * (p + 1) <= x,
            ;
            assert(x < (s + 1) * (s + 1)) by (nonlinear_arith)
                requires
                    x == (p + 1) * (p + 1),
                    s == p + 1,
                    p >= 0,
            ;
        } else {
            assert(s == p);
            assert(s * s <= x) by (nonlinear_arith)
                requires
                    s == p,
                    p * p <= x,
            ;
            assert(x < (s + 1) * (s + 1)) by (nonlinear_arith)
                requires
                    s == p,
                    x < (p + 1) * (p + 1),
            ;
        }
    } else {
        assert(x == 0);
        assert(sqf(x) == 0);
        assert(sqf(x) * sqf(x) <= x) by (nonlinear_arith)
            requires
                sqf(x) == 0,
                x == 0,
        ;
        assert(x < (sqf(x) + 1) * (sqf(x) + 1)) by (nonlinear_arith)
            requires
                sqf(x) == 0,
                x == 0,
        ;
    }
}

/// Any root whose square fits under `x` while the next square does not is
/// `sqf(x)`.
pub proof fn lemma_sqf_unique(x: nat, r: nat)
    requires
        r * r <= x,
        x < (r + 1) * (r + 1),
    ensures
        r == sqf(x),
{
    lemma_sqf_bounds(x);
    let s = sqf(x);
    if r < s {
        assert((r + 1) * (r + 1) <= s * s) by (nonlinear_arith)
            requires
                r + 1 <= s,
        ;
        assert(false);
    }
    if s < r {
        assert((s + 1) * (s + 1) <= r * r) by (nonlinear_arith)
            requires
                s + 1 <= r,
        ;
        assert(false);
    }
}

/// Integer square root by binary search on the root.
pub fn isqrt_u64(x: u64) -> (r: u64)
    ensures
        r == sqf(x as nat),
{
    let mut lo: u64 = 0;
    let mut hi: u64 = 0x1_0000_0000;
    while lo + 1 < hi
        invariant
            lo < hi,
            hi <= 0x1_0000_0000,
            (lo as int) * (lo as int) <= x as int,
            (x as int) < (hi as int) * (hi as int),
        decreases hi - lo,
    {
        let mid: u64 = lo + (hi - lo) / 2;
        assert((mid as int) * (mid as int) <= 0xffff_ffff * 0xffff_ffff) by (nonlinear_arith)
            requires
                mid <= 0xffff_ffff,
        ;
        if mid * mid <= x {
            lo = mid;
        } else {
            hi = mid;
        }
    }
    proof {
        lemma_sqf_unique(x as nat, lo as nat);
    }
    lo
}

} // verus!
