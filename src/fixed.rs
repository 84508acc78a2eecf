//! Saturating fixed-point scalars: a raw `i64` value `v` stands for `v / SCALE`,
//! and every operation saturates at `±LIMIT`.
use vstd::prelude::*;

verus! {

/// Raw units per 1.0.
pub const SCALE: i64 = 1_000_000;

/// Largest magnitude a fixed-point result may take.
pub const LIMIT: i64 = 1_000_000_000_000;

/// Clamps an exact value into the representable range.
pub open spec fn sat(x: int) -> int {
    if x > LIMIT {
        LIMIT as int
    } else if x < -LIMIT {
        -LIMIT
    } else {
        x
    }
}

/// Floor of `x / SCALE` (spec `/` on `int` is Euclidean, which is the floor here).
pub open spec fn unscale(x: int) -> int {
    x / (SCALE as int)
}

pub open spec fn add_spec(a: int, b: int) -> int {
    sat(a + b)
}

pub open spec fn sub_spec(a: int, b: int) -> int {
    sat(a - b)
}

pub open spec fn mul_spec(a: int, b: int) -> int {
    sat(unscale(a * b))
}

/// `a / n` for a count `n`, rounded down.
pub open spec fn div_count_spec(a: int, n: int) -> int {
    sat(a / n)
}

pub fn clamp_wide(x: i128) -> (r: i64)
    ensures
        r == sat(x as int),
{
    if x > LIMIT as i128 {
        LIMIT
    } else if x < -(LIMIT as i128) {
        -LIMIT
    } else {
        x as i64
    }
}

/// Floor division of `p` by a positive `d`.
pub fn floor_div(p: i128, d: i128) -> (r: i128)
    requires
        d > 0,
        -0x4000_0000_0000_0000_0000_0000_0000_0000 <= p <= 0x4000_0000_0000_0000_0000_0000_0000_0000,
    ensures
        r == p as int / d as int,
{
    if p >= 0 {
        p / d
    } else {
        let q = (-p - 1) / d;
        proof {
            let pi = p as int;
            let di = d as int;
            let qi = q as int;
            assert((-pi - 1) == qi * di + (-pi - 1) % di) by (nonlinear_arith)
                requires qi == (-pi - 1) / di, di > 0;
            assert(0 <= (-pi - 1) % di < di) by (nonlinear_arith)
                requires di > 0;
            let rem = (-pi - 1) % di;
            assert(pi == (-qi - 1) * di + (di - 1 - rem)) by (nonlinear_arith)
                requires (-pi - 1) == qi * di + rem;
            vstd::arithmetic::div_mod::lemma_fundamental_div_mod_converse(pi, di, -qi - 1, di - 1 - rem);
        }
        -q - 1
    }
}

pub fn fx_add(a: i64, b: i64) -> (r: i64)
    ensures
        r == add_spec(a as int, b as int),
{
    clamp_wide(a as i128 + b as i128)
}

pub fn fx_sub(a: i64, b: i64) -> (r: i64)
    ensures
        r == sub_spec(a as int, b as int),
{
    clamp_wide(a as i128 - b as i128)
}

pub fn fx_mul(a: i64, b: i64) -> (r: i64)
    ensures
        r == mul_spec(a as int, b as int),
{
    assert(-0x4000_0000_0000_0000_0000_0000_0000_0000 <= a as int * b as int <= 0x4000_0000_0000_0000_0000_0000_0000_0000) by (nonlinear_arith)
        requires i64::MIN <= a <= i64::MAX, i64::MIN <= b <= i64::MAX;
    let p = a as i128 * b as i128;
    clamp_wide(floor_div(p, SCALE as i128))
}

pub fn div_count(a: i64, n: u32) -> (r: i64)
    requires
        n > 0,
    ensures
        r == div_count_spec(a as int, n as int),
{
    clamp_wide(floor_div(a as i128, n as i128))
}

/// `r` is the integer square root of `n`.
pub open spec fn is_root(n: int, r: int) -> bool {
    0 <= r && r * r <= n < (r + 1) * (r + 1)
}

/// The integer square root of a non-negative `n`.
pub open spec fn root(n: int) -> int {
    choose|r: int| is_root(n, r)
}

/// The integer square root is unique, so `root` names it.
pub proof fn lemma_root_unique(n: int, r: int)
    requires
        is_root(n, r),
    ensures
        root(n) == r,
{
    let s = root(n);
    assert(is_root(n, s));
    if s < r {
        assert((s + 1) * (s + 1) <= r * r) by (nonlinear_arith)
            requires 0 <= s < r;
    } else if r < s {
        assert((r + 1) * (r + 1) <= s * s) by (nonlinear_arith)
            requires 0 <= r < s;
    }
}

/// Largest value a square root is taken of.
pub const ROOT_BOUND: u128 = 0x10_0000_0000_0000_0000_0000;

/// Integer square root by bisection.
pub fn isqrt(n: u128) -> (r: u64)
    requires
        n < ROOT_BOUND,
    ensures
        r == root(n as int),
        is_root(n as int, r as int),
{
    let mut lo: u64 = 0;
    let mut hi: u64 = 0x400_0000_0000;
    assert(hi as int * hi as int > n) by (nonlinear_arith)
        requires hi == 0x400_0000_0000u64, n < ROOT_BOUND;
    while hi - lo > 1
        invariant
            lo < hi <= 0x400_0000_0000,
            lo as int * lo as int <= n,
            n < hi as int * hi as int,
        decreases hi - lo,
    {
        let mid: u64 = lo + (hi - lo) / 2;
        assert(mid as int * mid as int <= 0x400_0000_0000 * 0x400_0000_0000) by (nonlinear_arith)
            requires mid <= 0x400_0000_0000u64;
        if (mid as u128) * (mid as u128) <= n {
            lo = mid;
        } else {
            hi = mid;
        }
    }
    proof {
        assert(hi == lo + 1);
        lemma_root_unique(n as int, lo as int);
    }
    lo
}

/// Square root of a non-negative fixed-point value.
pub open spec fn sqrt_spec(x: int) -> int {
    root(x * SCALE)
}

pub fn fx_sqrt(x: i64) -> (r: i64)
    requires
        0 <= x <= LIMIT,
    ensures
        r == sqrt_spec(x as int),
        r >= 0,
{
    let w: u128 = x as u128 * SCALE as u128;
    let r = isqrt(w);
    proof {
        if r as int >= 0x400_0000_0000 {
            assert(r as int * r as int >= 0x400_0000_0000 * 0x400_0000_0000) by (nonlinear_arith)
                requires r as int >= 0x400_0000_0000;
        }
    }
    r as i64
}

/// Fixed-point quotient `a / b` for a positive `b`, rounded down.
pub open spec fn div_spec(a: int, b: int) -> int {
    sat(a * SCALE / b)
}

pub fn fx_div(a: i64, b: i64) -> (r: i64)
    requires
        b > 0,
    ensures
        r == div_spec(a as int, b as int),
{
    clamp_wide(floor_div(a as i128 * SCALE as i128, b as i128))
}

pub fn max(a: i64, b: i64) -> (r: i64)
    ensures
        r == if a >= b { a } else { b },
{
    if a >= b { a } else { b }
}

} // verus!
