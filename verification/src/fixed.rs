//! Saturating fixed-point scalars.
//!
//! A scalar stores `value * SCALE` in an `i64`. `i64::MAX` and `i64::MIN`
//! serve as positive and negative infinity: every operation clamps its exact
//! result into the representable range, so arithmetic is total — no overflow
//! and no panics — while finite results of in-range operations are exact up
//! to the fixed quantum. Comparisons on scalars are plain integer
//! comparisons, which agree with the numeric order, infinities included.

use vstd::prelude::*;

verus! {

/// Number of fixed-point steps per unit: 2^24.
pub const SCALE: i64 = 16777216;

/// The scalar standing for positive infinity.
pub const Q_INF: i64 = i64::MAX;

/// The scalar standing for negative infinity.
pub const Q_NEG_INF: i64 = i64::MIN;

/// Clamps an unbounded integer into the `i64` range.
pub open spec fn clamp_i64(x: int) -> int {
    if x > i64::MAX as int {
        i64::MAX as int
    } else if x < i64::MIN as int {
        i64::MIN as int
    } else {
        x
    }
}

pub open spec fn spec_q_add(a: i64, b: i64) -> i64 {
    clamp_i64(a as int + b as int) as i64
}

pub open spec fn spec_q_sub(a: i64, b: i64) -> i64 {
    clamp_i64(a as int - b as int) as i64
}

pub open spec fn spec_q_mul(a: i64, b: i64) -> i64 {
    clamp_i64((a as int * b as int) / (SCALE as int)) as i64
}

/// Division of scalars. A zero divisor yields the infinity of the dividend's
/// sign (and zero for zero over zero); otherwise the exact quotient is
/// rescaled, rounded toward negative infinity and clamped.
pub open spec fn spec_q_div(n: i64, d: i64) -> i64 {
    if d == 0 {
        if n > 0 {
            i64::MAX
        } else if n < 0 {
            i64::MIN
        } else {
            0
        }
    } else if d > 0 {
        clamp_i64((n as int * SCALE as int) / (d as int)) as i64
    } else {
        clamp_i64((-(n as int) * (SCALE as int)) / (-(d as int))) as i64
    }
}

proof fn lemma_i64_product_fits(a: int, b: int)
    by (nonlinear_arith)
    requires
        -0x8000_0000_0000_0000 <= a <= 0x7FFF_FFFF_FFFF_FFFF,
        -0x8000_0000_0000_0000 <= b <= 0x7FFF_FFFF_FFFF_FFFF,
    ensures
        -0x4000_0000_0000_0000_0000_0000_0000_0000 <= a * b
            <= 0x4000_0000_0000_0000_0000_0000_0000_0000,
{
}

fn clamp128(x: i128) -> (r: i64)
    ensures
        r as int == clamp_i64(x as int),
{
    if x > i64::MAX as i128 {
        i64::MAX
    } else if x < i64::MIN as i128 {
        i64::MIN
    } else {
        x as i64
    }
}

/// Quotient rounded toward negative infinity, matching `int` division by a
/// positive divisor.
fn floor_div_128(n: i128, d: i128) -> (r: i128)
    requires
        d > 0,
        i128::MIN < n,
    ensures
        r == (n as int) / (d as int),
{
    if n >= 0 {
        let q: u128 = (n as u128) / (d as u128);
        proof {
            vstd::arithmetic::div_mod::lemma_div_nonincreasing(n as int, d as int);
            vstd::arithmetic::div_mod::lemma_div_pos_is_pos(n as int, d as int);
        }
        q as i128
    } else {
        let nu: u128 = (-n) as u128;
        let du: u128 = d as u128;
        let q: u128 = nu / du;
        let m: u128 = nu % du;
        proof {
            vstd::arithmetic::div_mod::lemma_fundamental_div_mod(nu as int, du as int);
            vstd::arithmetic::div_mod::lemma_div_nonincreasing(nu as int, du as int);
            vstd::arithmetic::div_mod::lemma_div_pos_is_pos(nu as int, du as int);
            if m == 0 {
                assert(n as int == (-(q as int)) * (d as int) + 0) by (nonlinear_arith)
                    requires
                        nu as int == (du as int) * (q as int) + (m as int),
                        m as int == 0,
                        n as int == -(nu as int),
                        du as int == d as int,
                ;
                vstd::arithmetic::div_mod::lemma_fundamental_div_mod_converse(
                    n as int, d as int, -(q as int), 0);
            } else {
                assert(n as int == (-(q as int) - 1) * (d as int) + (d as int - m as int))
                    by (nonlinear_arith)
                    requires
                        nu as int == (du as int) * (q as int) + (m as int),
                        n as int == -(nu as int),
                        du as int == d as int,
                ;
                vstd::arithmetic::div_mod::lemma_fundamental_div_mod_converse(
                    n as int, d as int, -(q as int) - 1, d as int - m as int);
            }
        }
        let qi: i128 = q as i128;
        if m == 0 {
            -qi
        } else {
            -qi - 1
        }
    }
}

#[verifier::when_used_as_spec(spec_q_add)]
pub fn q_add(a: i64, b: i64) -> (r: i64)
    ensures
        r == spec_q_add(a, b),
{
    clamp128(a as i128 + b as i128)
}

#[verifier::when_used_as_spec(spec_q_sub)]
pub fn q_sub(a: i64, b: i64) -> (r: i64)
    ensures
        r == spec_q_sub(a, b),
{
    clamp128(a as i128 - b as i128)
}

#[verifier::when_used_as_spec(spec_q_mul)]
pub fn q_mul(a: i64, b: i64) -> (r: i64)
    ensures
        r == spec_q_mul(a, b),
{
    proof {
        lemma_i64_product_fits(a as int, b as int);
    }
    let p: i128 = (a as i128) * (b as i128);
    clamp128(floor_div_128(p, SCALE as i128))
}

#[verifier::when_used_as_spec(spec_q_div)]
pub fn q_div(n: i64, d: i64) -> (r: i64)
    ensures
        r == spec_q_div(n, d),
{
    if d == 0 {
        if n > 0 {
            Q_INF
        } else if n < 0 {
            Q_NEG_INF
        } else {
            0
        }
    } else {
        proof {
            lemma_i64_product_fits(n as int, SCALE as int);
        }
        let num: i128 = (n as i128) * (SCALE as i128);
        let den: i128 = d as i128;
        if den < 0 {
            clamp128(floor_div_128(-num, -den))
        } else {
            clamp128(floor_div_128(num, den))
        }
    }
}

/// The scalar for a small whole number, saturating far out of range.
pub open spec fn spec_q_from(i: i64) -> i64 {
    clamp_i64(i as int * SCALE as int) as i64
}

#[verifier::when_used_as_spec(spec_q_from)]
pub fn q_from(i: i64) -> (r: i64)
    ensures
        r == spec_q_from(i),
{
    proof {
        lemma_i64_product_fits(i as int, SCALE as int);
    }
    clamp128((i as i128) * (SCALE as i128))
}

/// The whole-number floor of a scalar, as a plain integer.
pub open spec fn spec_q_floor(x: i64) -> i64 {
    ((x as int) / (SCALE as int)) as i64
}

#[verifier::when_used_as_spec(spec_q_floor)]
pub fn q_floor(x: i64) -> (r: i64)
    ensures
        r == spec_q_floor(x),
{
    proof {
        vstd::arithmetic::div_mod::lemma_fundamental_div_mod(x as int, SCALE as int);
        let q = (x as int) / (SCALE as int);
        let m = (x as int) % (SCALE as int);
        assert(-0x10_0000_0000_0000 <= q <= 0x10_0000_0000_0000) by (nonlinear_arith)
            requires
                x as int == (SCALE as int) * q + m,
                0 <= m < SCALE as int,
                SCALE as int == 16777216,
                -0x8000_0000_0000_0000 <= x as int <= 0x7FFF_FFFF_FFFF_FFFF,
        ;
    }
    floor_div_128(x as i128, SCALE as i128) as i64
}

pub open spec fn spec_q_min(a: i64, b: i64) -> i64 {
    if a <= b {
        a
    } else {
        b
    }
}

#[verifier::when_used_as_spec(spec_q_min)]
pub fn q_min(a: i64, b: i64) -> (r: i64)
    ensures
        r == spec_q_min(a, b),
{
    if a <= b {
        a
    } else {
        b
    }
}

pub open spec fn spec_q_max(a: i64, b: i64) -> i64 {
    if a >= b {
        a
    } else {
        b
    }
}

#[verifier::when_used_as_spec(spec_q_max)]
pub fn q_max(a: i64, b: i64) -> (r: i64)
    ensures
        r == spec_q_max(a, b),
{
    if a >= b {
        a
    } else {
        b
    }
}

/// Absolute value; the saturating negation keeps it total.
pub open spec fn spec_q_abs(a: i64) -> i64 {
    if a >= 0 {
        a
    } else {
        spec_q_sub(0, a)
    }
}

#[verifier::when_used_as_spec(spec_q_abs)]
pub fn q_abs(a: i64) -> (r: i64)
    ensures
        r == spec_q_abs(a),
        r >= 0,
{
    if a >= 0 {
        a
    } else {
        q_sub(0, a)
    }
}

/// Clamping keeps order.
proof fn lemma_clamp_monotone(x: int, y: int)
    requires
        x <= y,
    ensures
        clamp_i64(x) <= clamp_i64(y),
{
}

/// The saturating difference is monotone in its first argument.
pub proof fn lemma_q_sub_monotone(a1: i64, a2: i64, b: i64)
    requires
        a1 <= a2,
    ensures
        spec_q_sub(a1, b) <= spec_q_sub(a2, b),
{
}

/// Division by a fixed divisor keeps the order of the dividends: increasing
/// for a positive or zero divisor, decreasing for a negative one.
pub proof fn lemma_q_div_monotone(n1: i64, n2: i64, d: i64)
    requires
        n1 <= n2,
    ensures
        d >= 0 ==> spec_q_div(n1, d) <= spec_q_div(n2, d),
        d < 0 ==> spec_q_div(n2, d) <= spec_q_div(n1, d),
{
    if d > 0 {
        assert(n1 as int * SCALE as int <= n2 as int * SCALE as int) by (nonlinear_arith)
            requires
                n1 as int <= n2 as int,
                SCALE as int > 0,
        ;
        vstd::arithmetic::div_mod::lemma_div_is_ordered(
            n1 as int * SCALE as int,
            n2 as int * SCALE as int,
            d as int,
        );
        lemma_clamp_monotone(
            (n1 as int * SCALE as int) / (d as int),
            (n2 as int * SCALE as int) / (d as int),
        );
    } else if d < 0 {
        assert(-(n2 as int) * SCALE as int <= -(n1 as int) * SCALE as int) by (nonlinear_arith)
            requires
                n1 as int <= n2 as int,
                SCALE as int > 0,
        ;
        vstd::arithmetic::div_mod::lemma_div_is_ordered(
            -(n2 as int) * (SCALE as int),
            -(n1 as int) * (SCALE as int),
            -(d as int),
        );
        lemma_clamp_monotone(
            (-(n2 as int) * (SCALE as int)) / (-(d as int)),
            (-(n1 as int) * (SCALE as int)) / (-(d as int)),
        );
    }
}

/// The square root of a scalar is never negative.
pub proof fn lemma_q_sqrt_nonneg(x: i64)
    ensures
        spec_q_sqrt(x) >= 0,
{
    if x > 0 {
        let n = (x as int * SCALE as int) as nat;
        assert(x as int * SCALE as int <= 0x80_0000_0000_0000_0000_0000) by (nonlinear_arith)
            requires
                0 < x as int <= 0x7FFF_FFFF_FFFF_FFFF,
                SCALE as int == 16777216,
        ;
        lemma_isqrt_bounds(n);
        let r = isqrt_spec(n);
        assert(r < 0x1_0000_0000_0000) by (nonlinear_arith)
            requires
                r * r <= n,
                n <= 0x80_0000_0000_0000_0000_0000,
        ;
    }
}

/// Addition of non-negative scalars stays non-negative.
pub proof fn lemma_q_add_nonneg(a: i64, b: i64)
    requires
        a >= 0,
        b >= 0,
    ensures
        spec_q_add(a, b) >= 0,
{
}

/// Multiplication of non-negative scalars stays non-negative.
pub proof fn lemma_q_mul_nonneg(a: i64, b: i64)
    requires
        a >= 0,
        b >= 0,
    ensures
        spec_q_mul(a, b) >= 0,
{
    assert(a as int * b as int >= 0) by (nonlinear_arith)
        requires
            a as int >= 0,
            b as int >= 0,
    ;
    vstd::arithmetic::div_mod::lemma_div_pos_is_pos(a as int * b as int, SCALE as int);
}

/// The scalar for a non-negative whole number is non-negative.
pub proof fn lemma_q_from_nonneg(i: i64)
    requires
        i >= 0,
    ensures
        spec_q_from(i) >= 0,
{
    assert(i as int * SCALE as int >= 0) by (nonlinear_arith)
        requires
            i as int >= 0,
            SCALE as int > 0,
    ;
}

/// The square of any scalar is non-negative.
pub proof fn lemma_q_square_nonneg(a: i64)
    ensures
        spec_q_mul(a, a) >= 0,
{
    assert(a as int * a as int >= 0) by (nonlinear_arith);
    vstd::arithmetic::div_mod::lemma_div_pos_is_pos(a as int * a as int, SCALE as int);
}

/// Division of a non-negative scalar by a non-negative scalar stays
/// non-negative.
pub proof fn lemma_q_div_nonneg(n: i64, d: i64)
    requires
        n >= 0,
        d >= 0,
    ensures
        spec_q_div(n, d) >= 0,
{
    if d > 0 {
        assert(n as int * SCALE as int >= 0) by (nonlinear_arith)
            requires
                n as int >= 0,
                SCALE as int > 0,
        ;
        vstd::arithmetic::div_mod::lemma_div_pos_is_pos(n as int * SCALE as int, d as int);
    }
}

/// Integer square root, by unfolding: the largest `r` with `r * r <= n`.
pub open spec fn isqrt_spec(n: nat) -> nat
    decreases n,
{
    if n == 0 {
        0
    } else {
        let p = isqrt_spec((n - 1) as nat);
        if (p + 1) * (p + 1) <= n {
            p + 1
        } else {
            p
        }
    }
}

pub proof fn lemma_isqrt_bounds(n: nat)
    ensures
        isqrt_spec(n) * isqrt_spec(n) <= n,
        n < (isqrt_spec(n) + 1) * (isqrt_spec(n) + 1),
    decreases n,
{
    if n > 0 {
        lemma_isqrt_bounds((n - 1) as nat);
        let p = isqrt_spec((n - 1) as nat);
        if (p + 1) * (p + 1) <= n {
            assert(isqrt_spec(n) == p + 1);
            assert(n < (p + 2) * (p + 2)) by (nonlinear_arith)
                requires
                    n >= 1,
                    n - 1 < (p + 1) * (p + 1),
            ;
        } else {
            assert(isqrt_spec(n) == p);
        }
    } else {
        assert(isqrt_spec(n) == 0);
        assert(n < (isqrt_spec(n) + 1) * (isqrt_spec(n) + 1)) by (nonlinear_arith)
            requires
                n == 0,
                isqrt_spec(n) == 0,
        ;
    }
}

pub proof fn lemma_isqrt_unique(n: nat, r: nat)
    requires
        r * r <= n,
        n < (r + 1) * (r + 1),
    ensures
        r == isqrt_spec(n),
{
    lemma_isqrt_bounds(n);
    let s = isqrt_spec(n);
    assert(r == s) by (nonlinear_arith)
        requires
            r * r <= n,
            n < (r + 1) * (r + 1),
            s * s <= n,
            n < (s + 1) * (s + 1),
    ;
}

const ISQRT_INPUT_BOUND: u128 = 0x4000_0000_0000_0000_0000_0000_0000_0000;

/// Binary-search integer square root.
fn isqrt_u128(n: u128) -> (r: u128)
    requires
        n < ISQRT_INPUT_BOUND,
    ensures
        r as nat == isqrt_spec(n as nat),
        r * r <= n,
{
    let mut lo: u128 = 0;
    let mut hi: u128 = 0x8000_0000_0000_0000;
    assert(0x8000_0000_0000_0000u128 * 0x8000_0000_0000_0000u128
        == 0x4000_0000_0000_0000_0000_0000_0000_0000u128) by (nonlinear_arith);
    while lo + 1 < hi
        invariant
            lo < hi,
            hi <= 0x8000_0000_0000_0000,
            lo * lo <= n,
            n < hi * hi,
        decreases hi - lo,
    {
        let mid: u128 = lo + (hi - lo) / 2;
        proof {
            assert(mid * mid <= 0x4000_0000_0000_0000_0000_0000_0000_0000u128)
                by (nonlinear_arith)
                requires
                    mid <= 0x8000_0000_0000_0000u128,
            ;
        }
        if mid * mid <= n {
            lo = mid;
        } else {
            hi = mid;
        }
    }
    proof {
        lemma_isqrt_unique(n as nat, lo as nat);
    }
    lo
}

/// Square root of a scalar; non-positive inputs yield zero. The result is the
/// fixed-point floor of the exact root.
pub open spec fn spec_q_sqrt(x: i64) -> i64 {
    if x <= 0 {
        0
    } else {
        isqrt_spec((x as int * SCALE as int) as nat) as i64
    }
}

#[verifier::when_used_as_spec(spec_q_sqrt)]
pub fn q_sqrt(x: i64) -> (r: i64)
    ensures
        r == spec_q_sqrt(x),
        r >= 0,
{
    if x <= 0 {
        0
    } else {
        proof {
            assert((x as int) * (SCALE as int)
                < 0x4000_0000_0000_0000_0000_0000_0000_0000) by (nonlinear_arith)
                requires
                    0 < x as int <= 0x7FFF_FFFF_FFFF_FFFF,
                    SCALE as int == 16777216,
            ;
        }
        let n: u128 = (x as u128) * (SCALE as u128);
        let v = isqrt_u128(n);
        proof {
            assert(v < 0x8000_0000_0000_0000u128) by (nonlinear_arith)
                requires
                    v * v < 0x4000_0000_0000_0000_0000_0000_0000_0000u128,
            ;
        }
        v as i64
    }
}

} // verus!
