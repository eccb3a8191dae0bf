//! Fixed-point cosine.
//!
//! Angles and cosine values are held in units of `10^-12` (one full unit is
//! [`FIXED_ONE`]).  The cosine of an angle is evaluated by reducing the
//! angle's magnitude into `[0, pi]` (the cosine is even and `2*pi`-periodic)
//! and then summing an alternating truncated Taylor series in integer
//! arithmetic.  The spec function [`cos_fixed`] pins the result down exactly.

use vstd::arithmetic::div_mod::{
    lemma_div_is_ordered, lemma_div_is_ordered_by_denominator, lemma_div_of0,
    lemma_div_pos_is_pos, lemma_mod_division_less_than_divisor, lemma_small_mod,
};
use vstd::arithmetic::mul::{
    lemma_mul_by_zero_is_zero, lemma_mul_nonnegative, lemma_mul_upper_bound,
};
use vstd::math::abs;
use vstd::prelude::*;

verus! {

/// One full unit of the fixed-point angle/cosine representation (`10^12`).
pub const FIXED_ONE: i64 = 1_000_000_000_000;

/// `pi` in fixed-point units, rounded down.
pub const PI_FIXED: i64 = 3_141_592_653_589;

/// `2 * pi` in fixed-point units, rounded down.
pub const TWO_PI_FIXED: i64 = 6_283_185_307_179;

/// Every value of [`cos_fixed`] lies within `[-COS_BOUND, COS_BOUND]`.
pub const COS_BOUND: i64 = 61 * FIXED_ONE;

/// Reduces an angle to `[0, PI_FIXED + 1]` using the evenness and
/// `2*pi`-periodicity of the cosine: `cos(x) = cos(|x| mod 2*pi)` and
/// `cos(2*pi - r) = cos(r)`.
pub open spec fn reduce_angle(x: int) -> int {
    let r = (abs(x) as int) % (TWO_PI_FIXED as int);
    if r > PI_FIXED as int {
        TWO_PI_FIXED - r
    } else {
        r
    }
}

/// The `k`-th Taylor term `x^(2k) / (2k)!` rendered in fixed point over the
/// squared reduced angle `y`: each term is the previous one times
/// `y / ((2k-1) * 2k)`, with the scale kept at `FIXED_ONE`; the literal
/// divisor factor is `FIXED_ONE^2 == 10^24`.
pub open spec fn cos_term(y: int, k: nat) -> int
    decreases k,
{
    if k == 0 {
        FIXED_ONE as int
    } else {
        cos_term(y, (k - 1) as nat) * y / ((2 * k - 1) * (2 * k)
            * 1_000_000_000_000_000_000_000_000)
    }
}

/// The alternating partial sum of the first `k + 1` Taylor terms.
pub open spec fn cos_partial(y: int, k: nat) -> int
    decreases k,
{
    if k == 0 {
        FIXED_ONE as int
    } else if k % 2 == 1 {
        cos_partial(y, (k - 1) as nat) - cos_term(y, k)
    } else {
        cos_partial(y, (k - 1) as nat) + cos_term(y, k)
    }
}

/// The fixed-point cosine of `x` (an angle in units of `10^-12`): twelve
/// Taylor rounds beyond the constant term.
pub open spec fn cos_fixed(x: int) -> int {
    let r = reduce_angle(x);
    cos_partial(r * r, 12)
}

/// The reduced angle always lies in `[0, PI_FIXED + 1]`.
proof fn lemma_reduce_angle_range(x: int)
    ensures
        0 <= reduce_angle(x) <= PI_FIXED + 1,
{
    lemma_mod_division_less_than_divisor(abs(x) as int, TWO_PI_FIXED as int);
}

/// Bounds on the factorial-style factor `(2k-1) * 2k` of the Taylor divisor.
proof fn lemma_taylor_factor_bounds(k: nat)
    requires
        1 <= k,
    ensures
        2 <= (2 * k - 1) * (2 * k),
        k >= 2 ==> 12 <= (2 * k - 1) * (2 * k),
        k <= 12 ==> (2 * k - 1) * (2 * k) <= 600,
{
    assert(2 <= (2 * k - 1) * (2 * k)) by (nonlinear_arith)
        requires
            1 <= k;
    assert(k >= 2 ==> 12 <= (2 * k - 1) * (2 * k)) by (nonlinear_arith)
        requires
            1 <= k;
    assert(k <= 12 ==> (2 * k - 1) * (2 * k) <= 600) by (nonlinear_arith)
        requires
            1 <= k;
}

/// Taylor terms over a nonnegative squared angle are nonnegative.
proof fn lemma_cos_term_nonneg(y: int, k: nat)
    requires
        0 <= y,
    ensures
        0 <= cos_term(y, k),
    decreases k,
{
    if k > 0 {
        lemma_cos_term_nonneg(y, (k - 1) as nat);
        lemma_taylor_factor_bounds(k);
        lemma_mul_nonnegative(cos_term(y, (k - 1) as nat), y);
        lemma_div_pos_is_pos(
            cos_term(y, (k - 1) as nat) * y,
            (2 * k - 1) * (2 * k) * 1_000_000_000_000_000_000_000_000,
        );
    }
}

/// For a reduced angle (squared value at most `(PI_FIXED + 1)^2`), every
/// Taylor term beyond the constant one stays below `5 * FIXED_ONE`.
proof fn lemma_cos_term_bound(y: int, k: nat)
    requires
        0 <= y <= 9_869_604_401_090_657_739_888_100,
        1 <= k,
    ensures
        0 <= cos_term(y, k) <= 5 * FIXED_ONE,
    decreases k,
{
    lemma_cos_term_nonneg(y, k);
    lemma_cos_term_nonneg(y, (k - 1) as nat);
    lemma_taylor_factor_bounds(k);
    let prev = cos_term(y, (k - 1) as nat);
    let d = (2 * k - 1) * (2 * k) * 1_000_000_000_000_000_000_000_000;
    lemma_mul_nonnegative(prev, y);
    if k == 1 {
        assert((2 * k - 1) * (2 * k) == 2) by (nonlinear_arith)
            requires
                k == 1nat;
        lemma_mul_upper_bound(prev, 1_000_000_000_000, y, 9_869_604_401_090_657_739_888_100);
        lemma_div_is_ordered(
            prev * y,
            9_869_604_401_090_657_739_888_100_000_000_000_000,
            2_000_000_000_000_000_000_000_000,
        );
    } else {
        lemma_cos_term_bound(y, (k - 1) as nat);
        lemma_mul_upper_bound(prev, 5_000_000_000_000, y, 9_869_604_401_090_657_739_888_100);
        lemma_div_is_ordered_by_denominator(prev * y, 12_000_000_000_000_000_000_000_000, d);
        lemma_div_is_ordered(
            prev * y,
            49_348_022_005_453_288_699_440_500_000_000_000_000,
            12_000_000_000_000_000_000_000_000,
        );
    }
}

/// The alternating partial sums stay within `FIXED_ONE * (1 + 5k)`.
proof fn lemma_cos_partial_bound(y: int, k: nat)
    requires
        0 <= y <= 9_869_604_401_090_657_739_888_100,
    ensures
        -(1_000_000_000_000 + 5_000_000_000_000 * k) <= cos_partial(y, k) <= 1_000_000_000_000
            + 5_000_000_000_000 * k,
    decreases k,
{
    if k > 0 {
        lemma_cos_partial_bound(y, (k - 1) as nat);
        lemma_cos_term_bound(y, k);
    }
}

/// The squared reduced angle never exceeds `(PI_FIXED + 1)^2`.
proof fn lemma_reduced_square_bound(x: int)
    ensures
        0 <= reduce_angle(x) * reduce_angle(x) <= 9_869_604_401_090_657_739_888_100,
{
    lemma_reduce_angle_range(x);
    let r = reduce_angle(x);
    lemma_mul_nonnegative(r, r);
    lemma_mul_upper_bound(r, 3_141_592_653_590, r, 3_141_592_653_590);
}

/// The fixed-point cosine is bounded: no value exceeds `COS_BOUND` in magnitude.
pub proof fn lemma_cos_fixed_bound(x: int)
    ensures
        -COS_BOUND <= cos_fixed(x) <= COS_BOUND,
{
    lemma_reduced_square_bound(x);
    let r = reduce_angle(x);
    lemma_cos_partial_bound(r * r, 12);
}

/// At a squared angle of zero every Taylor term beyond the constant one vanishes.
proof fn lemma_cos_term_at_zero(k: nat)
    requires
        1 <= k,
    ensures
        cos_term(0, k) == 0,
    decreases k,
{
    lemma_taylor_factor_bounds(k);
    if k > 1 {
        lemma_cos_term_at_zero((k - 1) as nat);
    }
    lemma_mul_by_zero_is_zero(cos_term(0, (k - 1) as nat));
    lemma_div_of0((2 * k - 1) * (2 * k) * 1_000_000_000_000_000_000_000_000);
}

/// At a squared angle of zero every partial sum equals `FIXED_ONE`.
proof fn lemma_cos_partial_at_zero(k: nat)
    ensures
        cos_partial(0, k) == FIXED_ONE,
    decreases k,
{
    if k > 0 {
        lemma_cos_partial_at_zero((k - 1) as nat);
        lemma_cos_term_at_zero(k);
    }
}

/// The cosine of the zero angle is exactly one unit: `cos_fixed(0) == FIXED_ONE`.
pub proof fn lemma_cos_fixed_at_zero()
    ensures
        cos_fixed(0) == FIXED_ONE,
{
    lemma_small_mod(0nat, TWO_PI_FIXED as nat);
    assert(reduce_angle(0) == 0);
    lemma_mul_by_zero_is_zero(reduce_angle(0));
    lemma_cos_partial_at_zero(12);
}

/// The fixed-point cosine is an even function.
pub proof fn lemma_cos_fixed_even(x: int)
    ensures
        cos_fixed(-x) == cos_fixed(x),
{
    assert(abs(-x) == abs(x));
}

/// Evaluates the fixed-point cosine of `x`, matching [`cos_fixed`] exactly.
pub fn cosine_fixed(x: i64) -> (c: i64)
    ensures
        c == cos_fixed(x as int),
        -COS_BOUND <= c <= COS_BOUND,
{
    let mag: u64 = if x >= 0 {
        x as u64
    } else {
        (-(x as i128)) as u64
    };
    assert(mag == abs(x as int));
    let rem: u64 = mag % (TWO_PI_FIXED as u64);
    let red: u64 = if rem > PI_FIXED as u64 {
        (TWO_PI_FIXED as u64) - rem
    } else {
        rem
    };
    assert(red == reduce_angle(x as int));
    proof {
        lemma_reduced_square_bound(x as int);
    }
    let y: u128 = (red as u128) * (red as u128);
    let ghost yi: int = y as int;
    let mut term: u128 = FIXED_ONE as u128;
    let mut acc: i128 = FIXED_ONE as i128;
    let mut k: u32 = 1;
    while k <= 12
        invariant
            1 <= k <= 13,
            y == yi,
            yi == reduce_angle(x as int) * reduce_angle(x as int),
            0 <= yi <= 9_869_604_401_090_657_739_888_100,
            term == cos_term(yi, (k - 1) as nat),
            0 <= term <= 5_000_000_000_000,
            acc == cos_partial(yi, (k - 1) as nat),
            -(1_000_000_000_000 + 5_000_000_000_000 * (k - 1)) <= acc <= 1_000_000_000_000
                + 5_000_000_000_000 * (k - 1),
        decreases 13 - k,
    {
        proof {
            lemma_taylor_factor_bounds(k as nat);
            lemma_mul_nonnegative(term as int, yi);
            lemma_mul_upper_bound(term as int, 5_000_000_000_000, yi,
                9_869_604_401_090_657_739_888_100);
        }
        let q: u64 = ((2 * k - 1) as u64) * ((2 * k) as u64);
        let d: u128 = (q as u128) * 1_000_000_000_000_000_000_000_000;
        term = (term * y) / d;
        proof {
            assert(term == cos_term(yi, k as nat));
            lemma_cos_term_bound(yi, k as nat);
        }
        if k % 2 == 1 {
            acc = acc - (term as i128);
        } else {
            acc = acc + (term as i128);
        }
        k = k + 1;
    }
    assert(acc == cos_fixed(x as int));
    acc as i64
}

} // verus!
