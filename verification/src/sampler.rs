//! The harmonic sampler: evaluates a single-harmonic reference curve and an
//! N-harmonic superposed curve over a shared time grid.
//!
//! Model coefficients (masses and radii) are held in units of `10^-15`
//! ([`COEF_ONE`]), angular frequencies and cosines in units of `10^-12`
//! ([`crate::trig::FIXED_ONE`]).  A sampled curve value is the sum over the
//! selected harmonics of `amplitude * cosine`, held at the product scale
//! `10^-27`; no rounding is applied after the per-harmonic amplitude and
//! angle are formed, so the contracts pin every output exactly.

use crate::error::SamplerError;
use crate::grid::{build_time_grid, TimeGrid};
use crate::trig::{cos_fixed, cosine_fixed, lemma_cos_fixed_at_zero, FIXED_ONE, PI_FIXED};
use vstd::arithmetic::div_mod::{
    lemma_div_is_ordered, lemma_div_multiples_vanish, lemma_div_of0, lemma_div_pos_is_pos,
};
use vstd::arithmetic::mul::{
    lemma_mul_basics, lemma_mul_inequality, lemma_mul_is_commutative,
    lemma_mul_is_distributive_add_other_way, lemma_mul_nonnegative, lemma_mul_upper_bound,
};
use vstd::math::abs;
use vstd::prelude::*;

verus! {

/// One full unit of the coefficient representation (`10^15`): a mass or
/// radius of `1.0` is stored as `COEF_ONE`.
pub const COEF_ONE: i64 = 1_000_000_000_000_000;

/// Largest accepted coefficient magnitude (ten units).
pub const COEF_LIMIT: i64 = 10 * COEF_ONE;

/// Largest accepted base angular frequency magnitude (ten units).
pub const OMEGA_LIMIT: i64 = 10 * FIXED_ONE;

/// Largest accepted number of coefficient pairs.
pub const MAX_HARMONICS: usize = 16;

/// Largest accepted magnitude of the reference-curve multiplier.
pub const MULTIPLIER_LIMIT: i64 = 100;

/// Number of grid points used by [`recompute`].
pub const GRID_POINTS: usize = 1001;

/// A sequence of `i64` values viewed as mathematical integers.
pub open spec fn int_view(s: Seq<i64>) -> Seq<int> {
    s.map(|_i: int, v: i64| v as int)
}

/// The magnitude of a harmonic amplitude `m * (w*k)^2 * r`, formed over the
/// operand magnitudes in fixed point: the coefficient product is brought to
/// coefficient scale, then multiplied twice by the frequency `w*k`, keeping
/// the scale at `COEF_ONE` (the literal divisors are `COEF_ONE` and
/// `FIXED_ONE`).
pub open spec fn amplitude_mag(ma: int, ra: int, wa: int, k: int) -> int {
    let u1 = ma * ra / 1_000_000_000_000_000;
    let u2 = u1 * (wa * k) / 1_000_000_000_000;
    u2 * (wa * k) / 1_000_000_000_000
}

/// The signed amplitude of harmonic `k`: `m * (w*k)^2 * r` in units of
/// `10^-15`.  The square of the frequency makes its sign irrelevant; the
/// sign is the sign of `m * r`.
pub open spec fn amplitude_fixed(m: int, r: int, w: int, k: int) -> int {
    let mag = amplitude_mag(abs(m) as int, abs(r) as int, abs(w) as int, k);
    if (m < 0) != (r < 0) {
        -mag
    } else {
        mag
    }
}

/// The magnitude of the angle `w * k * t` at the grid point `pi * num / den`,
/// in units of `10^-12`.  The cosine is even, so only the magnitude matters.
pub open spec fn angle_fixed(w: int, k: int, num: int, den: int) -> int {
    (abs(w) as int) * k * (abs(num) as int) * (PI_FIXED as int) / den / 1_000_000_000_000
}

/// The contribution of harmonic `k`: amplitude times cosine, at the product
/// scale `10^-27`.
pub open spec fn term_value(m: int, r: int, w: int, k: int, num: int, den: int) -> int {
    amplitude_fixed(m, r, w, k) * cos_fixed(angle_fixed(w, k, num, den))
}

/// The superposed curve value at one grid point: the sum of the first `n`
/// harmonic contributions, harmonic `j` (zero-based) at frequency `w*(j+1)`.
pub open spec fn superposed_point(
    ms: Seq<int>,
    rs: Seq<int>,
    w: int,
    n: int,
    num: int,
    den: int,
) -> int
    decreases n,
{
    if n <= 0 {
        0
    } else {
        superposed_point(ms, rs, w, n - 1, num, den) + term_value(
            ms[n - 1],
            rs[n - 1],
            w,
            n,
            num,
            den,
        )
    }
}

/// The reference curve value at one grid point: `cc` times the single
/// first-harmonic contribution.
pub open spec fn reference_point(cc: int, m: int, r: int, w: int, num: int, den: int) -> int {
    cc * term_value(m, r, w, 1, num, den)
}

/// The magnitude of an `i64` value.
fn abs_value(v: i64) -> (a: u64)
    ensures
        a == abs(v as int),
{
    if v >= 0 {
        v as u64
    } else {
        (-(v as i128)) as u64
    }
}

/// The signed fixed-point amplitude of harmonic `k`, matching
/// [`amplitude_fixed`] exactly.
fn amplitude(m: i64, r: i64, w: i64, k: u64) -> (a: i128)
    requires
        -COEF_LIMIT <= m <= COEF_LIMIT,
        -COEF_LIMIT <= r <= COEF_LIMIT,
        -OMEGA_LIMIT <= w <= OMEGA_LIMIT,
        1 <= k <= 16,
    ensures
        a == amplitude_fixed(m as int, r as int, w as int, k as int),
        -3_000_000_000_000_000_000_000 <= a <= 3_000_000_000_000_000_000_000,
{
    let ma: u64 = abs_value(m);
    let ra: u64 = abs_value(r);
    let wa: u64 = abs_value(w);
    proof {
        lemma_mul_nonnegative(ma as int, ra as int);
        lemma_mul_upper_bound(ma as int, 10_000_000_000_000_000, ra as int,
            10_000_000_000_000_000);
    }
    let p0: u128 = (ma as u128) * (ra as u128);
    let u1: u128 = p0 / 1_000_000_000_000_000;
    proof {
        lemma_div_pos_is_pos(p0 as int, 1_000_000_000_000_000);
        lemma_div_is_ordered(p0 as int, 100_000_000_000_000_000_000_000_000_000_000,
            1_000_000_000_000_000);
        lemma_mul_nonnegative(wa as int, k as int);
        lemma_mul_upper_bound(wa as int, 10_000_000_000_000, k as int, 16);
    }
    let wk: u128 = (wa as u128) * (k as u128);
    proof {
        lemma_mul_nonnegative(u1 as int, wk as int);
        lemma_mul_upper_bound(u1 as int, 100_000_000_000_000_000, wk as int, 160_000_000_000_000);
    }
    let p1: u128 = u1 * wk;
    let u2: u128 = p1 / 1_000_000_000_000;
    proof {
        lemma_div_pos_is_pos(p1 as int, 1_000_000_000_000);
        lemma_div_is_ordered(p1 as int, 16_000_000_000_000_000_000_000_000_000_000,
            1_000_000_000_000);
        lemma_mul_nonnegative(u2 as int, wk as int);
        lemma_mul_upper_bound(u2 as int, 16_000_000_000_000_000_000, wk as int,
            160_000_000_000_000);
    }
    let p2: u128 = u2 * wk;
    let u3: u128 = p2 / 1_000_000_000_000;
    proof {
        lemma_div_pos_is_pos(p2 as int, 1_000_000_000_000);
        lemma_div_is_ordered(p2 as int, 2_560_000_000_000_000_000_000_000_000_000_000,
            1_000_000_000_000);
    }
    let mag: i128 = u3 as i128;
    if (m < 0) != (r < 0) {
        -mag
    } else {
        mag
    }
}

/// The fixed-point angle magnitude `|w| * k * |num| * pi / den`, matching
/// [`angle_fixed`] exactly.
fn angle_magnitude(w: i64, k: u64, num: i64, den: i64) -> (ang: i64)
    requires
        -OMEGA_LIMIT <= w <= OMEGA_LIMIT,
        1 <= k <= 16,
        1 <= den <= 10_000_000,
        -den <= num <= den,
    ensures
        ang == angle_fixed(w as int, k as int, num as int, den as int),
        0 <= ang <= 600_000_000_000_000,
{
    let wa: u64 = abs_value(w);
    let na: u64 = abs_value(num);
    proof {
        lemma_mul_nonnegative(wa as int, k as int);
        lemma_mul_upper_bound(wa as int, 10_000_000_000_000, k as int, 16);
    }
    let p0: u128 = (wa as u128) * (k as u128);
    proof {
        lemma_mul_nonnegative(p0 as int, na as int);
        lemma_mul_upper_bound(p0 as int, 160_000_000_000_000, na as int, 10_000_000);
    }
    let p1: u128 = p0 * (na as u128);
    proof {
        lemma_mul_nonnegative(p1 as int, PI_FIXED as int);
        lemma_mul_upper_bound(p1 as int, 1_600_000_000_000_000_000_000, PI_FIXED as int,
            3_141_592_653_589);
    }
    let p2: u128 = p1 * (PI_FIXED as u128);
    let q1: u128 = p2 / (den as u128);
    let q2: u128 = q1 / 1_000_000_000_000;
    proof {
        lemma_mul_is_commutative(p0 as int, na as int);
        lemma_mul_is_commutative(p0 as int, den as int);
        lemma_mul_inequality(na as int, den as int, p0 as int);
        lemma_mul_inequality(p1 as int, (p0 as int) * (den as int), PI_FIXED as int);
        lemma_div_is_ordered(p2 as int, ((p0 as int) * (den as int)) * (PI_FIXED as int),
            den as int);
        assert(((p0 as int) * (den as int)) * (PI_FIXED as int) == (den as int) * ((p0 as int)
            * (PI_FIXED as int))) by (nonlinear_arith);
        lemma_div_multiples_vanish((p0 as int) * (PI_FIXED as int), den as int);
        lemma_mul_inequality(p0 as int, 160_000_000_000_000, PI_FIXED as int);
        lemma_div_pos_is_pos(p2 as int, den as int);
        lemma_div_is_ordered(q1 as int, 502_654_824_574_240_000_000_000_000, 1_000_000_000_000);
        lemma_div_pos_is_pos(q1 as int, 1_000_000_000_000);
    }
    q2 as i64
}

/// The contribution of harmonic `k` at one grid point, matching
/// [`term_value`] exactly.
fn harmonic_term(m: i64, r: i64, w: i64, k: u64, num: i64, den: i64) -> (t: i128)
    requires
        -COEF_LIMIT <= m <= COEF_LIMIT,
        -COEF_LIMIT <= r <= COEF_LIMIT,
        -OMEGA_LIMIT <= w <= OMEGA_LIMIT,
        1 <= k <= 16,
        1 <= den <= 10_000_000,
        -den <= num <= den,
    ensures
        t == term_value(m as int, r as int, w as int, k as int, num as int, den as int),
        -200_000_000_000_000_000_000_000_000_000_000_000 <= t
            <= 200_000_000_000_000_000_000_000_000_000_000_000,
{
    let a: i128 = amplitude(m, r, w, k);
    let ang: i64 = angle_magnitude(w, k, num, den);
    let c: i64 = cosine_fixed(ang);
    proof {
        assert(-200_000_000_000_000_000_000_000_000_000_000_000 <= a * (c as int)
            <= 200_000_000_000_000_000_000_000_000_000_000_000) by (nonlinear_arith)
            requires
                -3_000_000_000_000_000_000_000 <= a <= 3_000_000_000_000_000_000_000,
                -61_000_000_000_000 <= c <= 61_000_000_000_000;
    }
    a * (c as i128)
}

/// The superposed curve value at one grid point: the first `n` harmonic
/// contributions summed in order.
fn superposed_point_value(
    mass: &Vec<i64>,
    radius: &Vec<i64>,
    n: usize,
    w: i64,
    num: i64,
    den: i64,
) -> (v: i128)
    requires
        n <= mass@.len(),
        n <= radius@.len(),
        mass@.len() <= MAX_HARMONICS,
        radius@.len() <= MAX_HARMONICS,
        forall|j: int| 0 <= j < mass@.len() ==> -COEF_LIMIT <= #[trigger] mass@[j] <= COEF_LIMIT,
        forall|j: int|
            0 <= j < radius@.len() ==> -COEF_LIMIT <= #[trigger] radius@[j] <= COEF_LIMIT,
        -OMEGA_LIMIT <= w <= OMEGA_LIMIT,
        1 <= den <= 10_000_000,
        -den <= num <= den,
    ensures
        v == superposed_point(int_view(mass@), int_view(radius@), w as int, n as int, num as int,
            den as int),
{
    let mut acc: i128 = 0;
    let mut j: usize = 0;
    while j < n
        invariant
            j <= n,
            n <= mass@.len(),
            n <= radius@.len(),
            mass@.len() <= MAX_HARMONICS,
            radius@.len() <= MAX_HARMONICS,
            forall|p: int| 0 <= p < mass@.len() ==> -COEF_LIMIT <= #[trigger] mass@[p]
                <= COEF_LIMIT,
            forall|p: int| 0 <= p < radius@.len() ==> -COEF_LIMIT <= #[trigger] radius@[p]
                <= COEF_LIMIT,
            -OMEGA_LIMIT <= w <= OMEGA_LIMIT,
            1 <= den <= 10_000_000,
            -den <= num <= den,
            acc == superposed_point(int_view(mass@), int_view(radius@), w as int, j as int,
                num as int, den as int),
            -200_000_000_000_000_000_000_000_000_000_000_000 * (j as int) <= acc
                <= 200_000_000_000_000_000_000_000_000_000_000_000 * (j as int),
        decreases n - j,
    {
        let t: i128 = harmonic_term(mass[j], radius[j], w, (j as u64) + 1, num, den);
        acc = acc + t;
        j = j + 1;
    }
    acc
}

/// Computes the single-harmonic reference curve over the grid: at every grid
/// point `t`, the value `coeff_count * mass_0 * omega_0^2 * radius_0 *
/// cos(omega_0 * t)`, at the product scale `10^-27`.  A pure function of its
/// arguments: no failure modes.
pub fn reference_curve(
    grid: &TimeGrid,
    coeff_count: i64,
    mass_0: i64,
    radius_0: i64,
    omega_0: i64,
) -> (out: Vec<i128>)
    requires
        grid.wf(),
        -MULTIPLIER_LIMIT <= coeff_count <= MULTIPLIER_LIMIT,
        -COEF_LIMIT <= mass_0 <= COEF_LIMIT,
        -COEF_LIMIT <= radius_0 <= COEF_LIMIT,
        -OMEGA_LIMIT <= omega_0 <= OMEGA_LIMIT,
    ensures
        out@.len() == grid@.len(),
        forall|i: int|
            0 <= i < grid@.len() ==> out@[i] == reference_point(coeff_count as int, mass_0 as int,
                radius_0 as int, omega_0 as int, grid@[i], grid.den_spec()),
{
    let den: i64 = grid.denominator();
    let count: usize = grid.len();
    let mut out: Vec<i128> = Vec::new();
    let mut i: usize = 0;
    while i < count
        invariant
            i <= count,
            grid.wf(),
            den == grid.den_spec(),
            count == grid@.len(),
            -MULTIPLIER_LIMIT <= coeff_count <= MULTIPLIER_LIMIT,
            -COEF_LIMIT <= mass_0 <= COEF_LIMIT,
            -COEF_LIMIT <= radius_0 <= COEF_LIMIT,
            -OMEGA_LIMIT <= omega_0 <= OMEGA_LIMIT,
            out@.len() == i,
            forall|p: int|
                0 <= p < i ==> out@[p] == reference_point(coeff_count as int, mass_0 as int,
                    radius_0 as int, omega_0 as int, grid@[p], grid.den_spec()),
        decreases count - i,
    {
        let num: i64 = grid.numerator_at(i);
        let t: i128 = harmonic_term(mass_0, radius_0, omega_0, 1, num, den);
        proof {
            assert(-20_000_000_000_000_000_000_000_000_000_000_000_000 <= (coeff_count as int) * t
                <= 20_000_000_000_000_000_000_000_000_000_000_000_000) by (nonlinear_arith)
                requires
                    -100 <= coeff_count <= 100,
                    -200_000_000_000_000_000_000_000_000_000_000_000 <= t
                        <= 200_000_000_000_000_000_000_000_000_000_000_000;
        }
        let v: i128 = (coeff_count as i128) * t;
        out.push(v);
        i = i + 1;
    }
    out
}

/// Computes the N-harmonic superposed curve over the grid: at every grid
/// point `t`, the sum over `j` in `0..n` of `mass[j] * (omega_0*(j+1))^2 *
/// radius[j] * cos(omega_0*(j+1) * t)`, at the product scale `10^-27`.
/// Succeeds exactly when `n` selects a nonempty prefix of both coefficient
/// sequences; otherwise the harmonic count is rejected.
pub fn superposed_curve(
    grid: &TimeGrid,
    n: usize,
    mass: &Vec<i64>,
    radius: &Vec<i64>,
    omega_0: i64,
) -> (r: Result<Vec<i128>, SamplerError>)
    requires
        grid.wf(),
        mass@.len() <= MAX_HARMONICS,
        radius@.len() <= MAX_HARMONICS,
        forall|j: int| 0 <= j < mass@.len() ==> -COEF_LIMIT <= #[trigger] mass@[j] <= COEF_LIMIT,
        forall|j: int|
            0 <= j < radius@.len() ==> -COEF_LIMIT <= #[trigger] radius@[j] <= COEF_LIMIT,
        -OMEGA_LIMIT <= omega_0 <= OMEGA_LIMIT,
    ensures
        (1 <= n && n <= mass@.len() && n <= radius@.len()) <==> r is Ok,
        r is Ok ==> r->Ok_0@.len() == grid@.len(),
        r is Ok ==> forall|i: int|
            0 <= i < grid@.len() ==> r->Ok_0@[i] == superposed_point(int_view(mass@), int_view(
                radius@), omega_0 as int, n as int, grid@[i], grid.den_spec()),
        r is Err ==> r->Err_0 == SamplerError::InvalidHarmonicCount,
{
    if n < 1 || n > mass.len() || n > radius.len() {
        return Err(SamplerError::InvalidHarmonicCount);
    }
    let den: i64 = grid.denominator();
    let count: usize = grid.len();
    let mut out: Vec<i128> = Vec::new();
    let mut i: usize = 0;
    while i < count
        invariant
            i <= count,
            grid.wf(),
            den == grid.den_spec(),
            count == grid@.len(),
            1 <= n <= mass@.len(),
            n <= radius@.len(),
            mass@.len() <= MAX_HARMONICS,
            radius@.len() <= MAX_HARMONICS,
            forall|j: int| 0 <= j < mass@.len() ==> -COEF_LIMIT <= #[trigger] mass@[j]
                <= COEF_LIMIT,
            forall|j: int| 0 <= j < radius@.len() ==> -COEF_LIMIT <= #[trigger] radius@[j]
                <= COEF_LIMIT,
            -OMEGA_LIMIT <= omega_0 <= OMEGA_LIMIT,
            out@.len() == i,
            forall|p: int|
                0 <= p < i ==> out@[p] == superposed_point(int_view(mass@), int_view(radius@),
                    omega_0 as int, n as int, grid@[p], grid.den_spec()),
        decreases count - i,
    {
        let num: i64 = grid.numerator_at(i);
        let v: i128 = superposed_point_value(mass, radius, n, omega_0, num, den);
        out.push(v);
        i = i + 1;
    }
    Ok(out)
}

/// The six model masses, in units of `10^-15`.
pub open spec fn standard_mass_seq() -> Seq<int> {
    seq![
        2_757_580_261_717_610int,
        969_494_952_543_874int,
        486_348_994_233_291int,
        273_755_006_621_712int,
        155_229_853_500_278int,
        76_567_059_516_108int,
    ]
}

/// The six model radii, in units of `10^-15`.
pub open spec fn standard_radius_seq() -> Seq<int> {
    seq![
        20_070_401_444_444int,
        11_900_487_555_556int,
        8_428_804_666_667int,
        6_323_725_555_556int,
        4_761_892_666_667int,
        3_344_359_555_556int,
    ]
}

/// The six model masses as exact fixed-point values.
pub fn standard_masses() -> (v: Vec<i64>)
    ensures
        v@.len() == 6,
        int_view(v@) == standard_mass_seq(),
        forall|j: int| 0 <= j < v@.len() ==> -COEF_LIMIT <= #[trigger] v@[j] <= COEF_LIMIT,
{
    let mut v: Vec<i64> = Vec::new();
    v.push(2_757_580_261_717_610);
    v.push(969_494_952_543_874);
    v.push(486_348_994_233_291);
    v.push(273_755_006_621_712);
    v.push(155_229_853_500_278);
    v.push(76_567_059_516_108);
    proof {
        assert(int_view(v@) =~= standard_mass_seq());
    }
    v
}

/// The six model radii as exact fixed-point values.
pub fn standard_radii() -> (v: Vec<i64>)
    ensures
        v@.len() == 6,
        int_view(v@) == standard_radius_seq(),
        forall|j: int| 0 <= j < v@.len() ==> -COEF_LIMIT <= #[trigger] v@[j] <= COEF_LIMIT,
{
    let mut v: Vec<i64> = Vec::new();
    v.push(20_070_401_444_444);
    v.push(11_900_487_555_556);
    v.push(8_428_804_666_667);
    v.push(6_323_725_555_556);
    v.push(4_761_892_666_667);
    v.push(3_344_359_555_556);
    proof {
        assert(int_view(v@) =~= standard_radius_seq());
    }
    v
}

/// One sampled point: the time `pi * x_num / x_den` paired with the curve
/// value `y` at the product scale `10^-27`.
#[derive(Clone, Copy, PartialEq, Eq, Structural, Debug)]
pub struct CurvePoint {
    pub x_num: i64,
    pub x_den: i64,
    pub y: i128,
}

/// A curve sampled over the time grid, one point per grid point.
#[derive(Debug)]
pub struct SampledCurve {
    pub points: Vec<CurvePoint>,
}

/// Recomputes both display curves from scratch over the standard
/// 1001-point grid with the six model coefficient pairs and a unit base
/// frequency: the single-harmonic reference curve scaled by
/// `reference_multiplier`, and the superposed curve over the first
/// `harmonic_count` harmonics.  Succeeds exactly when `harmonic_count`
/// selects between one and all six coefficient pairs.
pub fn recompute(harmonic_count: usize, reference_multiplier: i64) -> (r: Result<
    (SampledCurve, SampledCurve),
    SamplerError,
>)
    requires
        -MULTIPLIER_LIMIT <= reference_multiplier <= MULTIPLIER_LIMIT,
    ensures
        (1 <= harmonic_count <= 6) <==> r is Ok,
        r is Err ==> r->Err_0 == SamplerError::InvalidHarmonicCount,
        r is Ok ==> r->Ok_0.0.points@.len() == GRID_POINTS && r->Ok_0.1.points@.len()
            == GRID_POINTS,
        r is Ok ==> forall|i: int|
            0 <= i < GRID_POINTS ==> (#[trigger] r->Ok_0.0.points@[i]).x_num == 2 * i - 1000
                && r->Ok_0.0.points@[i].x_den == 1000 && r->Ok_0.0.points@[i].y
                == reference_point(reference_multiplier as int, standard_mass_seq()[0],
                standard_radius_seq()[0], FIXED_ONE as int, 2 * i - 1000, 1000),
        r is Ok ==> forall|i: int|
            0 <= i < GRID_POINTS ==> (#[trigger] r->Ok_0.1.points@[i]).x_num == 2 * i - 1000
                && r->Ok_0.1.points@[i].x_den == 1000 && r->Ok_0.1.points@[i].y
                == superposed_point(standard_mass_seq(), standard_radius_seq(), FIXED_ONE as int,
                harmonic_count as int, 2 * i - 1000, 1000),
{
    if harmonic_count < 1 || harmonic_count > 6 {
        return Err(SamplerError::InvalidHarmonicCount);
    }
    let grid: TimeGrid = match build_time_grid(GRID_POINTS) {
        Ok(g) => g,
        Err(_) => {
            return Err(SamplerError::InvalidHarmonicCount);
        },
    };
    let masses: Vec<i64> = standard_masses();
    let radii: Vec<i64> = standard_radii();
    let ref_vals: Vec<i128> = reference_curve(&grid, reference_multiplier, masses[0], radii[0],
        FIXED_ONE);
    let sup_vals: Vec<i128> = match superposed_curve(&grid, harmonic_count, &masses, &radii,
        FIXED_ONE) {
        Ok(vals) => vals,
        Err(_) => {
            return Err(SamplerError::InvalidHarmonicCount);
        },
    };
    let den: i64 = grid.denominator();
    let count: usize = grid.len();
    let mut ref_points: Vec<CurvePoint> = Vec::new();
    let mut sup_points: Vec<CurvePoint> = Vec::new();
    let mut i: usize = 0;
    while i < count
        invariant
            i <= count,
            grid.wf(),
            den == grid.den_spec(),
            count == grid@.len(),
            count == GRID_POINTS,
            den == 1000,
            ref_vals@.len() == count,
            sup_vals@.len() == count,
            forall|p: int|
                0 <= p < count ==> ref_vals@[p] == reference_point(reference_multiplier as int,
                    standard_mass_seq()[0], standard_radius_seq()[0], FIXED_ONE as int, grid@[p],
                    grid.den_spec()),
            forall|p: int|
                0 <= p < count ==> sup_vals@[p] == superposed_point(standard_mass_seq(),
                    standard_radius_seq(), FIXED_ONE as int, harmonic_count as int, grid@[p],
                    grid.den_spec()),
            ref_points@.len() == i,
            sup_points@.len() == i,
            forall|p: int|
                0 <= p < i ==> (#[trigger] ref_points@[p]).x_num == grid@[p]
                    && ref_points@[p].x_den == 1000 && ref_points@[p].y == ref_vals@[p],
            forall|p: int|
                0 <= p < i ==> (#[trigger] sup_points@[p]).x_num == grid@[p]
                    && sup_points@[p].x_den == 1000 && sup_points@[p].y == sup_vals@[p],
        decreases count - i,
    {
        let num: i64 = grid.numerator_at(i);
        let rp = (CurvePoint { x_num: num, x_den: den, y: ref_vals[i] });
        let sp = (CurvePoint { x_num: num, x_den: den, y: sup_vals[i] });
        ref_points.push(rp);
        sup_points.push(sp);
        i = i + 1;
    }
    Ok((SampledCurve { points: ref_points }, SampledCurve { points: sup_points }))
}

/// The angle magnitude at the grid midpoint `t = 0` is zero.
proof fn lemma_angle_at_origin(w: int, k: int, den: int)
    requires
        1 <= den,
    ensures
        angle_fixed(w, k, 0, den) == 0,
{
    lemma_mul_basics((abs(w) as int) * k);
    lemma_mul_basics(PI_FIXED as int);
    lemma_div_of0(den);
    lemma_div_of0(1_000_000_000_000);
}

/// Law: at the grid midpoint `t = 0` the reference curve attains its full
/// amplitude — the cosine factor is exactly one unit, so the value is the
/// multiplier times the first-harmonic amplitude times `FIXED_ONE`.
pub proof fn lemma_reference_peak_at_origin(cc: int, m: int, r: int, w: int, den: int)
    requires
        1 <= den,
    ensures
        reference_point(cc, m, r, w, 0, den) == cc * (amplitude_fixed(m, r, w, 1) * (
        FIXED_ONE as int)),
{
    lemma_angle_at_origin(w, 1, den);
    lemma_cos_fixed_at_zero();
}

/// Law: superposing a single harmonic reproduces the reference curve with a
/// unit multiplier — for every grid point, the superposed value with `n == 1`
/// equals the reference value built from the same leading coefficients and
/// the same base frequency.
pub proof fn lemma_single_harmonic_matches_reference(
    ms: Seq<int>,
    rs: Seq<int>,
    w: int,
    num: int,
    den: int,
)
    requires
        ms.len() >= 1,
        rs.len() >= 1,
    ensures
        superposed_point(ms, rs, w, 1, num, den) == reference_point(1, ms[0], rs[0], w, num, den),
{
    assert(superposed_point(ms, rs, w, 0, num, den) == 0);
    assert(superposed_point(ms, rs, w, 1, num, den) == superposed_point(ms, rs, w, 0, num, den)
        + term_value(ms[0], rs[0], w, 1, num, den));
    lemma_mul_basics(term_value(ms[0], rs[0], w, 1, num, den));
}

/// Law: the sampler is deterministic — two superposed samplings of identical
/// inputs over the same grid are identical, element for element.
pub proof fn lemma_superposed_deterministic(
    a: Seq<i128>,
    b: Seq<i128>,
    ms: Seq<int>,
    rs: Seq<int>,
    w: int,
    n: int,
    g: Seq<int>,
    den: int,
)
    requires
        a.len() == g.len(),
        b.len() == g.len(),
        forall|i: int| 0 <= i < g.len() ==> a[i] == superposed_point(ms, rs, w, n, g[i], den),
        forall|i: int| 0 <= i < g.len() ==> b[i] == superposed_point(ms, rs, w, n, g[i], den),
    ensures
        a == b,
{
    assert(a =~= b);
}

/// The sum of the first `n` harmonic amplitudes.
pub open spec fn amplitude_total(ms: Seq<int>, rs: Seq<int>, w: int, n: int) -> int
    decreases n,
{
    if n <= 0 {
        0
    } else {
        amplitude_total(ms, rs, w, n - 1) + amplitude_fixed(ms[n - 1], rs[n - 1], w, n)
    }
}

/// Law: at the grid midpoint `t = 0` every cosine factor is one unit, so the
/// superposed value is the sum of the selected harmonic amplitudes scaled by
/// `FIXED_ONE`.
pub proof fn lemma_superposed_peak_at_origin(ms: Seq<int>, rs: Seq<int>, w: int, n: int, den: int)
    requires
        1 <= den,
    ensures
        superposed_point(ms, rs, w, n, 0, den) == amplitude_total(ms, rs, w, n) * (
        FIXED_ONE as int),
    decreases
            if n <= 0 {
                0
            } else {
                n
            },
{
    if n <= 0 {
        lemma_mul_basics(FIXED_ONE as int);
    } else {
        lemma_superposed_peak_at_origin(ms, rs, w, n - 1, den);
        lemma_angle_at_origin(w, n, den);
        lemma_cos_fixed_at_zero();
        lemma_mul_is_distributive_add_other_way(
            FIXED_ONE as int,
            amplitude_total(ms, rs, w, n - 1),
            amplitude_fixed(ms[n - 1], rs[n - 1], w, n),
        );
    }
}

} // verus!
