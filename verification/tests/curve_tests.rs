use harmonic_sampler::{
    build_time_grid, cosine_fixed, recompute, reference_curve, standard_masses, standard_radii,
    superposed_curve, SamplerError, FIXED_ONE, PI_FIXED, TWO_PI_FIXED,
};

const PI: f64 = std::f64::consts::PI;

const MASS: [f64; 6] = [
    2.75758026171761,
    0.969494952543874,
    0.486348994233291,
    0.273755006621712,
    0.155229853500278,
    0.076567059516108,
];

const RADIUS: [f64; 6] = [
    0.020070401444444,
    0.011900487555556,
    0.008428804666667,
    0.006323725555556,
    0.004761892666667,
    0.003344359555556,
];

/// Curve values are at the product scale `10^-15 * 10^-12`.
fn to_f64(y: i128) -> f64 {
    y as f64 / 1e27
}

#[test]
fn cosine_of_zero_is_one_unit() {
    assert_eq!(cosine_fixed(0), FIXED_ONE);
}

#[test]
fn cosine_matches_library_cosine_across_a_period() {
    for num in (-1000..=1000).step_by(50) {
        let angle = ((num as i128 * PI_FIXED as i128) / 1000) as i64;
        let got = cosine_fixed(angle) as f64 / 1e12;
        let want = ((num as f64 / 1000.0) * PI).cos();
        assert!(
            (got - want).abs() < 1e-9,
            "cos mismatch at num={num}: {got} vs {want}"
        );
    }
}

#[test]
fn cosine_is_even_and_periodic() {
    for x in [1i64, 17_543, 1_234_567_890, PI_FIXED, 5 * FIXED_ONE] {
        assert_eq!(cosine_fixed(-x), cosine_fixed(x));
        assert_eq!(cosine_fixed(x + TWO_PI_FIXED), cosine_fixed(x));
    }
}

#[test]
fn standard_coefficients_match_model_constants() {
    let masses = standard_masses();
    let radii = standard_radii();
    assert_eq!(masses.len(), 6);
    assert_eq!(radii.len(), 6);
    for j in 0..6 {
        assert!((masses[j] as f64 / 1e15 - MASS[j]).abs() < 1e-15);
        assert!((radii[j] as f64 / 1e15 - RADIUS[j]).abs() < 1e-15);
    }
}

#[test]
fn reference_peaks_at_the_origin() {
    let grid = build_time_grid(1001).unwrap();
    let masses = standard_masses();
    let radii = standard_radii();
    let vals = reference_curve(&grid, 2, masses[0], radii[0], FIXED_ONE);
    assert_eq!(vals.len(), 1001);
    // Grid point 500 is t = 0, where the cosine is exactly one.
    let expected = 2.0 * MASS[0] * 1.0 * RADIUS[0];
    assert!((to_f64(vals[500]) - expected).abs() < 1e-9);
}

#[test]
fn reference_vanishes_at_a_quarter_period() {
    let grid = build_time_grid(1001).unwrap();
    let masses = standard_masses();
    let radii = standard_radii();
    let vals = reference_curve(&grid, 1, masses[0], radii[0], FIXED_ONE);
    // Grid point 750 is t = pi/2, where the cosine vanishes.
    assert!(to_f64(vals[750]).abs() < 1e-9);
}

#[test]
fn reference_sign_follows_the_multiplier() {
    let grid = build_time_grid(101).unwrap();
    let masses = standard_masses();
    let radii = standard_radii();
    let pos = reference_curve(&grid, 1, masses[0], radii[0], FIXED_ONE);
    let neg = reference_curve(&grid, -1, masses[0], radii[0], FIXED_ONE);
    for i in 0..101 {
        assert_eq!(neg[i], -pos[i]);
    }
}

#[test]
fn single_harmonic_superposition_equals_reference() {
    let grid = build_time_grid(1001).unwrap();
    let masses = standard_masses();
    let radii = standard_radii();
    let reference = reference_curve(&grid, 1, masses[0], radii[0], FIXED_ONE);
    let superposed = superposed_curve(&grid, 1, &masses, &radii, FIXED_ONE).unwrap();
    assert_eq!(reference.len(), superposed.len());
    for i in 0..reference.len() {
        assert_eq!(reference[i], superposed[i], "mismatch at grid point {i}");
    }
}

#[test]
fn superposition_is_deterministic() {
    let grid = build_time_grid(1001).unwrap();
    let masses = standard_masses();
    let radii = standard_radii();
    let first = superposed_curve(&grid, 6, &masses, &radii, FIXED_ONE).unwrap();
    let second = superposed_curve(&grid, 6, &masses, &radii, FIXED_ONE).unwrap();
    assert_eq!(first, second);
}

#[test]
fn six_harmonic_peak_matches_coefficient_sum() {
    let grid = build_time_grid(1001).unwrap();
    let masses = standard_masses();
    let radii = standard_radii();
    let vals = superposed_curve(&grid, 6, &masses, &radii, FIXED_ONE).unwrap();
    let mut expected: f64 = 0.0;
    for j in 0..6 {
        let k = (j + 1) as f64;
        expected += MASS[j] * k * k * RADIUS[j];
    }
    assert!((to_f64(vals[500]) - expected).abs() < 1e-9);
}

#[test]
fn six_harmonics_succeed_and_seven_are_rejected() {
    let grid = build_time_grid(1001).unwrap();
    let masses = standard_masses();
    let radii = standard_radii();
    assert!(superposed_curve(&grid, 6, &masses, &radii, FIXED_ONE).is_ok());
    assert_eq!(
        superposed_curve(&grid, 7, &masses, &radii, FIXED_ONE).unwrap_err(),
        SamplerError::InvalidHarmonicCount
    );
    assert_eq!(
        superposed_curve(&grid, 0, &masses, &radii, FIXED_ONE).unwrap_err(),
        SamplerError::InvalidHarmonicCount
    );
}

#[test]
fn single_harmonic_tracks_the_plain_cosine() {
    // With unit mass, radius and frequency the sampled value is cos(t).
    let grid = build_time_grid(1001).unwrap();
    let unit: Vec<i64> = vec![1_000_000_000_000_000];
    let vals = superposed_curve(&grid, 1, &unit, &unit, FIXED_ONE).unwrap();
    let den = grid.denominator();
    for i in (0..1001).step_by(125) {
        let t = (grid.numerator_at(i) as f64 / den as f64) * PI;
        assert!(
            (to_f64(vals[i]) - t.cos()).abs() < 1e-9,
            "cos(t) mismatch at point {i}"
        );
    }
}

#[test]
fn doubled_frequency_scales_amplitude_and_phase() {
    // With unit mass and radius and omega_0 = 2 the sampled value is
    // 4 * cos(2t): the amplitude carries the squared frequency.
    let grid = build_time_grid(1001).unwrap();
    let unit: Vec<i64> = vec![1_000_000_000_000_000];
    let vals = superposed_curve(&grid, 1, &unit, &unit, 2 * FIXED_ONE).unwrap();
    let den = grid.denominator();
    for i in (0..1001).step_by(125) {
        let t = (grid.numerator_at(i) as f64 / den as f64) * PI;
        assert!(
            (to_f64(vals[i]) - 4.0 * (2.0 * t).cos()).abs() < 1e-8,
            "4cos(2t) mismatch at point {i}"
        );
    }
}

#[test]
fn recompute_pairs_grid_points_with_values() {
    let (reference, superposed) = recompute(6, 1).unwrap();
    assert_eq!(reference.points.len(), 1001);
    assert_eq!(superposed.points.len(), 1001);
    for i in 0..1001 {
        let rp = reference.points[i];
        let sp = superposed.points[i];
        assert_eq!(rp.x_num, 2 * i as i64 - 1000);
        assert_eq!(rp.x_den, 1000);
        assert_eq!(sp.x_num, rp.x_num);
        assert_eq!(sp.x_den, 1000);
    }
    let mut expected: f64 = 0.0;
    for j in 0..6 {
        let k = (j + 1) as f64;
        expected += MASS[j] * k * k * RADIUS[j];
    }
    assert!((to_f64(superposed.points[500].y) - expected).abs() < 1e-9);
    assert!((to_f64(reference.points[500].y) - MASS[0] * RADIUS[0]).abs() < 1e-9);
}

#[test]
fn recompute_with_one_harmonic_matches_reference_exactly() {
    let (reference, superposed) = recompute(1, 1).unwrap();
    for i in 0..1001 {
        assert_eq!(reference.points[i].y, superposed.points[i].y);
    }
}

#[test]
fn recompute_rejects_out_of_range_harmonic_counts() {
    assert_eq!(recompute(0, 1).unwrap_err(), SamplerError::InvalidHarmonicCount);
    assert_eq!(recompute(7, 1).unwrap_err(), SamplerError::InvalidHarmonicCount);
    assert!(recompute(1, 2).is_ok());
    assert!(recompute(6, 1).is_ok());
}
