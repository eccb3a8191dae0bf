use harmonic_sampler::{build_time_grid, SamplerError, MAX_GRID_POINTS};

const PI: f64 = std::f64::consts::PI;

fn grid_x(num: i64, den: i64) -> f64 {
    (num as f64 / den as f64) * PI
}

#[test]
fn grid_endpoints_are_plus_minus_pi() {
    let grid = build_time_grid(1001).unwrap();
    assert_eq!(grid.len(), 1001);
    let den = grid.denominator();
    assert_eq!(den, 1000);
    assert_eq!(grid.numerator_at(0), -1000);
    assert_eq!(grid.numerator_at(1000), 1000);
    assert!((grid_x(grid.numerator_at(0), den) - (-PI)).abs() < 1e-12);
    assert!((grid_x(grid.numerator_at(1000), den) - PI).abs() < 1e-12);
}

#[test]
fn grid_endpoints_hold_for_various_sizes() {
    for count in [2usize, 3, 10, 101, 1001] {
        let grid = build_time_grid(count).unwrap();
        let den = grid.denominator();
        assert_eq!(den as usize, count - 1);
        assert!((grid_x(grid.numerator_at(0), den) - (-PI)).abs() < 1e-12);
        assert!((grid_x(grid.numerator_at(count - 1), den) - PI).abs() < 1e-12);
    }
}

#[test]
fn grid_is_strictly_increasing_by_constant_step() {
    let count: usize = 101;
    let grid = build_time_grid(count).unwrap();
    let den = grid.denominator();
    let step = 2.0 * PI / (count as f64 - 1.0);
    for i in 0..count - 1 {
        let a = grid.numerator_at(i);
        let b = grid.numerator_at(i + 1);
        assert_eq!(b, a + 2);
        assert!(grid_x(b, den) > grid_x(a, den));
        assert!((grid_x(b, den) - grid_x(a, den) - step).abs() < 1e-12);
    }
}

#[test]
fn grid_rejects_fewer_than_two_points() {
    assert_eq!(build_time_grid(0).unwrap_err(), SamplerError::InvalidGridSize);
    assert_eq!(build_time_grid(1).unwrap_err(), SamplerError::InvalidGridSize);
    assert!(build_time_grid(2).is_ok());
}

#[test]
fn grid_rejects_oversized_point_counts() {
    assert_eq!(
        build_time_grid(MAX_GRID_POINTS + 1).unwrap_err(),
        SamplerError::InvalidGridSize
    );
}
