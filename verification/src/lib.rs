//! Harmonic sampling of mechanical-vibration curves in fixed-point arithmetic.
//!
//! The library evaluates two closed-form trigonometric sums over a uniform
//! time grid spanning one period `[-pi, pi]`: a single-harmonic reference
//! curve and an N-harmonic superposed curve.  All quantities are held as
//! scaled integers so that every step of the evaluation carries an exact
//! contract: time-grid points are exact rational multiples of pi, model
//! coefficients are exact multiples of `10^-15`, and the cosine is a
//! fixed-point Taylor evaluation whose value is pinned down precisely.

pub mod error;
pub mod grid;
pub mod sampler;
pub mod trig;

pub use error::SamplerError;
pub use grid::{build_time_grid, TimeGrid, MAX_GRID_POINTS};
pub use sampler::{
    recompute, reference_curve, standard_masses, standard_radii, superposed_curve, CurvePoint,
    SampledCurve, COEF_ONE, COEF_LIMIT, GRID_POINTS, MAX_HARMONICS, MULTIPLIER_LIMIT, OMEGA_LIMIT,
};
pub use trig::{cosine_fixed, COS_BOUND, FIXED_ONE, PI_FIXED, TWO_PI_FIXED};
