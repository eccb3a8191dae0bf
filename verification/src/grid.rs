//! The uniform time grid over `[-pi, pi]`.
//!
//! A grid of `n` points has `grid[i] = -pi + i * (2*pi / (n - 1))`, that is
//! `grid[i] = pi * (2*i - (n - 1)) / (n - 1)`.  Every point is an exact
//! rational multiple of pi, so the grid is represented by the integer
//! numerators `2*i - (n - 1)` over the shared denominator `n - 1`; no
//! rounding enters.  The endpoints are exactly `-pi` and `pi`, and
//! consecutive numerators differ by the constant step `2`.

use crate::error::SamplerError;
use vstd::prelude::*;

verus! {

/// Largest accepted number of grid points; keeps every numerator and all
/// downstream fixed-point products comfortably inside machine integers.
pub const MAX_GRID_POINTS: usize = 10_000_001;

/// A uniform time grid: point `i` is `pi * nums[i] / den`.
#[derive(Debug)]
pub struct TimeGrid {
    nums: Vec<i64>,
    den: i64,
}

impl View for TimeGrid {
    type V = Seq<int>;

    /// The sequence of numerators; point `i` is `pi * self@[i] / den`.
    closed spec fn view(&self) -> Seq<int> {
        self.nums@.map(|_i: int, v: i64| v as int)
    }
}

impl TimeGrid {
    /// The shared denominator: one less than the point count.
    pub closed spec fn den_spec(&self) -> int {
        self.den as int
    }

    /// Well-formedness: at least two points, and numerator `i` is exactly
    /// `2*i - (n - 1)` over the denominator `n - 1`.
    pub open spec fn wf(&self) -> bool {
        &&& 1 <= self.den_spec()
        &&& 2 <= self@.len() <= MAX_GRID_POINTS
        &&& self.den_spec() == self@.len() - 1
        &&& forall|i: int| 0 <= i < self@.len() ==> self@[i] == 2 * i - self.den_spec()
    }

    /// Number of grid points.
    pub fn len(&self) -> (n: usize)
        ensures
            n == self@.len(),
    {
        self.nums.len()
    }

    /// The shared denominator of all grid points.
    pub fn denominator(&self) -> (d: i64)
        ensures
            d == self.den_spec(),
    {
        self.den
    }

    /// The numerator of point `i` (the point itself is `pi * num / den`).
    pub fn numerator_at(&self, i: usize) -> (v: i64)
        requires
            i < self@.len(),
        ensures
            v == self@[i as int],
    {
        self.nums[i]
    }
}

/// Builds the uniform grid of `count` points over `[-pi, pi]`, both endpoints
/// included.  Grids of fewer than two points are rejected (their spacing
/// would divide by zero), as are grids too large for the machine.
pub fn build_time_grid(count: usize) -> (r: Result<TimeGrid, SamplerError>)
    ensures
        (2 <= count <= MAX_GRID_POINTS) <==> r is Ok,
        r is Ok ==> r->Ok_0.wf() && r->Ok_0@.len() == count,
        r is Err ==> r->Err_0 == SamplerError::InvalidGridSize,
{
    if count < 2 || count > MAX_GRID_POINTS {
        return Err(SamplerError::InvalidGridSize);
    }
    let den: i64 = (count - 1) as i64;
    let mut nums: Vec<i64> = Vec::new();
    let mut i: usize = 0;
    while i < count
        invariant
            i <= count,
            2 <= count <= MAX_GRID_POINTS,
            den == count - 1,
            nums@.len() == i,
            forall|j: int| 0 <= j < i ==> nums@[j] == 2 * j - (den as int),
        decreases count - i,
    {
        let v: i64 = 2 * (i as i64) - den;
        nums.push(v);
        i = i + 1;
    }
    Ok(TimeGrid { nums, den })
}

/// Grid endpoints: the first point of a well-formed grid is exactly `-pi`
/// (numerator `-den`) and the last exactly `pi` (numerator `den`).
pub proof fn lemma_grid_endpoints(g: &TimeGrid)
    requires
        g.wf(),
    ensures
        g@[0] == -g.den_spec(),
        g@[g@.len() - 1] == g.den_spec(),
{
}

/// Grid monotonicity: consecutive points of a well-formed grid are strictly
/// increasing by the constant numerator step `2`, that is by the constant
/// time step `2*pi / (n - 1)`.
pub proof fn lemma_grid_uniform_step(g: &TimeGrid)
    requires
        g.wf(),
    ensures
        forall|i: int| 0 <= i < g@.len() - 1 ==> #[trigger] g@[i + 1] == g@[i] + 2,
        forall|i: int| 0 <= i < g@.len() - 1 ==> g@[i] < #[trigger] g@[i + 1],
{
}

} // verus!
