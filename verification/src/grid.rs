//! The sampling grid of the worst-case error metric.
//!
//! The metric samples the input domain `[1.0, 4.0]` at every multiple of
//! `1/10000`, endpoints included: steps `10000 ..= 40000`, each divided by
//! `10000` to give the sample.  One factor of four covers a full period of
//! the approximation's relative-error curve, so the worst case over this
//! grid bounds the worst case over the whole positive domain.

use vstd::prelude::*;

verus! {

/// First step of the sampling grid (the sample `1.0`).
pub const GRID_FIRST_STEP: u32 = 10000;

/// Last step of the sampling grid (the sample `4.0`).
pub const GRID_LAST_STEP: u32 = 40000;

/// Denominator turning a step into a sample value.
pub const GRID_DENOMINATOR: u32 = 10000;

/// Number of samples in the grid, endpoints included.
pub const SAMPLE_COUNT: usize = 30001;

/// All steps of the sampling grid, in increasing order.
pub fn sample_steps() -> (r: Vec<u32>)
    ensures
        r@.len() == SAMPLE_COUNT,
        forall|i: int| 0 <= i < r@.len() ==> r@[i] == GRID_FIRST_STEP + i,
{
    let mut v: Vec<u32> = Vec::new();
    let mut step: u32 = GRID_FIRST_STEP;
    while step <= GRID_LAST_STEP
        invariant
            GRID_FIRST_STEP <= step <= GRID_LAST_STEP + 1,
            v@.len() == step - GRID_FIRST_STEP,
            forall|i: int| 0 <= i < v@.len() ==> v@[i] == GRID_FIRST_STEP + i,
        decreases GRID_LAST_STEP + 1 - step,
    {
        v.push(step);
        step = step + 1;
    }
    v
}

} // verus!
