//! Fixed-point geometry: clamping, quantization of continuous world
//! coordinates to grid coordinates, and squared distances.
//!
//! World coordinates are milli-pixels (`i64`); the grid coordinate of a world
//! position is `(w + half_extent) / CELL_MPX`, truncated toward zero, as the
//! boundary between the continuous and the discrete coordinate space.

use vstd::prelude::*;
use crate::CELL_MPX;

verus! {

/// Truncating division by `CELL_MPX`, as `/` rounds in executable code.
pub open spec fn spec_div_cell(a: int) -> int {
    if a >= 0 {
        a / (CELL_MPX as int)
    } else {
        -((-a) / (CELL_MPX as int))
    }
}

/// `v` clamped into `[lo, hi]`.
pub open spec fn spec_clamp(v: int, lo: int, hi: int) -> int {
    if v < lo {
        lo
    } else if v > hi {
        hi
    } else {
        v
    }
}

/// Clamps `v` into `[lo, hi]`.
pub fn clamp_i64(v: i64, lo: i64, hi: i64) -> (r: i64)
    requires
        lo <= hi,
    ensures
        r == spec_clamp(v as int, lo as int, hi as int),
{
    if v < lo {
        lo
    } else if v > hi {
        hi
    } else {
        v
    }
}

/// The raw (unclamped) grid coordinate of world coordinate `w` on an axis
/// whose play-field half-extent is `half`: which cell-sized band `w` falls
/// in, counted from the low field edge, truncated toward zero.
pub open spec fn spec_grid_coord_raw(w: int, half: int) -> int {
    spec_div_cell(w + half)
}

/// Computes the raw grid coordinate of `w`; negative or too-large results
/// mean the position lies outside the grid.
pub fn grid_coord_raw(w: i64, half: i64) -> (r: i64)
    requires
        -100_000_000_000 <= w <= 100_000_000_000,
        0 <= half <= 100_000_000,
    ensures
        r == spec_grid_coord_raw(w as int, half as int),
{
    let shifted: i64 = w + half;
    if shifted >= 0 {
        shifted / CELL_MPX
    } else {
        -((-shifted) / CELL_MPX)
    }
}

/// The grid coordinate of `w` clamped into `[0, n)`, as every access from a
/// continuous position into the grid is clamped to a valid index.
pub open spec fn spec_grid_coord_clamped(w: int, half: int, n: int) -> int {
    spec_clamp(spec_grid_coord_raw(w, half), 0, n - 1)
}

/// Computes the grid coordinate of `w`, clamped into `[0, n)`.
pub fn grid_coord_clamped(w: i64, half: i64, n: usize) -> (r: usize)
    requires
        -100_000_000 <= w <= 100_000_000,
        0 <= half <= 100_000_000,
        1 <= n <= 1000,
    ensures
        r == spec_grid_coord_clamped(w as int, half as int, n as int),
        r < n,
{
    let raw = grid_coord_raw(w, half);
    let c = clamp_i64(raw, 0, (n - 1) as i64);
    c as usize
}

/// The squared Euclidean distance between two points.
pub open spec fn spec_dist_sq(ax: int, ay: int, bx: int, by: int) -> int {
    (ax - bx) * (ax - bx) + (ay - by) * (ay - by)
}

/// Computes the squared Euclidean distance between `(ax, ay)` and `(bx, by)`.
pub fn dist_sq(ax: i64, ay: i64, bx: i64, by: i64) -> (r: i64)
    requires
        -1_000_000 <= ax <= 1_000_000,
        -1_000_000 <= ay <= 1_000_000,
        -1_000_000 <= bx <= 1_000_000,
        -1_000_000 <= by <= 1_000_000,
    ensures
        r == spec_dist_sq(ax as int, ay as int, bx as int, by as int),
        r >= 0,
{
    let dx: i64 = ax - bx;
    let dy: i64 = ay - by;
    proof {
        assert(dx * dx <= 2_000_000 * 2_000_000 && dx * dx >= 0) by (nonlinear_arith)
            requires -2_000_000 <= dx <= 2_000_000;
        assert(dy * dy <= 2_000_000 * 2_000_000 && dy * dy >= 0) by (nonlinear_arith)
            requires -2_000_000 <= dy <= 2_000_000;
    }
    dx * dx + dy * dy
}

} // verus!
