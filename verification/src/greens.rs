//! Green's-integral evaluator.
//!
//! Computes the double spatial integral
//!   I = sum_i sum_j G(z_i, z_j) * theta(z_j) * theta(z_i) * w_j * w_i
//! with G(z, z') = -i/(2 beta(z)) * exp(-i beta(z) |z - z'|) and
//! beta(z) = k0 * n(z), by the composite trapezoidal-style rule on a
//! possibly non-uniform grid.  The local width w_j is the forward grid
//! difference, except at the last point, where it is the backward one.
//! beta is always taken at the outer integration variable z, never averaged
//! over the pair; and where |beta(z)| <= 10^-9 the Green's contribution of
//! that outer point is zero, so that no near-zero division occurs.
//!
//! The contract states the returned value as exactly this sum, written over
//! the named arithmetic operations of `cx` in the order the evaluator
//! applies them.

use vstd::prelude::*;
use num_complex::Complex64;

use crate::cx::{
    c_abs_re, c_add, c_div_sc, c_exp, c_from_int, c_lt, c_make, c_mul, c_neg, c_scale, c_sub,
    c_tol_block, sc_tol_block, spec_abs_re, spec_add, spec_div_sc, spec_exp, spec_from_int,
    spec_lt, spec_make, spec_mul, spec_neg, spec_scale, spec_sub,
};

verus! {

/// Local quadrature width of grid point `j`: the forward difference,
/// except at the last point, where it is the backward difference.
pub open spec fn grid_width(z: Seq<Complex64>, j: int) -> Complex64 {
    if j < z.len() - 1 {
        spec_sub(z[j + 1], z[j])
    } else {
        spec_sub(z[j], z[j - 1])
    }
}

/// One inner-sum term: the Green's factor for outer point `i`, times
/// theta at the inner point `j`, times theta at `i`, times the width of `j`.
pub open spec fn greens_term(
    theta: Seq<Complex64>,
    z: Seq<Complex64>,
    n0: Seq<Complex64>,
    k0: Complex64,
    i: int,
    j: int,
) -> Complex64 {
    let bz = spec_mul(k0, n0[i]);
    let green = if spec_lt(sc_tol_block(), spec_abs_re(bz)) {
        spec_mul(
            spec_div_sc(
                spec_make(spec_from_int(0), spec_from_int(-1)),
                spec_mul(spec_from_int(2), bz),
            ),
            spec_exp(
                spec_make(
                    spec_from_int(0),
                    spec_mul(spec_neg(bz), spec_abs_re(spec_sub(z[i], z[j]))),
                ),
            ),
        )
    } else {
        spec_from_int(0)
    };
    spec_scale(spec_scale(spec_scale(green, theta[j]), theta[i]), grid_width(z, j))
}

/// The inner integral over the first `cnt` grid points, for outer point `i`.
pub open spec fn greens_inner(
    theta: Seq<Complex64>,
    z: Seq<Complex64>,
    n0: Seq<Complex64>,
    k0: Complex64,
    i: int,
    cnt: int,
) -> Complex64
    decreases cnt,
{
    if cnt <= 0 {
        spec_from_int(0)
    } else {
        spec_add(
            greens_inner(theta, z, n0, k0, i, cnt - 1),
            greens_term(theta, z, n0, k0, i, cnt - 1),
        )
    }
}

/// The outer integral over the first `cnt` grid points.
pub open spec fn greens_outer(
    theta: Seq<Complex64>,
    z: Seq<Complex64>,
    n0: Seq<Complex64>,
    k0: Complex64,
    cnt: int,
) -> Complex64
    decreases cnt,
{
    if cnt <= 0 {
        spec_from_int(0)
    } else {
        spec_add(
            greens_outer(theta, z, n0, k0, cnt - 1),
            spec_scale(
                greens_inner(theta, z, n0, k0, cnt - 1, z.len() as int),
                grid_width(z, cnt - 1),
            ),
        )
    }
}

/// The full Green's integral; the converted zero when the grid has fewer
/// than two points.
pub open spec fn greens_spec(
    theta: Seq<Complex64>,
    z: Seq<Complex64>,
    n0: Seq<Complex64>,
    k0: Complex64,
) -> Complex64 {
    if z.len() < 2 {
        spec_from_int(0)
    } else {
        greens_outer(theta, z, n0, k0, z.len() as int)
    }
}

/// Evaluates the Green's double integral of the guided-mode profile.
///
/// The three sequences are parallel: theta values, grid positions and local
/// refractive indices, all real-valued.
pub fn calculate_greens_integral(
    theta_z: &Vec<Complex64>,
    z_grid: &Vec<Complex64>,
    n0_z: &Vec<Complex64>,
    k0: Complex64,
) -> (r: Complex64)
    requires
        theta_z@.len() == z_grid@.len(),
        n0_z@.len() == z_grid@.len(),
    ensures
        r == greens_spec(theta_z@, z_grid@, n0_z@, k0),
{
    let n = z_grid.len();
    if n < 2 {
        return c_from_int(0);
    }
    let tol = c_tol_block();
    let mut outer = c_from_int(0);
    let mut i: usize = 0;
    while i < n
        invariant
            2 <= n,
            n == z_grid@.len(),
            theta_z@.len() == n,
            n0_z@.len() == n,
            i <= n,
            tol == sc_tol_block(),
            outer == greens_outer(theta_z@, z_grid@, n0_z@, k0, i as int),
        decreases n - i,
    {
        let bz = c_mul(k0, n0_z[i]);
        let mut inner = c_from_int(0);
        let mut j: usize = 0;
        while j < n
            invariant
                2 <= n,
                n == z_grid@.len(),
                theta_z@.len() == n,
                n0_z@.len() == n,
                i < n,
                j <= n,
                tol == sc_tol_block(),
                bz == spec_mul(k0, n0_z@[i as int]),
                inner == greens_inner(theta_z@, z_grid@, n0_z@, k0, i as int, j as int),
            decreases n - j,
        {
            let green = if c_lt(tol, c_abs_re(bz)) {
                let minus_i = c_make(c_from_int(0), c_from_int(-1));
                let denom = c_mul(c_from_int(2), bz);
                let dist = c_abs_re(c_sub(z_grid[i], z_grid[j]));
                let phase = c_make(c_from_int(0), c_mul(c_neg(bz), dist));
                c_mul(c_div_sc(minus_i, denom), c_exp(phase))
            } else {
                c_from_int(0)
            };
            let dzp = if j < n - 1 {
                c_sub(z_grid[j + 1], z_grid[j])
            } else {
                c_sub(z_grid[j], z_grid[j - 1])
            };
            let term_val = c_scale(c_scale(c_scale(green, theta_z[j]), theta_z[i]), dzp);
            assert(term_val == greens_term(theta_z@, z_grid@, n0_z@, k0, i as int, j as int));
            inner = c_add(inner, term_val);
            j = j + 1;
        }
        let dz = if i < n - 1 {
            c_sub(z_grid[i + 1], z_grid[i])
        } else {
            c_sub(z_grid[i], z_grid[i - 1])
        };
        outer = c_add(outer, c_scale(inner, dz));
        i = i + 1;
    }
    outer
}

} // verus!
