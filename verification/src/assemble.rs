//! Coupling-matrix assembler.
//!
//! From the Fourier susceptibility coefficients, the guided-mode profile and
//! the scalar parameters, builds the three 4x4 matrices of the coupled-wave
//! model over the basis (Rx, Sx, Ry, Sy):
//!
//! * the in-plane matrix, whose only nonzero entries are the second-order
//!   couplings kappa_x between (Rx, Sx) and kappa_y between (Ry, Sy), each
//!   mirrored as its complex conjugate;
//! * the radiative matrix, every entry of which is the product of the zeta
//!   factor (which carries the Green's integral), a first-order row factor
//!   and a first-order column factor;
//! * the two-dimensional coupling matrix, a reserved extension point that
//!   is currently always zero and that callers still add into the total.
//!
//! A coefficient that the list does not hold counts as zero; no input is
//! rejected on that account.

use vstd::prelude::*;
use num_complex::Complex64;

use crate::cx::{
    c_conj, c_div_sc, c_from_int, c_mul, c_neg, c_pi, c_powi, c_scale, is_matrix, rows_view,
    sc_pi, spec_conj, spec_div_sc, spec_from_int, spec_mul, spec_neg, spec_powi, spec_scale,
    zero_matrix,
};
use crate::greens::{calculate_greens_integral, greens_spec};

verus! {

/// One Fourier susceptibility coefficient xi_{m,n}.
#[derive(Clone, Copy)]
pub struct XiCoeff {
    pub m: i32,
    pub n: i32,
    pub val: Complex64,
}

/// The inputs of one coupled-wave solve: coefficient list, guided-mode
/// profile (three parallel real-valued sequences), and scalar parameters.
pub struct CwtParams {
    pub xi: Vec<XiCoeff>,
    pub n_eff: Complex64,
    pub theta_z: Vec<Complex64>,
    pub z_grid: Vec<Complex64>,
    pub n0_z: Vec<Complex64>,
    pub a: Complex64,
    pub lambda0: Complex64,
    pub conf: Complex64,
    pub d_trunc: i32,
}

impl CwtParams {
    /// The three profile sequences are parallel, as the mode solver hands
    /// them out.
    pub open spec fn wf(self) -> bool {
        self.theta_z@.len() == self.z_grid@.len() && self.n0_z@.len() == self.z_grid@.len()
    }
}

/// The first coefficient of the list with indices (m, n); the converted
/// zero when the list holds none.
pub open spec fn xi_lookup_spec(xi: Seq<XiCoeff>, m: int, n: int) -> Complex64
    decreases xi.len(),
{
    if xi.len() == 0 {
        spec_from_int(0)
    } else if xi[0].m == m && xi[0].n == n {
        xi[0].val
    } else {
        xi_lookup_spec(xi.skip(1), m, n)
    }
}

/// Finds the coefficient xi_{m,n}, defaulting to zero when absent.
pub fn xi_lookup(xi: &Vec<XiCoeff>, m: i32, n: i32) -> (r: Complex64)
    ensures
        r == xi_lookup_spec(xi@, m as int, n as int),
{
    let mut i: usize = 0;
    proof {
        assert(xi@.skip(0) =~= xi@);
    }
    while i < xi.len()
        invariant
            i <= xi@.len(),
            xi_lookup_spec(xi@, m as int, n as int) == xi_lookup_spec(
                xi@.skip(i as int),
                m as int,
                n as int,
            ),
        decreases xi@.len() - i,
    {
        if xi[i].m == m && xi[i].n == n {
            return xi[i].val;
        }
        proof {
            assert(xi@.skip(i as int).skip(1) =~= xi@.skip(i as int + 1));
        }
        i = i + 1;
    }
    c_from_int(0)
}

/// The vacuum wavenumber 2 pi / lambda0.
pub open spec fn k0_spec(p: CwtParams) -> Complex64 {
    spec_div_sc(spec_mul(spec_from_int(2), sc_pi()), p.lambda0)
}

/// The lattice wavenumber 2 pi / a.
pub open spec fn beta0_spec(p: CwtParams) -> Complex64 {
    spec_div_sc(spec_mul(spec_from_int(2), sc_pi()), p.a)
}

/// The in-plane prefactor k0^2 / (2 beta0).
pub open spec fn prefactor_spec(p: CwtParams) -> Complex64 {
    spec_div_sc(spec_powi(k0_spec(p), 2), spec_mul(spec_from_int(2), beta0_spec(p)))
}

/// kappa_x = -(k0^2 / 2 beta0) * xi_{2,0} * gamma.
pub open spec fn kappa_x_spec(p: CwtParams) -> Complex64 {
    spec_scale(spec_mul(spec_neg(prefactor_spec(p)), xi_lookup_spec(p.xi@, 2, 0)), p.conf)
}

/// kappa_y = -(k0^2 / 2 beta0) * xi_{0,2} * gamma.
pub open spec fn kappa_y_spec(p: CwtParams) -> Complex64 {
    spec_scale(spec_mul(spec_neg(prefactor_spec(p)), xi_lookup_spec(p.xi@, 0, 2)), p.conf)
}

/// The Green's integral of the profile at the vacuum wavenumber.
pub open spec fn g_int_spec(p: CwtParams) -> Complex64 {
    greens_spec(p.theta_z@, p.z_grid@, p.n0_z@, k0_spec(p))
}

/// zeta = -(k0^4 / 2 beta0) * I, with I the Green's integral.
pub open spec fn zeta_spec(p: CwtParams) -> Complex64 {
    spec_mul(
        spec_neg(spec_div_sc(spec_powi(k0_spec(p), 4), spec_mul(spec_from_int(2), beta0_spec(p)))),
        g_int_spec(p),
    )
}

/// Row factor of the radiative table: xi_{1,0}, its conjugate, xi_{0,1},
/// its conjugate, in the basis order (Rx, Sx, Ry, Sy).
pub open spec fn rad_row_spec(p: CwtParams, i: int) -> Complex64 {
    if i == 0 {
        xi_lookup_spec(p.xi@, 1, 0)
    } else if i == 1 {
        spec_conj(xi_lookup_spec(p.xi@, 1, 0))
    } else if i == 2 {
        xi_lookup_spec(p.xi@, 0, 1)
    } else {
        spec_conj(xi_lookup_spec(p.xi@, 0, 1))
    }
}

/// Column factor of the radiative table: the conjugate pattern of the row
/// factor, as the source table of the model prescribes.
pub open spec fn rad_col_spec(p: CwtParams, j: int) -> Complex64 {
    if j == 0 {
        spec_conj(xi_lookup_spec(p.xi@, 1, 0))
    } else if j == 1 {
        xi_lookup_spec(p.xi@, 1, 0)
    } else if j == 2 {
        spec_conj(xi_lookup_spec(p.xi@, 0, 1))
    } else {
        xi_lookup_spec(p.xi@, 0, 1)
    }
}

/// One radiative entry: zeta times row factor times column factor.
pub open spec fn rad_entry_spec(p: CwtParams, i: int, j: int) -> Complex64 {
    spec_mul(spec_mul(zeta_spec(p), rad_row_spec(p, i)), rad_col_spec(p, j))
}

/// Builds a 4-entry row.
fn row4(a: Complex64, b: Complex64, c: Complex64, d: Complex64) -> (r: Vec<Complex64>)
    ensures
        r@.len() == 4,
        r@[0] == a,
        r@[1] == b,
        r@[2] == c,
        r@[3] == d,
{
    let mut v: Vec<Complex64> = Vec::new();
    v.push(a);
    v.push(b);
    v.push(c);
    v.push(d);
    v
}

/// Builds a 4x4 matrix from its rows.
fn mat4(r0: Vec<Complex64>, r1: Vec<Complex64>, r2: Vec<Complex64>, r3: Vec<Complex64>) -> (m: Vec<
    Vec<Complex64>,
>)
    requires
        r0@.len() == 4,
        r1@.len() == 4,
        r2@.len() == 4,
        r3@.len() == 4,
    ensures
        is_matrix(rows_view(m@), 4, 4),
        rows_view(m@)[0] == r0@,
        rows_view(m@)[1] == r1@,
        rows_view(m@)[2] == r2@,
        rows_view(m@)[3] == r3@,
{
    let mut m: Vec<Vec<Complex64>> = Vec::new();
    m.push(r0);
    m.push(r1);
    m.push(r2);
    m.push(r3);
    m
}

/// Assembles the in-plane, radiative and two-dimensional coupling matrices.
///
/// Whatever the coefficient list holds, three 4x4 matrices come back: the
/// in-plane matrix carries kappa_x at (0,1), its conjugate at (1,0),
/// kappa_y at (2,3), its conjugate at (3,2) and zero elsewhere; every
/// radiative entry is the zeta-scaled product of its row and column factor;
/// and the two-dimensional matrix is all zero.
pub fn construct_cwt_matrices(params: &CwtParams) -> (r: (
    Vec<Vec<Complex64>>,
    Vec<Vec<Complex64>>,
    Vec<Vec<Complex64>>,
))
    requires
        params.wf(),
    ensures
        is_matrix(rows_view(r.0@), 4, 4),
        is_matrix(rows_view(r.1@), 4, 4),
        is_matrix(rows_view(r.2@), 4, 4),
        rows_view(r.0@)[0][1] == kappa_x_spec(*params),
        rows_view(r.0@)[1][0] == spec_conj(kappa_x_spec(*params)),
        rows_view(r.0@)[2][3] == kappa_y_spec(*params),
        rows_view(r.0@)[3][2] == spec_conj(kappa_y_spec(*params)),
        forall|i: int, j: int|
            0 <= i < 4 && 0 <= j < 4 && !(i == 0 && j == 1) && !(i == 1 && j == 0) && !(i == 2
                && j == 3) && !(i == 3 && j == 2) ==> rows_view(r.0@)[i][j] == spec_from_int(0),
        forall|i: int, j: int|
            0 <= i < 4 && 0 <= j < 4 ==> rows_view(r.1@)[i][j] == rad_entry_spec(*params, i, j),
        forall|i: int, j: int|
            0 <= i < 4 && 0 <= j < 4 ==> rows_view(r.2@)[i][j] == spec_from_int(0),
{
    let two = c_from_int(2);
    let pi = c_pi();
    let k0 = c_div_sc(c_mul(two, pi), params.lambda0);
    let beta0 = c_div_sc(c_mul(two, pi), params.a);
    let prefactor = c_div_sc(c_powi(k0, 2), c_mul(two, beta0));

    let xi_20 = xi_lookup(&params.xi, 2, 0);
    let xi_02 = xi_lookup(&params.xi, 0, 2);
    let gamma = params.conf;

    let kappa_x = c_scale(c_mul(c_neg(prefactor), xi_20), gamma);
    let kappa_y = c_scale(c_mul(c_neg(prefactor), xi_02), gamma);
    let kappa_x_c = c_conj(kappa_x);
    let kappa_y_c = c_conj(kappa_y);

    let z = c_from_int(0);
    let c_1d = mat4(
        row4(z, kappa_x, z, z),
        row4(kappa_x_c, z, z, z),
        row4(z, z, z, kappa_y),
        row4(z, z, kappa_y_c, z),
    );

    let g_int = calculate_greens_integral(&params.theta_z, &params.z_grid, &params.n0_z, k0);
    let zeta = c_mul(c_neg(c_div_sc(c_powi(k0, 4), c_mul(two, beta0))), g_int);

    let xi_10 = xi_lookup(&params.xi, 1, 0);
    let xi_m10 = c_conj(xi_10);
    let xi_01 = xi_lookup(&params.xi, 0, 1);
    let xi_m01 = c_conj(xi_01);

    let c_rad = mat4(
        row4(
            c_mul(c_mul(zeta, xi_10), xi_m10),
            c_mul(c_mul(zeta, xi_10), xi_10),
            c_mul(c_mul(zeta, xi_10), xi_m01),
            c_mul(c_mul(zeta, xi_10), xi_01),
        ),
        row4(
            c_mul(c_mul(zeta, xi_m10), xi_m10),
            c_mul(c_mul(zeta, xi_m10), xi_10),
            c_mul(c_mul(zeta, xi_m10), xi_m01),
            c_mul(c_mul(zeta, xi_m10), xi_01),
        ),
        row4(
            c_mul(c_mul(zeta, xi_01), xi_m10),
            c_mul(c_mul(zeta, xi_01), xi_10),
            c_mul(c_mul(zeta, xi_01), xi_m01),
            c_mul(c_mul(zeta, xi_01), xi_01),
        ),
        row4(
            c_mul(c_mul(zeta, xi_m01), xi_m10),
            c_mul(c_mul(zeta, xi_m01), xi_10),
            c_mul(c_mul(zeta, xi_m01), xi_m01),
            c_mul(c_mul(zeta, xi_m01), xi_01),
        ),
    );

    let c_2d = zero_matrix(4);

    (c_1d, c_rad, c_2d)
}

} // verus!
