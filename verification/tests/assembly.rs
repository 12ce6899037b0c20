use num_complex::Complex64;
use std::f64::consts::PI;

use nzi_patches_rust::assemble::{construct_cwt_matrices, xi_lookup, CwtParams, XiCoeff};
use nzi_patches_rust::cx::matrix_add;
use nzi_patches_rust::greens::calculate_greens_integral;

fn c(re: f64, im: f64) -> Complex64 {
    Complex64::new(re, im)
}

fn reals(v: &[f64]) -> Vec<Complex64> {
    v.iter().map(|&x| Complex64::new(x, 0.0)).collect()
}

fn base_params(xi: Vec<XiCoeff>) -> CwtParams {
    CwtParams {
        xi,
        n_eff: c(2.0, 0.0),
        theta_z: reals(&[1.0, 1.0]),
        z_grid: reals(&[0.0, 1.0]),
        n0_z: reals(&[1.0, 1.0]),
        a: c(1.0, 0.0),
        lambda0: c(1.55, 0.0),
        conf: c(0.5, 0.0),
        d_trunc: 1,
    }
}

#[test]
fn test_construct_matrices() {
    let params = base_params(Vec::new());
    let (c1, _cr, _c2) = construct_cwt_matrices(&params);
    assert_eq!(c1.len(), 4);
    assert!(c1.iter().all(|row| row.len() == 4));
}

#[test]
fn test_all_three_matrices_are_4x4_for_any_coefficients() {
    let maps = vec![
        Vec::new(),
        vec![XiCoeff { m: 7, n: -3, val: c(9.0, 9.0) }],
        vec![
            XiCoeff { m: 1, n: 0, val: c(0.01, 0.0) },
            XiCoeff { m: 0, n: 2, val: c(0.02, -0.01) },
        ],
    ];
    for xi in maps {
        let params = base_params(xi);
        let (c1, cr, c2) = construct_cwt_matrices(&params);
        for m in [&c1, &cr, &c2] {
            assert_eq!(m.len(), 4);
            for row in m.iter() {
                assert_eq!(row.len(), 4);
            }
        }
    }
}

#[test]
fn test_inplane_structure() {
    let xi_20 = c(0.02, 0.005);
    let xi_02 = c(0.03, -0.01);
    let gamma = 0.7;
    let mut params = base_params(vec![
        XiCoeff { m: 2, n: 0, val: xi_20 },
        XiCoeff { m: 0, n: 2, val: xi_02 },
    ]);
    params.conf = c(gamma, 0.0);
    let (c1, _, _) = construct_cwt_matrices(&params);

    let k0 = 2.0 * PI / 1.55;
    let beta0 = 2.0 * PI / 1.0;
    let prefactor = k0.powi(2) / (2.0 * beta0);
    let kappa_x = -Complex64::new(prefactor, 0.0) * xi_20 * gamma;
    let kappa_y = -Complex64::new(prefactor, 0.0) * xi_02 * gamma;

    assert!((c1[0][1] - kappa_x).norm() <= 1e-12 * kappa_x.norm());
    assert!((c1[1][0] - kappa_x.conj()).norm() <= 1e-12 * kappa_x.norm());
    assert!((c1[2][3] - kappa_y).norm() <= 1e-12 * kappa_y.norm());
    assert!((c1[3][2] - kappa_y.conj()).norm() <= 1e-12 * kappa_y.norm());
    for i in 0..4 {
        for j in 0..4 {
            let anti = (i == 0 && j == 1) || (i == 1 && j == 0) || (i == 2 && j == 3) || (i == 3
                && j == 2);
            if !anti {
                assert_eq!(c1[i][j], c(0.0, 0.0), "entry ({}, {}) must be zero", i, j);
            }
        }
    }
}

#[test]
fn test_radiative_outer_product() {
    let xi_10 = c(0.01, 0.002);
    let xi_01 = c(0.015, -0.001);
    let params = base_params(vec![
        XiCoeff { m: 1, n: 0, val: xi_10 },
        XiCoeff { m: 0, n: 1, val: xi_01 },
    ]);
    let (_, cr, _) = construct_cwt_matrices(&params);

    // Direct recomputation of every entry from the documented table.
    let k0 = 2.0 * PI / 1.55;
    let beta0 = 2.0 * PI / 1.0;
    let g_int = calculate_greens_integral(&params.theta_z, &params.z_grid, &params.n0_z, c(k0, 0.0));
    let k0_sq = k0 * k0;
    let k0_p4 = k0_sq * k0_sq;
    let zeta = -Complex64::new(k0_p4 / (2.0 * beta0), 0.0) * g_int;
    let row = [xi_10, xi_10.conj(), xi_01, xi_01.conj()];
    let col = [xi_10.conj(), xi_10, xi_01.conj(), xi_01];
    for i in 0..4 {
        for j in 0..4 {
            let expect = zeta * row[i] * col[j];
            assert_eq!(cr[i][j], expect, "radiative entry ({}, {})", i, j);
        }
    }
}

#[test]
fn test_missing_coefficients_default_to_zero() {
    let params = base_params(vec![XiCoeff { m: 5, n: 5, val: c(1.0, 1.0) }]);
    let (c1, cr, _) = construct_cwt_matrices(&params);
    for i in 0..4 {
        for j in 0..4 {
            assert_eq!(c1[i][j], c(0.0, 0.0));
            assert_eq!(cr[i][j], c(0.0, 0.0));
        }
    }
    assert_eq!(xi_lookup(&params.xi, 5, 5), c(1.0, 1.0));
    assert_eq!(xi_lookup(&params.xi, 1, 0), c(0.0, 0.0));
}

#[test]
fn test_lookup_first_match_wins() {
    let xi = vec![
        XiCoeff { m: 1, n: 0, val: c(0.5, 0.0) },
        XiCoeff { m: 1, n: 0, val: c(9.0, 9.0) },
    ];
    assert_eq!(xi_lookup(&xi, 1, 0), c(0.5, 0.0));
}

#[test]
fn test_matrix_add_elementwise() {
    let a: Vec<Vec<Complex64>> = (0..4)
        .map(|i| (0..4).map(|j| c(i as f64, j as f64)).collect())
        .collect();
    let b: Vec<Vec<Complex64>> = (0..4)
        .map(|i| (0..4).map(|j| c(10.0 * i as f64, -(j as f64))).collect())
        .collect();
    let s = matrix_add(&a, &b);
    for i in 0..4 {
        for j in 0..4 {
            assert_eq!(s[i][j], a[i][j] + b[i][j]);
        }
    }
}
