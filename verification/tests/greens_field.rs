use num_complex::Complex64;
use std::f64::consts::PI;

use nzi_patches_rust::field::calculate_field_distributions;
use nzi_patches_rust::greens::calculate_greens_integral;

fn c(re: f64, im: f64) -> Complex64 {
    Complex64::new(re, im)
}

fn reals(v: &[f64]) -> Vec<Complex64> {
    v.iter().map(|&x| Complex64::new(x, 0.0)).collect()
}

/// Direct recomputation of the quadrature the evaluator documents.
fn greens_reference(theta: &[f64], z: &[f64], n0: &[f64], k0: f64) -> Complex64 {
    let n = z.len();
    if n < 2 {
        return c(0.0, 0.0);
    }
    let mut outer = c(0.0, 0.0);
    for i in 0..n {
        let bz = k0 * n0[i];
        let mut inner = c(0.0, 0.0);
        for j in 0..n {
            let green = if bz.abs() > 1e-9 {
                c(0.0, -1.0) / (2.0 * bz) * c(0.0, -bz * (z[i] - z[j]).abs()).exp()
            } else {
                c(0.0, 0.0)
            };
            let dzp = if j < n - 1 { z[j + 1] - z[j] } else { z[j] - z[j - 1] };
            inner += green * theta[j] * theta[i] * dzp;
        }
        let dz = if i < n - 1 { z[i + 1] - z[i] } else { z[i] - z[i - 1] };
        outer += inner * dz;
    }
    outer
}

#[test]
fn test_greens_matches_direct_quadrature() {
    let theta = [0.5, 1.0, 0.75];
    let z = [0.0, 0.4, 1.0];
    let n0 = [1.5, 2.0, 1.5];
    let k0 = 3.0;
    let got = calculate_greens_integral(&reals(&theta), &reals(&z), &reals(&n0), c(k0, 0.0));
    let expect = greens_reference(&theta, &z, &n0, k0);
    assert!((got - expect).norm() <= 1e-12 * expect.norm().max(1.0));
    assert!(got.norm() > 0.0);
}

#[test]
fn test_greens_short_grid_is_zero() {
    let got = calculate_greens_integral(&reals(&[1.0]), &reals(&[0.0]), &reals(&[1.0]), c(1.0, 0.0));
    assert_eq!(got, c(0.0, 0.0));
}

#[test]
fn test_greens_degenerate_beta_is_zero() {
    // k0 * n(z) stays below the 1e-9 floor, so every contribution is zero.
    let got = calculate_greens_integral(
        &reals(&[1.0, 1.0, 1.0]),
        &reals(&[0.0, 0.5, 1.0]),
        &reals(&[1e-12, 1e-12, 1e-12]),
        c(1.0, 0.0),
    );
    assert_eq!(got, c(0.0, 0.0));
}

#[test]
fn test_greens_symmetry_under_order_reversal() {
    // Uniform grid, theta and n symmetric about the midpoint: handing the
    // triples over in reversed order must leave the integral unchanged up
    // to roundoff.
    let n = 21usize;
    let z: Vec<f64> = (0..n).map(|i| i as f64 / (n - 1) as f64).collect();
    let theta: Vec<f64> = (0..n)
        .map(|i| 1.0 - (i as f64 / (n - 1) as f64 - 0.5).abs())
        .collect();
    let n0: Vec<f64> = vec![1.8; n];
    let k0 = 2.0 * PI / 1.55;

    let fwd = calculate_greens_integral(&reals(&theta), &reals(&z), &reals(&n0), c(k0, 0.0));

    let zr: Vec<f64> = z.iter().rev().cloned().collect();
    let thetar: Vec<f64> = theta.iter().rev().cloned().collect();
    let n0r: Vec<f64> = n0.iter().rev().cloned().collect();
    let rev = calculate_greens_integral(&reals(&thetar), &reals(&zr), &reals(&n0r), c(k0, 0.0));

    assert!((fwd - rev).norm() <= 1e-12 * fwd.norm().max(1.0));
}

#[test]
fn test_field_single_mode_is_plane_wave() {
    let a = 1e-6;
    let res = 5usize;
    let eigvecs = vec![vec![c(1.0, 0.0), c(0.0, 0.0), c(0.0, 0.0), c(0.0, 0.0)]];
    let fields = calculate_field_distributions(&eigvecs, c(a, 0.0), res);
    assert_eq!(fields.len(), 1);
    let beta0 = 2.0 * PI / a;
    for iy in 0..res {
        for ix in 0..res {
            let x = -a / 2.0 + ix as f64 * a / (res as f64 - 1.0);
            let expect = c(0.0, -beta0 * x).exp();
            assert!(
                (fields[0][iy][ix] - expect).norm() < 1e-9,
                "field at ({}, {})",
                iy,
                ix
            );
        }
    }
}

#[test]
fn test_field_superposition_and_shape() {
    let a = 2.5e-6;
    let res = 7usize;
    let v = vec![c(0.3, 0.1), c(-0.2, 0.4), c(0.0, 0.5), c(0.6, 0.0)];
    let eigvecs = vec![v.clone(), v.clone()];
    let fields = calculate_field_distributions(&eigvecs, c(a, 0.0), res);
    assert_eq!(fields.len(), 2);
    let beta0 = 2.0 * PI / a;
    for grid in &fields {
        assert_eq!(grid.len(), res);
        for row in grid {
            assert_eq!(row.len(), res);
        }
    }
    for iy in 0..res {
        for ix in 0..res {
            let x = -a / 2.0 + ix as f64 * a / (res as f64 - 1.0);
            let y = -a / 2.0 + iy as f64 * a / (res as f64 - 1.0);
            let expect = v[0] * c(0.0, -beta0 * x).exp() + v[1] * c(0.0, beta0 * x).exp()
                + v[2] * c(0.0, -beta0 * y).exp() + v[3] * c(0.0, beta0 * y).exp();
            assert!((fields[1][iy][ix] - expect).norm() <= 1e-9 * expect.norm().max(1.0));
        }
    }
}
