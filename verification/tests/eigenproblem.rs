use num_complex::Complex64;

use nzi_patches_rust::assemble::{construct_cwt_matrices, CwtParams, XiCoeff};
use nzi_patches_rust::cx::matrix_add;
use nzi_patches_rust::eigen::solve_cwt_eigenproblem;

fn c(re: f64, im: f64) -> Complex64 {
    Complex64::new(re, im)
}

fn reals(v: &[f64]) -> Vec<Complex64> {
    v.iter().map(|&x| Complex64::new(x, 0.0)).collect()
}

fn mat(entries: [[f64; 4]; 4]) -> Vec<Vec<Complex64>> {
    entries
        .iter()
        .map(|row| row.iter().map(|&x| Complex64::new(x, 0.0)).collect())
        .collect()
}

fn vec_norm(v: &[Complex64]) -> f64 {
    v.iter().map(|x| x.norm_sqr()).sum::<f64>().sqrt()
}

fn residual(cm: &[Vec<Complex64>], lambda: Complex64, v: &[Complex64]) -> f64 {
    let mut s = 0.0;
    for i in 0..4 {
        let mut cv = c(0.0, 0.0);
        for j in 0..4 {
            cv += cm[i][j] * v[j];
        }
        s += (cv - lambda * v[i]).norm_sqr();
    }
    s.sqrt()
}

#[test]
fn test_roundtrip_diagonal_matrix() {
    let cm = mat([
        [1.0, 0.0, 0.0, 0.0],
        [0.0, 2.0, 0.0, 0.0],
        [0.0, 0.0, -3.0, 0.0],
        [0.0, 0.0, 0.0, 4.0],
    ]);
    let (vals, vecs) = solve_cwt_eigenproblem(&cm);
    assert_eq!(vals.len(), 4);
    assert_eq!(vecs.len(), 4);
    for target in [1.0, 2.0, -3.0, 4.0] {
        assert!(
            vals.iter().any(|l| (l - c(target, 0.0)).norm() <= 1e-6 * target.abs()),
            "eigenvalue {} not recovered; got {:?}",
            target,
            vals
        );
    }
    for k in 0..4 {
        assert!(vecs[k].len() == 4);
        assert!(residual(&cm, vals[k], &vecs[k]) < 1e-6, "residual of pair {}", k);
    }
}

#[test]
fn test_zero_matrix_full_degeneracy() {
    let cm = mat([[0.0; 4]; 4]);
    let (vals, vecs) = solve_cwt_eigenproblem(&cm);
    assert_eq!(vals.len(), 4);
    assert_eq!(vecs.len(), 4);
    for k in 0..4 {
        assert!(vals[k].norm() < 1e-9, "eigenvalue {} of the zero matrix", k);
        assert_eq!(vecs[k].len(), 4);
    }
}

#[test]
fn test_conjugate_pair_and_reals() {
    // Eigenvalues of this real matrix: i, -i, 2, 3.
    let cm = mat([
        [0.0, 1.0, 0.0, 0.0],
        [-1.0, 0.0, 0.0, 0.0],
        [0.0, 0.0, 2.0, 0.0],
        [0.0, 0.0, 0.0, 3.0],
    ]);
    let (vals, vecs) = solve_cwt_eigenproblem(&cm);
    assert_eq!(vals.len(), 4);

    // Sorted ascending by imaginary part.
    for k in 0..3 {
        assert!(vals[k].im <= vals[k + 1].im + 1e-12);
    }
    // The low-loss member of the conjugate pair is recovered...
    assert!(
        vals.iter().any(|l| (l - c(0.0, -1.0)).norm() <= 1e-6),
        "conjugate-pair member with negative imaginary part missing: {:?}",
        vals
    );
    // ... and every returned pair is a normalized eigenpair.
    for k in 0..4 {
        let nm = vec_norm(&vecs[k]);
        if nm > 0.5 {
            assert!((nm - 1.0).abs() <= 1e-6, "vector {} not unit", k);
            assert!(residual(&cm, vals[k], &vecs[k]) < 1e-6, "residual of pair {}", k);
        }
    }
}

#[test]
fn test_unit_norm_of_recovered_vectors() {
    let cm = mat([
        [0.0, 2.0, 0.0, 0.0],
        [-2.0, 0.0, 0.0, 0.0],
        [0.0, 0.0, 1.5, 0.5],
        [0.0, 0.0, 0.0, -0.5],
    ]);
    let (_vals, vecs) = solve_cwt_eigenproblem(&cm);
    for v in &vecs {
        let nm = vec_norm(v);
        assert!(nm < 1e-12 || (nm - 1.0).abs() <= 1e-6);
    }
}

#[test]
fn test_identical_inputs_identical_results() {
    let cm = mat([
        [0.5, 1.0, 0.0, 0.2],
        [-1.0, 0.5, 0.1, 0.0],
        [0.0, 0.0, 2.0, 0.3],
        [0.1, 0.0, 0.0, 3.0],
    ]);
    let (v1, w1) = solve_cwt_eigenproblem(&cm);
    let (v2, w2) = solve_cwt_eigenproblem(&cm);
    assert_eq!(v1, v2);
    assert_eq!(w1, w2);
}

#[test]
fn test_end_to_end_scenario() {
    let a = 1e-6;
    let lambda0 = 1.55e-6;
    let n_grid = 50usize;
    let z: Vec<f64> = (0..n_grid)
        .map(|i| -1e-6 + i as f64 * 2e-6 / (n_grid as f64 - 1.0))
        .collect();
    let theta = vec![1.0; n_grid];
    let n0 = vec![2.8; n_grid];

    let params = CwtParams {
        xi: vec![
            XiCoeff { m: 1, n: 0, val: c(0.01, 0.0) },
            XiCoeff { m: 0, n: 1, val: c(0.01, 0.0) },
            XiCoeff { m: 2, n: 0, val: c(0.02, 0.0) },
            XiCoeff { m: 0, n: 2, val: c(0.02, 0.0) },
        ],
        n_eff: c(2.8, 0.0),
        theta_z: reals(&theta),
        z_grid: reals(&z),
        n0_z: reals(&n0),
        a: c(a, 0.0),
        lambda0: c(lambda0, 0.0),
        conf: c(0.5, 0.0),
        d_trunc: 2,
    };
    let (c1, cr, c2) = construct_cwt_matrices(&params);
    let total = matrix_add(&matrix_add(&c1, &cr), &c2);
    let (vals, vecs) = solve_cwt_eigenproblem(&total);

    assert_eq!(vals.len(), 4);
    assert_eq!(vecs.len(), 4);
    for v in &vecs {
        assert_eq!(v.len(), 4);
    }
    for k in 0..3 {
        assert!(vals[k].im <= vals[k + 1].im + 1e-12, "not sorted by imaginary part");
    }
    assert!(vals[0].re.is_finite());
    let scale = vals.iter().map(|v| v.im.abs()).fold(1.0, f64::max);
    assert!(vals[0].im >= -1e-9 * scale, "loss of the first mode has the wrong sign");
}
