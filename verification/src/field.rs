//! Field-distribution reconstructor.
//!
//! Expands each eigenvector into an r-by-r complex spatial grid by
//! plane-wave superposition over the four basis waves:
//!   field(x, y) = Rx e^(-i beta0 x) + Sx e^(i beta0 x)
//!              + Ry e^(-i beta0 y) + Sy e^(i beta0 y),
//! with beta0 = 2 pi / a and (x, y) sampled uniformly over [-a/2, a/2].
//! A resolution below two would degenerate the sample spacing, so callers
//! must reject it; the grid entry at (iy, ix) is the superposition at
//! (x_ix, y_iy).

use vstd::prelude::*;
use num_complex::Complex64;

use crate::cx::{
    c_add, c_div_sc, c_exp, c_from_int, c_make, c_mul, c_neg, c_pi, c_sub, sc_pi, spec_add,
    spec_div_sc, spec_exp, spec_from_int, spec_make, spec_mul, spec_neg, spec_sub,
};

verus! {

/// The i-th uniform sample of [-a/2, a/2] at the given resolution:
/// -a/2 + i * a / (resolution - 1).
pub open spec fn grid_coord(a: Complex64, resolution: int, i: int) -> Complex64 {
    spec_add(
        spec_div_sc(spec_neg(a), spec_from_int(2)),
        spec_div_sc(
            spec_mul(spec_from_int(i), a),
            spec_sub(spec_from_int(resolution), spec_from_int(1)),
        ),
    )
}

/// The plane-wave superposition of one mode's four amplitudes at the
/// sample point (x_ix, y_iy).
pub open spec fn field_entry(
    v: Seq<Complex64>,
    a: Complex64,
    resolution: int,
    ix: int,
    iy: int,
) -> Complex64 {
    let beta0 = spec_div_sc(spec_mul(spec_from_int(2), sc_pi()), a);
    let x = grid_coord(a, resolution, ix);
    let y = grid_coord(a, resolution, iy);
    let t_rx = spec_mul(v[0], spec_exp(spec_make(spec_from_int(0), spec_mul(spec_neg(beta0), x))));
    let t_sx = spec_mul(v[1], spec_exp(spec_make(spec_from_int(0), spec_mul(beta0, x))));
    let t_ry = spec_mul(v[2], spec_exp(spec_make(spec_from_int(0), spec_mul(spec_neg(beta0), y))));
    let t_sy = spec_mul(v[3], spec_exp(spec_make(spec_from_int(0), spec_mul(beta0, y))));
    spec_add(spec_add(spec_add(t_rx, t_sx), t_ry), t_sy)
}

/// Reconstructs one r-by-r complex grid per mode from the mode's four
/// amplitudes (Rx, Sx, Ry, Sy).
///
/// The resolution bound keeps index-to-scalar conversion and the grid
/// allocation within machine limits.
pub fn calculate_field_distributions(
    eigvecs: &Vec<Vec<Complex64>>,
    a: Complex64,
    resolution: usize,
) -> (r: Vec<Vec<Vec<Complex64>>>)
    requires
        2 <= resolution <= 0x10000000,
        forall|m: int| 0 <= m < eigvecs@.len() ==> (#[trigger] eigvecs@[m])@.len() == 4,
    ensures
        r@.len() == eigvecs@.len(),
        forall|m: int| 0 <= m < r@.len() ==> (#[trigger] r@[m])@.len() == resolution,
        forall|m: int, iy: int|
            0 <= m < r@.len() && 0 <= iy < resolution ==> (#[trigger] r@[m]@[iy])@.len()
                == resolution,
        forall|m: int, iy: int, ix: int|
            0 <= m < r@.len() && 0 <= iy < resolution && 0 <= ix < resolution ==> (
            #[trigger] r@[m]@[iy]@[ix]) == field_entry(eigvecs@[m]@, a, resolution as int, ix, iy),
{
    let two = c_from_int(2);
    let pi = c_pi();
    let beta0 = c_div_sc(c_mul(two, pi), a);
    let denom = c_sub(c_from_int(resolution as i64), c_from_int(1));
    let half_a = c_div_sc(c_neg(a), two);
    let zero = c_from_int(0);

    let mut fields: Vec<Vec<Vec<Complex64>>> = Vec::new();
    let mut m: usize = 0;
    while m < eigvecs.len()
        invariant
            2 <= resolution <= 0x10000000,
            forall|p: int| 0 <= p < eigvecs@.len() ==> (#[trigger] eigvecs@[p])@.len() == 4,
            two == spec_from_int(2),
            pi == sc_pi(),
            zero == spec_from_int(0),
            beta0 == spec_div_sc(spec_mul(spec_from_int(2), sc_pi()), a),
            denom == spec_sub(spec_from_int(resolution as int), spec_from_int(1)),
            half_a == spec_div_sc(spec_neg(a), spec_from_int(2)),
            m <= eigvecs@.len(),
            fields@.len() == m,
            forall|p: int| 0 <= p < m ==> (#[trigger] fields@[p])@.len() == resolution,
            forall|p: int, iy: int|
                0 <= p < m && 0 <= iy < resolution ==> (#[trigger] fields@[p]@[iy])@.len()
                    == resolution,
            forall|p: int, iy: int, ix: int|
                0 <= p < m && 0 <= iy < resolution && 0 <= ix < resolution ==> (
                #[trigger] fields@[p]@[iy]@[ix]) == field_entry(
                    eigvecs@[p]@,
                    a,
                    resolution as int,
                    ix,
                    iy,
                ),
        decreases eigvecs@.len() - m,
    {
        let rx = eigvecs[m][0];
        let sx = eigvecs[m][1];
        let ry = eigvecs[m][2];
        let sy = eigvecs[m][3];
        let mut grid: Vec<Vec<Complex64>> = Vec::new();
        let mut iy: usize = 0;
        while iy < resolution
            invariant
                2 <= resolution <= 0x10000000,
                forall|p: int| 0 <= p < eigvecs@.len() ==> (#[trigger] eigvecs@[p])@.len() == 4,
                m < eigvecs@.len(),
                two == spec_from_int(2),
                pi == sc_pi(),
                zero == spec_from_int(0),
                beta0 == spec_div_sc(spec_mul(spec_from_int(2), sc_pi()), a),
                denom == spec_sub(spec_from_int(resolution as int), spec_from_int(1)),
                half_a == spec_div_sc(spec_neg(a), spec_from_int(2)),
                rx == eigvecs@[m as int]@[0],
                sx == eigvecs@[m as int]@[1],
                ry == eigvecs@[m as int]@[2],
                sy == eigvecs@[m as int]@[3],
                iy <= resolution,
                grid@.len() == iy,
                forall|q: int| 0 <= q < iy ==> (#[trigger] grid@[q])@.len() == resolution,
                forall|q: int, ix: int|
                    0 <= q < iy && 0 <= ix < resolution ==> (#[trigger] grid@[q]@[ix])
                        == field_entry(eigvecs@[m as int]@, a, resolution as int, ix, q),
            decreases resolution - iy,
        {
            let y = c_add(half_a, c_div_sc(c_mul(c_from_int(iy as i64), a), denom));
            let t_ry = c_mul(ry, c_exp(c_make(zero, c_mul(c_neg(beta0), y))));
            let t_sy = c_mul(sy, c_exp(c_make(zero, c_mul(beta0, y))));
            let mut row: Vec<Complex64> = Vec::new();
            let mut ix: usize = 0;
            while ix < resolution
                invariant
                    2 <= resolution <= 0x10000000,
                    forall|p: int| 0 <= p < eigvecs@.len() ==> (#[trigger] eigvecs@[p])@.len() == 4,
                    m < eigvecs@.len(),
                    two == spec_from_int(2),
                    pi == sc_pi(),
                    zero == spec_from_int(0),
                    beta0 == spec_div_sc(spec_mul(spec_from_int(2), sc_pi()), a),
                    denom == spec_sub(spec_from_int(resolution as int), spec_from_int(1)),
                    half_a == spec_div_sc(spec_neg(a), spec_from_int(2)),
                    rx == eigvecs@[m as int]@[0],
                    sx == eigvecs@[m as int]@[1],
                    ry == eigvecs@[m as int]@[2],
                    sy == eigvecs@[m as int]@[3],
                    iy < resolution,
                    y == grid_coord(a, resolution as int, iy as int),
                    t_ry == spec_mul(
                        eigvecs@[m as int]@[2],
                        spec_exp(
                            spec_make(
                                spec_from_int(0),
                                spec_mul(
                                    spec_neg(
                                        spec_div_sc(spec_mul(spec_from_int(2), sc_pi()), a),
                                    ),
                                    grid_coord(a, resolution as int, iy as int),
                                ),
                            ),
                        ),
                    ),
                    t_sy == spec_mul(
                        eigvecs@[m as int]@[3],
                        spec_exp(
                            spec_make(
                                spec_from_int(0),
                                spec_mul(
                                    spec_div_sc(spec_mul(spec_from_int(2), sc_pi()), a),
                                    grid_coord(a, resolution as int, iy as int),
                                ),
                            ),
                        ),
                    ),
                    ix <= resolution,
                    row@.len() == ix,
                    forall|p: int|
                        0 <= p < ix ==> (#[trigger] row@[p]) == field_entry(
                            eigvecs@[m as int]@,
                            a,
                            resolution as int,
                            p,
                            iy as int,
                        ),
                decreases resolution - ix,
            {
                let x = c_add(half_a, c_div_sc(c_mul(c_from_int(ix as i64), a), denom));
                let t_rx = c_mul(rx, c_exp(c_make(zero, c_mul(c_neg(beta0), x))));
                let t_sx = c_mul(sx, c_exp(c_make(zero, c_mul(beta0, x))));
                let e = c_add(c_add(c_add(t_rx, t_sx), t_ry), t_sy);
                row.push(e);
                ix = ix + 1;
            }
            grid.push(row);
            iy = iy + 1;
        }
        fields.push(grid);
        m = m + 1;
    }
    fields
}

} // verus!
