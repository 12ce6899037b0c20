//! Real Schur factorization, delegated to `nalgebra`.
//!
//! The engine lifts its 4x4 complex matrix to an 8x8 real one and needs the
//! factorization M = Q T Q^t with Q orthogonal and T quasi-upper-triangular.
//! Computing it is floating-point iteration and is delegated to `nalgebra`.
//! What the iteration returns is given a name, `spec_schur`: the wrapper
//! returns exactly the named factor pair, and nothing numeric is assumed of
//! that pair beyond its shape.  Everything the solver concludes from Q and
//! T is proved by the verified functions of `eigen`, which hold for every
//! pair of matrices this call could return.

use vstd::prelude::*;
use num_complex::Complex64;

use crate::cx::{is_matrix, rows_view};

verus! {

/// The factor pair (Q, T) that the Schur iteration yields for a real
/// matrix, a given convergence epsilon and a given iteration cap, or
/// nothing when the iteration does not converge within the cap.
pub uninterp spec fn spec_schur(
    m: Seq<Seq<Complex64>>,
    eps: Complex64,
    max_iter: usize,
) -> Option<(Seq<Seq<Complex64>>, Seq<Seq<Complex64>>)>;

/// Relies on `nalgebra::linalg::Schur::try_new` and `Schur::unpack`: the
/// real Schur decomposition of the matrix of the real parts of `m`, as the
/// pair (Q, T) of real-valued matrices of the input's shape, or `None` when
/// the iteration does not converge within `max_iter` steps (`max_iter` zero
/// puts no bound, as `Schur::new` does).  `eps` passes its real part on as
/// the convergence epsilon.  The iteration is deterministic floating-point
/// arithmetic, so the outcome is a function of the three arguments alone,
/// which `spec_schur` names.
#[verifier::external_body]
pub(crate) fn schur_decompose(m: &Vec<Vec<Complex64>>, eps: Complex64, max_iter: usize) -> (r:
    Option<(Vec<Vec<Complex64>>, Vec<Vec<Complex64>>)>)
    requires
        is_matrix(rows_view(m@), m@.len() as int, m@.len() as int),
    ensures
        match r {
            Some(qt) => spec_schur(rows_view(m@), eps, max_iter) == Some(
                (rows_view(qt.0@), rows_view(qt.1@)),
            ) && is_matrix(rows_view(qt.0@), m@.len() as int, m@.len() as int) && is_matrix(
                rows_view(qt.1@),
                m@.len() as int,
                m@.len() as int,
            ),
            None => spec_schur(rows_view(m@), eps, max_iter) is None,
        },
{
    let n = m.len();
    let dm = nalgebra::DMatrix::from_fn(n, n, |i, j| m[i][j].re);
    let s = nalgebra::linalg::Schur::try_new(dm, eps.re, max_iter)?;
    let (q, t) = s.unpack();
    let qv = (0..n).map(|i| (0..n).map(|j| Complex64::from(q[(i, j)])).collect()).collect();
    let tv = (0..n).map(|i| (0..n).map(|j| Complex64::from(t[(i, j)])).collect()).collect();
    Some((qv, tv))
}

} // verus!
