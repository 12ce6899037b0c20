//! Complex eigen-decomposition engine.
//!
//! The combined 4x4 complex coupling matrix C is lifted to the 8x8 real
//! matrix M = [[Re C, -Im C], [Im C, Re C]], whose real Schur form exposes
//! the spectrum of C through 1x1 and 2x2 diagonal blocks.  The engine scans
//! those blocks, derives an eigenvector of the quasi-triangular factor for
//! each block eigenvalue by seeding at the block and back-substituting
//! through everything above it, rotates by the orthogonal factor, recombines
//! the real and imaginary halves into complex 4-vectors, drops vectors whose
//! norm is at or below the validity floor, normalizes the rest, sorts the
//! survivors by ascending imaginary part of the eigenvalue and returns the
//! first four, padding with zero pairs when fewer survive.
//!
//! Every step after the Schur call is verified against an exact symbolic
//! contract; the engine's result is pinned down for every factor pair the
//! Schur call could hand back.

use vstd::prelude::*;
use num_complex::Complex64;

use crate::cx::{
    c_abs_re, c_add, c_cnorm, c_div, c_div_sc, c_from_int, c_im, c_lt, c_make, c_mach_eps, c_mul,
    c_neg, c_norm_sqr, c_re, c_scale, c_sqrt, c_sqrt_re, c_sub, c_tol_block, c_tol_vec, c_half,
    is_matrix, rows_view, sc_half, sc_mach_eps, sc_tol_block, sc_tol_vec, spec_abs_re,
    spec_add, spec_cnorm,
    spec_div, spec_div_sc, spec_from_int, spec_im, spec_lt, spec_make, spec_mul, spec_neg,
    spec_norm_sqr, spec_re, spec_scale, spec_sqrt, spec_sqrt_re, spec_sub,
};
use crate::schur::{schur_decompose, spec_schur};

verus! {

// ---------------------------------------------------------------------------
// Step 1: the real lift.
// ---------------------------------------------------------------------------

/// Entry (i, j) of the 8x8 real lift [[Re C, -Im C], [Im C, Re C]] of a
/// 4x4 complex matrix.
pub open spec fn lift_entry(c: Seq<Seq<Complex64>>, i: int, j: int) -> Complex64 {
    if i < 4 {
        if j < 4 {
            spec_re(c[i][j])
        } else {
            spec_neg(spec_im(c[i][j - 4]))
        }
    } else {
        if j < 4 {
            spec_im(c[i - 4][j])
        } else {
            spec_re(c[i - 4][j - 4])
        }
    }
}

/// The whole 8x8 real lift as one value.
pub open spec fn lift_spec(c: Seq<Seq<Complex64>>) -> Seq<Seq<Complex64>> {
    Seq::new(8, |i: int| Seq::new(8, |j: int| lift_entry(c, i, j)))
}

/// Builds the 8x8 real lift of the 4x4 complex matrix.
pub fn lift_to_real(c: &Vec<Vec<Complex64>>) -> (m: Vec<Vec<Complex64>>)
    requires
        is_matrix(rows_view(c@), 4, 4),
    ensures
        is_matrix(rows_view(m@), 8, 8),
        forall|i: int, j: int|
            0 <= i < 8 && 0 <= j < 8 ==> rows_view(m@)[i][j] == lift_entry(rows_view(c@), i, j),
        rows_view(m@) == lift_spec(rows_view(c@)),
{
    proof {
        crate::cx::lemma_matrix_rows(c@, 4, 4);
    }
    let mut m: Vec<Vec<Complex64>> = Vec::new();
    let mut i: usize = 0;
    while i < 8
        invariant
            is_matrix(rows_view(c@), 4, 4),
            c@.len() == 4,
            forall|p: int| 0 <= p < 4 ==> (#[trigger] c@[p])@.len() == 4,
            forall|p: int| 0 <= p < 4 ==> rows_view(c@)[p] == (#[trigger] c@[p])@,
            i <= 8,
            m@.len() == i,
            forall|p: int| 0 <= p < i ==> (#[trigger] m@[p])@.len() == 8,
            forall|p: int, q: int|
                0 <= p < i && 0 <= q < 8 ==> m@[p]@[q] == lift_entry(rows_view(c@), p, q),
        decreases 8 - i,
    {
        let mut row: Vec<Complex64> = Vec::new();
        let mut j: usize = 0;
        while j < 8
            invariant
                is_matrix(rows_view(c@), 4, 4),
                c@.len() == 4,
                forall|p: int| 0 <= p < 4 ==> (#[trigger] c@[p])@.len() == 4,
                forall|p: int| 0 <= p < 4 ==> rows_view(c@)[p] == (#[trigger] c@[p])@,
                i < 8,
                j <= 8,
                row@.len() == j,
                forall|q: int| 0 <= q < j ==> row@[q] == lift_entry(rows_view(c@), i as int, q),
            decreases 8 - j,
        {
            let e = if i < 4 {
                if j < 4 {
                    c_re(c[i][j])
                } else {
                    c_neg(c_im(c[i][j - 4]))
                }
            } else {
                if j < 4 {
                    c_im(c[i - 4][j])
                } else {
                    c_re(c[i - 4][j - 4])
                }
            };
            row.push(e);
            j = j + 1;
        }
        m.push(row);
        i = i + 1;
    }
    proof {
        assert forall|p: int|
            0 <= p < 8 implies rows_view(m@)[p] =~= lift_spec(rows_view(c@))[p] by {
            assert(rows_view(m@)[p] == m@[p]@);
            assert(lift_spec(rows_view(c@))[p] == Seq::new(8, |j: int| lift_entry(rows_view(c@), p, j)));
            assert forall|q: int|
                0 <= q < 8 implies m@[p]@[q] == lift_spec(rows_view(c@))[p][q] by {
                assert(lift_spec(rows_view(c@))[p][q] == lift_entry(rows_view(c@), p, q));
            }
        }
        assert(rows_view(m@) =~~= lift_spec(rows_view(c@)));
    }
    m
}

// ---------------------------------------------------------------------------
// Step 2: diagonal-block classification of the quasi-triangular factor.
// ---------------------------------------------------------------------------

/// One diagonal block of the quasi-triangular factor: its starting index,
/// whether it is a 2x2 block, and its one or two eigenvalues.
#[derive(Clone, Copy)]
pub struct SchurBlock {
    pub start: usize,
    pub is_pair: bool,
    pub l1: Complex64,
    pub l2: Complex64,
}

/// Whether index `i` starts a 1x1 block: it is the last index, or the
/// subdiagonal entry below it is negligible.
pub open spec fn is_single_at(t: Seq<Seq<Complex64>>, i: int) -> bool {
    i == t.len() - 1 || spec_lt(spec_abs_re(t[i + 1][i]), sc_tol_block())
}

/// The eigenvalue pair of the 2x2 block at `i`, through trace, determinant
/// and complex square root of the discriminant: (tr +- sqrt(tr^2 - 4 det))/2.
pub open spec fn pair_eigs(t: Seq<Seq<Complex64>>, i: int) -> (Complex64, Complex64) {
    let a = t[i][i];
    let b = t[i][i + 1];
    let c = t[i + 1][i];
    let d = t[i + 1][i + 1];
    let tr = spec_add(a, d);
    let det = spec_sub(spec_mul(a, d), spec_mul(b, c));
    let delta = spec_sub(spec_mul(tr, tr), spec_mul(spec_from_int(4), det));
    let sq = spec_sqrt(spec_make(delta, spec_from_int(0)));
    (
        spec_scale(spec_add(spec_make(tr, spec_from_int(0)), sq), sc_half()),
        spec_scale(spec_sub(spec_make(tr, spec_from_int(0)), sq), sc_half()),
    )
}

/// The block list of the quasi-triangular factor from index `i` on.
pub open spec fn blocks_spec(t: Seq<Seq<Complex64>>, i: int) -> Seq<SchurBlock>
    decreases t.len() - i,
{
    let n = t.len() as int;
    if i < 0 || i >= n {
        Seq::empty()
    } else if is_single_at(t, i) {
        seq![
            SchurBlock { start: i as usize, is_pair: false, l1: t[i][i], l2: t[i][i] },
        ] + blocks_spec(t, i + 1)
    } else {
        seq![
            SchurBlock {
                start: i as usize,
                is_pair: true,
                l1: pair_eigs(t, i).0,
                l2: pair_eigs(t, i).1,
            },
        ] + blocks_spec(t, i + 2)
    }
}

/// Shape facts of a block that the vector derivation leans on.
pub open spec fn block_wf(t: Seq<Seq<Complex64>>, b: SchurBlock) -> bool {
    b.start < t.len() && (b.is_pair ==> b.start + 1 < t.len())
}

/// Scans the diagonal of the quasi-triangular factor top to bottom and
/// classifies it into 1x1 blocks (real eigenvalue: the diagonal entry) and
/// 2x2 blocks (a pair through trace and determinant).
pub fn scan_blocks(t: &Vec<Vec<Complex64>>) -> (r: Vec<SchurBlock>)
    requires
        is_matrix(rows_view(t@), t@.len() as int, t@.len() as int),
    ensures
        r@ == blocks_spec(rows_view(t@), 0),
        forall|k: int| 0 <= k < r@.len() ==> block_wf(rows_view(t@), #[trigger] r@[k]),
{
    let n = t.len();
    proof {
        crate::cx::lemma_matrix_rows(t@, n as int, n as int);
    }
    let tol = c_tol_block();
    let mut r: Vec<SchurBlock> = Vec::new();
    let mut i: usize = 0;
    while i < n
        invariant
            is_matrix(rows_view(t@), n as int, n as int),
            n == t@.len(),
            forall|p: int| 0 <= p < n ==> (#[trigger] t@[p])@.len() == n,
            forall|p: int| 0 <= p < n ==> rows_view(t@)[p] == (#[trigger] t@[p])@,
            i <= n,
            tol == sc_tol_block(),
            blocks_spec(rows_view(t@), 0) == r@ + blocks_spec(rows_view(t@), i as int),
            forall|k: int| 0 <= k < r@.len() ==> block_wf(rows_view(t@), #[trigger] r@[k]),
        decreases n - i,
    {
        let ghost tv = rows_view(t@);
        let ghost old_r = r@;
        if i == n - 1 || c_lt(c_abs_re(t[i + 1][i]), tol) {
            let blk = SchurBlock { start: i, is_pair: false, l1: t[i][i], l2: t[i][i] };
            r.push(blk);
            proof {
                assert(blocks_spec(tv, i as int) == seq![blk] + blocks_spec(tv, i as int + 1));
                assert(old_r + blocks_spec(tv, i as int) =~= r@ + blocks_spec(tv, i as int + 1));
            }
            i = i + 1;
        } else {
            let a = t[i][i];
            let b = t[i][i + 1];
            let c = t[i + 1][i];
            let d = t[i + 1][i + 1];
            let tr = c_add(a, d);
            let det = c_sub(c_mul(a, d), c_mul(b, c));
            let four = c_from_int(4);
            let delta = c_sub(c_mul(tr, tr), c_mul(four, det));
            let zero = c_from_int(0);
            let sq = c_sqrt(c_make(delta, zero));
            let half = c_half();
            let l1 = c_scale(c_add(c_make(tr, zero), sq), half);
            let l2 = c_scale(c_sub(c_make(tr, zero), sq), half);
            let blk = SchurBlock { start: i, is_pair: true, l1, l2 };
            r.push(blk);
            proof {
                assert(l1 == pair_eigs(tv, i as int).0);
                assert(l2 == pair_eigs(tv, i as int).1);
                assert(blocks_spec(tv, i as int) == seq![blk] + blocks_spec(tv, i as int + 2));
                assert(old_r + blocks_spec(tv, i as int) =~= r@ + blocks_spec(tv, i as int + 2));
            }
            i = i + 2;
        }
    }
    proof {
        assert(blocks_spec(rows_view(t@), n as int) =~= Seq::<SchurBlock>::empty());
        assert(r@ + Seq::<SchurBlock>::empty() =~= r@);
    }
    r
}

// ---------------------------------------------------------------------------
// Steps 3 and 4: eigenvector of the quasi-triangular factor for one block
// eigenvalue, by seeding at the block and back-substituting above it.
// ---------------------------------------------------------------------------

/// The all-zero length-n vector.
pub open spec fn zero_seq(n: nat) -> Seq<Complex64> {
    Seq::new(n, |k: int| spec_from_int(0))
}

/// The seed vector of a block: for a 1x1 block, one at the block index;
/// for a 2x2 block, the solution (u, v) of the homogeneous block system
/// with u = 1, v = -(a - lambda)/b when |b| is above the tolerance, and the
/// degenerate fallback (0, 1) otherwise.  Everything else is zero.
pub open spec fn seed_spec(t: Seq<Seq<Complex64>>, b: SchurBlock, lambda: Complex64) -> Seq<
    Complex64,
> {
    let z = zero_seq(t.len());
    if !b.is_pair {
        z.update(b.start as int, spec_from_int(1))
    } else {
        let a = t[b.start as int][b.start as int];
        let bb = t[b.start as int][b.start as int + 1];
        if spec_lt(sc_tol_block(), spec_abs_re(bb)) {
            z.update(b.start as int, spec_from_int(1)).update(
                b.start as int + 1,
                spec_div_sc(spec_neg(spec_sub(spec_make(a, spec_from_int(0)), lambda)), bb),
            )
        } else {
            z.update(b.start as int, spec_from_int(0)).update(b.start as int + 1, spec_from_int(1))
        }
    }
}

/// The accumulated row sum  sum_{j in [lo, hi)} t[k][j] * x[j], folded
/// from the left starting at the converted zero.
pub open spec fn row_sum(
    t: Seq<Seq<Complex64>>,
    x: Seq<Complex64>,
    k: int,
    lo: int,
    hi: int,
) -> Complex64
    decreases hi - lo,
{
    if hi <= lo {
        spec_from_int(0)
    } else {
        spec_add(row_sum(t, x, k, lo, hi - 1), spec_scale(x[hi - 1], t[k][hi - 1]))
    }
}

/// One back-substitution step at row `k`, given the partial solution `x`.
///
/// A row that is the second of a 2x2 block is left for its partner.  A row
/// that starts a 2x2 block solves the coupled system by Cramer's rule
/// against the contributions of the rows strictly below the block, skipped
/// when the system determinant is at or below the tolerance.  A plain row
/// solves the scalar equation against the contributions of rows k+1 up to
/// one past the anchor block, under the same singularity guard.
pub open spec fn backsub_step(
    t: Seq<Seq<Complex64>>,
    lambda: Complex64,
    b: SchurBlock,
    x: Seq<Complex64>,
    k: int,
) -> Seq<Complex64> {
    let n = t.len() as int;
    if k > 0 && spec_lt(sc_tol_block(), spec_abs_re(t[k][k - 1])) {
        x
    } else if k < n - 1 && spec_lt(sc_tol_block(), spec_abs_re(t[k + 1][k])) {
        let sum_k = row_sum(t, x, k, k + 2, n);
        let sum_k1 = row_sum(t, x, k + 1, k + 2, n);
        let m11 = spec_sub(spec_make(t[k][k], spec_from_int(0)), lambda);
        let m12 = spec_make(t[k][k + 1], spec_from_int(0));
        let m21 = spec_make(t[k + 1][k], spec_from_int(0));
        let m22 = spec_sub(spec_make(t[k + 1][k + 1], spec_from_int(0)), lambda);
        let rhs1 = spec_neg(sum_k);
        let rhs2 = spec_neg(sum_k1);
        let det = spec_sub(spec_mul(m11, m22), spec_mul(m12, m21));
        if spec_lt(sc_tol_block(), spec_cnorm(det)) {
            x.update(k, spec_div(spec_sub(spec_mul(rhs1, m22), spec_mul(rhs2, m12)), det)).update(
                k + 1,
                spec_div(spec_sub(spec_mul(m11, rhs2), spec_mul(m21, rhs1)), det),
            )
        } else {
            x
        }
    } else {
        let hi = if b.start as int + 2 < n {
            b.start as int + 2
        } else {
            n
        };
        let sum = row_sum(t, x, k, k + 1, hi);
        let denom = spec_sub(spec_make(t[k][k], spec_from_int(0)), lambda);
        if spec_lt(sc_tol_block(), spec_cnorm(denom)) {
            x.update(k, spec_div(spec_neg(sum), denom))
        } else {
            x
        }
    }
}

/// The partial solution after processing rows b.start-1 down to `k`.
pub open spec fn backsub_from(
    t: Seq<Seq<Complex64>>,
    lambda: Complex64,
    b: SchurBlock,
    k: int,
) -> Seq<Complex64>
    decreases b.start - k,
{
    if k >= b.start as int {
        seed_spec(t, b, lambda)
    } else {
        backsub_step(t, lambda, b, backsub_from(t, lambda, b, k + 1), k)
    }
}

/// Derives the eigenvector of the quasi-triangular factor for the
/// eigenvalue `lambda` of block `b`: seed at the block, then back-substitute
/// through every row above it.
pub fn solve_block_vector(t: &Vec<Vec<Complex64>>, b: &SchurBlock, lambda: Complex64) -> (x: Vec<
    Complex64,
>)
    requires
        is_matrix(rows_view(t@), 8, 8),
        block_wf(rows_view(t@), *b),
    ensures
        x@.len() == 8,
        x@ == backsub_from(rows_view(t@), lambda, *b, 0),
{
    let ghost tv = rows_view(t@);
    let n = t.len();
    proof {
        crate::cx::lemma_matrix_rows(t@, 8, 8);
    }
    let tol = c_tol_block();
    let zero = c_from_int(0);

    let mut x: Vec<Complex64> = Vec::new();
    let mut ii: usize = 0;
    while ii < n
        invariant
            ii <= n,
            n == 8,
            x@.len() == ii,
            zero == spec_from_int(0),
            forall|q: int| 0 <= q < ii ==> x@[q] == spec_from_int(0),
        decreases n - ii,
    {
        x.push(zero);
        ii = ii + 1;
    }
    proof {
        assert(x@ =~= zero_seq(8));
    }

    if !b.is_pair {
        x.set(b.start, c_from_int(1));
    } else {
        let a = t[b.start][b.start];
        let bb = t[b.start][b.start + 1];
        if c_lt(tol, c_abs_re(bb)) {
            x.set(b.start, c_from_int(1));
            let v = c_div_sc(c_neg(c_sub(c_make(a, zero), lambda)), bb);
            x.set(b.start + 1, v);
        } else {
            x.set(b.start, c_from_int(0));
            x.set(b.start + 1, c_from_int(1));
        }
    }
    proof {
        assert(x@ == seed_spec(tv, *b, lambda));
    }

    let mut k: usize = b.start;
    while k > 0
        invariant
            is_matrix(tv, 8, 8),
            tv == rows_view(t@),
            n == 8,
            n == t@.len(),
            forall|p: int| 0 <= p < n ==> (#[trigger] t@[p])@.len() == n,
            forall|p: int| 0 <= p < n ==> rows_view(t@)[p] == (#[trigger] t@[p])@,
            block_wf(tv, *b),
            k <= b.start,
            tol == sc_tol_block(),
            zero == spec_from_int(0),
            x@.len() == 8,
            x@ == backsub_from(tv, lambda, *b, k as int),
        decreases k,
    {
        k = k - 1;
        let ghost x_pre = x@;
        if k > 0 && c_lt(tol, c_abs_re(t[k][k - 1])) {
            // second row of a 2x2 block: its partner row resolves both
        } else if k < n - 1 && c_lt(tol, c_abs_re(t[k + 1][k])) {
            let mut sum_k = c_from_int(0);
            let mut sum_k1 = c_from_int(0);
            let mut j: usize = k + 2;
            while j < n
                invariant
                    is_matrix(tv, 8, 8),
                    tv == rows_view(t@),
                    n == 8,
                    n == t@.len(),
                    forall|p: int| 0 <= p < n ==> (#[trigger] t@[p])@.len() == n,
                    forall|p: int| 0 <= p < n ==> rows_view(t@)[p] == (#[trigger] t@[p])@,
                    k < n - 1,
                    k + 2 <= j <= n,
                    x@ == x_pre,
                    x@.len() == 8,
                    sum_k == row_sum(tv, x_pre, k as int, k as int + 2, j as int),
                    sum_k1 == row_sum(tv, x_pre, k as int + 1, k as int + 2, j as int),
                decreases n - j,
            {
                sum_k = c_add(sum_k, c_scale(x[j], t[k][j]));
                sum_k1 = c_add(sum_k1, c_scale(x[j], t[k + 1][j]));
                j = j + 1;
            }
            let m11 = c_sub(c_make(t[k][k], zero), lambda);
            let m12 = c_make(t[k][k + 1], zero);
            let m21 = c_make(t[k + 1][k], zero);
            let m22 = c_sub(c_make(t[k + 1][k + 1], zero), lambda);
            let rhs1 = c_neg(sum_k);
            let rhs2 = c_neg(sum_k1);
            let det = c_sub(c_mul(m11, m22), c_mul(m12, m21));
            if c_lt(tol, c_cnorm(det)) {
                let xk = c_div(c_sub(c_mul(rhs1, m22), c_mul(rhs2, m12)), det);
                let xk1 = c_div(c_sub(c_mul(m11, rhs2), c_mul(m21, rhs1)), det);
                x.set(k, xk);
                x.set(k + 1, xk1);
            }
        } else {
            let hi = if b.start + 2 < n {
                b.start + 2
            } else {
                n
            };
            let mut sum = c_from_int(0);
            let mut j: usize = k + 1;
            while j < hi
                invariant
                    is_matrix(tv, 8, 8),
                    tv == rows_view(t@),
                    n == 8,
                    n == t@.len(),
                    forall|p: int| 0 <= p < n ==> (#[trigger] t@[p])@.len() == n,
                    forall|p: int| 0 <= p < n ==> rows_view(t@)[p] == (#[trigger] t@[p])@,
                    k < n,
                    hi <= n,
                    k + 1 <= j <= hi,
                    x@ == x_pre,
                    x@.len() == 8,
                    sum == row_sum(tv, x_pre, k as int, k as int + 1, j as int),
                decreases hi - j,
            {
                sum = c_add(sum, c_scale(x[j], t[k][j]));
                j = j + 1;
            }
            let denom = c_sub(c_make(t[k][k], zero), lambda);
            if c_lt(tol, c_cnorm(denom)) {
                x.set(k, c_div(c_neg(sum), denom));
            }
        }
        proof {
            assert(x@ == backsub_step(tv, lambda, *b, x_pre, k as int));
        }
    }
    x
}

// ---------------------------------------------------------------------------
// Steps 5 and 6: rotate by the orthogonal factor, recombine, normalize.
// ---------------------------------------------------------------------------

/// Entry `r` of Q x, folded from the left over the first `cnt` columns.
pub open spec fn matvec_entry(
    q: Seq<Seq<Complex64>>,
    x: Seq<Complex64>,
    r: int,
    cnt: int,
) -> Complex64
    decreases cnt,
{
    if cnt <= 0 {
        spec_from_int(0)
    } else {
        spec_add(matvec_entry(q, x, r, cnt - 1), spec_scale(x[cnt - 1], q[r][cnt - 1]))
    }
}

/// The product Q x of the real orthogonal factor with a complex vector.
pub open spec fn matvec_seq(q: Seq<Seq<Complex64>>, x: Seq<Complex64>) -> Seq<Complex64> {
    Seq::new(q.len(), |r: int| matvec_entry(q, x, r, x.len() as int))
}

/// Multiplies the vector by the orthogonal Schur factor, componentwise over
/// the complex entries.
pub fn apply_q(q: &Vec<Vec<Complex64>>, x: &Vec<Complex64>) -> (r: Vec<Complex64>)
    requires
        is_matrix(rows_view(q@), 8, 8),
        x@.len() == 8,
    ensures
        r@.len() == 8,
        r@ == matvec_seq(rows_view(q@), x@),
{
    let ghost qv = rows_view(q@);
    proof {
        crate::cx::lemma_matrix_rows(q@, 8, 8);
    }
    let mut r: Vec<Complex64> = Vec::new();
    let mut i: usize = 0;
    while i < 8
        invariant
            is_matrix(qv, 8, 8),
            qv == rows_view(q@),
            q@.len() == 8,
            forall|p: int| 0 <= p < 8 ==> (#[trigger] q@[p])@.len() == 8,
            forall|p: int| 0 <= p < 8 ==> rows_view(q@)[p] == (#[trigger] q@[p])@,
            x@.len() == 8,
            i <= 8,
            r@.len() == i,
            forall|p: int| 0 <= p < i ==> r@[p] == matvec_entry(qv, x@, p, 8),
        decreases 8 - i,
    {
        let mut acc = c_from_int(0);
        let mut j: usize = 0;
        while j < 8
            invariant
                is_matrix(qv, 8, 8),
                qv == rows_view(q@),
                q@.len() == 8,
                forall|p: int| 0 <= p < 8 ==> (#[trigger] q@[p])@.len() == 8,
                forall|p: int| 0 <= p < 8 ==> rows_view(q@)[p] == (#[trigger] q@[p])@,
                x@.len() == 8,
                i < 8,
                j <= 8,
                acc == matvec_entry(qv, x@, i as int, j as int),
            decreases 8 - j,
        {
            acc = c_add(acc, c_scale(x[j], q[i][j]));
            j = j + 1;
        }
        r.push(acc);
        i = i + 1;
    }
    proof {
        assert(r@ =~= matvec_seq(qv, x@));
    }
    r
}

/// The four complex amplitudes v[i] = res[i] + i * res[i+4], undoing the
/// real lift.
pub open spec fn recombine_seq(res: Seq<Complex64>) -> Seq<Complex64> {
    Seq::new(
        4,
        |i: int|
            spec_add(
                res[i],
                spec_mul(spec_make(spec_from_int(0), spec_from_int(1)), res[i + 4]),
            ),
    )
}

/// Reassembles a complex 4-vector from the real and imaginary halves of the
/// rotated 8-vector.
pub fn recombine(res: &Vec<Complex64>) -> (v: Vec<Complex64>)
    requires
        res@.len() == 8,
    ensures
        v@.len() == 4,
        v@ == recombine_seq(res@),
{
    let iu = c_make(c_from_int(0), c_from_int(1));
    let mut v: Vec<Complex64> = Vec::new();
    v.push(c_add(res[0], c_mul(iu, res[4])));
    v.push(c_add(res[1], c_mul(iu, res[5])));
    v.push(c_add(res[2], c_mul(iu, res[6])));
    v.push(c_add(res[3], c_mul(iu, res[7])));
    proof {
        assert(v@ =~= recombine_seq(res@));
    }
    v
}

/// The running sum of squared moduli of the first `cnt` entries.
pub open spec fn norm_sq_upto(v: Seq<Complex64>, cnt: int) -> Complex64
    decreases cnt,
{
    if cnt <= 0 {
        spec_from_int(0)
    } else {
        spec_add(norm_sq_upto(v, cnt - 1), spec_norm_sqr(v[cnt - 1]))
    }
}

/// The Euclidean norm of a complex vector: the real square root of the sum
/// of squared moduli.
pub open spec fn vec_norm_spec(v: Seq<Complex64>) -> Complex64 {
    spec_sqrt_re(norm_sq_upto(v, v.len() as int))
}

/// Computes the Euclidean norm of a complex 4-vector.
pub fn vec_norm4(v: &Vec<Complex64>) -> (r: Complex64)
    requires
        v@.len() == 4,
    ensures
        r == vec_norm_spec(v@),
{
    let mut s = c_from_int(0);
    let mut i: usize = 0;
    while i < 4
        invariant
            v@.len() == 4,
            i <= 4,
            s == norm_sq_upto(v@, i as int),
        decreases 4 - i,
    {
        s = c_add(s, c_norm_sqr(v[i]));
        i = i + 1;
    }
    c_sqrt_re(s)
}

/// Every entry divided (componentwise) by the real scalar `nm`.
pub open spec fn normalize_spec(v: Seq<Complex64>, nm: Complex64) -> Seq<Complex64> {
    Seq::new(v.len(), |i: int| spec_div_sc(v[i], nm))
}

/// Scales a complex 4-vector to unit norm by dividing by its norm.
pub fn normalize4(v: &Vec<Complex64>, nm: Complex64) -> (r: Vec<Complex64>)
    requires
        v@.len() == 4,
    ensures
        r@.len() == 4,
        r@ == normalize_spec(v@, nm),
{
    let mut r: Vec<Complex64> = Vec::new();
    let mut i: usize = 0;
    while i < 4
        invariant
            v@.len() == 4,
            i <= 4,
            r@.len() == i,
            forall|p: int| 0 <= p < i ==> r@[p] == spec_div_sc(v@[p], nm),
        decreases 4 - i,
    {
        r.push(c_div_sc(v[i], nm));
        i = i + 1;
    }
    proof {
        assert(r@ =~= normalize_spec(v@, nm));
    }
    r
}

// ---------------------------------------------------------------------------
// Step 7: validity filter, sort by imaginary part, select and pad.
// ---------------------------------------------------------------------------

/// One recovered eigenpair: the eigenvalue and its complex 4-vector.
pub struct EigenPair {
    pub value: Complex64,
    pub vector: Vec<Complex64>,
}

/// The mathematical content of a pair.
pub open spec fn pair_view(p: EigenPair) -> (Complex64, Seq<Complex64>) {
    (p.value, p.vector@)
}

/// The mathematical content of a pair list.
pub open spec fn pairs_view(s: Seq<EigenPair>) -> Seq<(Complex64, Seq<Complex64>)> {
    Seq::new(s.len(), |i: int| pair_view(s[i]))
}

/// The recombined candidate vector of one block eigenvalue: solve in the
/// quasi-triangular factor, rotate by Q, recombine halves.
pub open spec fn candidate_vector(
    t: Seq<Seq<Complex64>>,
    q: Seq<Seq<Complex64>>,
    b: SchurBlock,
    lambda: Complex64,
) -> Seq<Complex64> {
    recombine_seq(matvec_seq(q, backsub_from(t, lambda, b, 0)))
}

/// The zero-or-one valid pairs a block eigenvalue yields: kept and
/// normalized when the candidate's norm is above the validity floor,
/// dropped otherwise.
pub open spec fn valid_pair_of(
    t: Seq<Seq<Complex64>>,
    q: Seq<Seq<Complex64>>,
    b: SchurBlock,
    lambda: Complex64,
) -> Seq<(Complex64, Seq<Complex64>)> {
    let v = candidate_vector(t, q, b, lambda);
    let nm = vec_norm_spec(v);
    if spec_lt(sc_tol_vec(), nm) {
        seq![(lambda, normalize_spec(v, nm))]
    } else {
        Seq::empty()
    }
}

/// The valid pairs of one block, first eigenvalue first.
pub open spec fn block_pairs(
    t: Seq<Seq<Complex64>>,
    q: Seq<Seq<Complex64>>,
    b: SchurBlock,
) -> Seq<(Complex64, Seq<Complex64>)> {
    valid_pair_of(t, q, b, b.l1) + if b.is_pair {
        valid_pair_of(t, q, b, b.l2)
    } else {
        Seq::empty()
    }
}

/// The valid pairs of the first `cnt` blocks, in scan order.
pub open spec fn valid_pairs_upto(
    t: Seq<Seq<Complex64>>,
    q: Seq<Seq<Complex64>>,
    bs: Seq<SchurBlock>,
    cnt: int,
) -> Seq<(Complex64, Seq<Complex64>)>
    decreases cnt,
{
    if cnt <= 0 {
        Seq::empty()
    } else {
        valid_pairs_upto(t, q, bs, cnt - 1) + block_pairs(t, q, bs[cnt - 1])
    }
}

/// Stable insertion of a pair into a list, before every element whose
/// eigenvalue has a strictly larger imaginary part.
pub open spec fn insert_sorted(
    s: Seq<(Complex64, Seq<Complex64>)>,
    p: (Complex64, Seq<Complex64>),
) -> Seq<(Complex64, Seq<Complex64>)>
    decreases s.len(),
{
    if s.len() == 0 {
        seq![p]
    } else if spec_lt(spec_im(p.0), spec_im(s.last().0)) {
        insert_sorted(s.drop_last(), p).push(s.last())
    } else {
        s.push(p)
    }
}

/// Stable sort of a pair list by ascending imaginary part.
pub open spec fn sort_by_im(s: Seq<(Complex64, Seq<Complex64>)>) -> Seq<
    (Complex64, Seq<Complex64>),
>
    decreases s.len(),
{
    if s.len() == 0 {
        Seq::empty()
    } else {
        insert_sorted(sort_by_im(s.drop_last()), s.last())
    }
}

/// Adjacent pairs never decrease in imaginary part.
pub open spec fn sorted_adjacent(s: Seq<EigenPair>) -> bool {
    forall|i: int|
        0 <= i < s.len() - 1 ==> !spec_lt(spec_im((#[trigger] s[i + 1]).value), spec_im(s[i].value))
}

/// Where the insertion point is known, stable insertion is a splice there.
proof fn lemma_insert_at(s: Seq<(Complex64, Seq<Complex64>)>, p: (Complex64, Seq<Complex64>), j: int)
    requires
        0 <= j <= s.len(),
        forall|i: int| j <= i < s.len() ==> spec_lt(spec_im(p.0), spec_im((#[trigger] s[i]).0)),
        j > 0 ==> !spec_lt(spec_im(p.0), spec_im(s[j - 1].0)),
    ensures
        insert_sorted(s, p) == s.subrange(0, j) + seq![p] + s.subrange(j, s.len() as int),
    decreases s.len(),
{
    if j == s.len() {
        if s.len() == 0 {
            assert(insert_sorted(s, p) =~= s.subrange(0, j) + seq![p] + s.subrange(
                j,
                s.len() as int,
            ));
        } else {
            assert(!spec_lt(spec_im(p.0), spec_im(s.last().0)));
            assert(s.push(p) =~= s.subrange(0, j) + seq![p] + s.subrange(j, s.len() as int));
        }
    } else {
        assert(spec_lt(spec_im(p.0), spec_im(s.last().0)));
        lemma_insert_at(s.drop_last(), p, j);
        assert(insert_sorted(s, p) == insert_sorted(s.drop_last(), p).push(s.last()));
        assert((s.drop_last().subrange(0, j) + seq![p] + s.drop_last().subrange(
            j,
            s.len() - 1,
        )).push(s.last()) =~= s.subrange(0, j) + seq![p] + s.subrange(j, s.len() as int));
    }
}

/// Inserts a recovered pair into a list kept sorted by ascending imaginary
/// part, after every element it does not strictly precede.
fn insert_pair_sorted(out: &mut Vec<EigenPair>, p: EigenPair)
    requires
        sorted_adjacent(old(out)@),
        forall|i: int| 0 <= i < old(out)@.len() ==> (#[trigger] old(out)@[i]).vector@.len() == 4,
        p.vector@.len() == 4,
    ensures
        sorted_adjacent(final(out)@),
        forall|i: int|
            0 <= i < final(out)@.len() ==> (#[trigger] final(out)@[i]).vector@.len() == 4,
        pairs_view(final(out)@) == insert_sorted(pairs_view(old(out)@), pair_view(p)),
{
    let ghost s0 = out@;
    let key = c_im(p.value);
    let mut j: usize = out.len();
    let mut searching = true;
    while searching && j > 0
        invariant
            out@ == s0,
            key == spec_im(p.value),
            j <= out@.len(),
            forall|i: int|
                j <= i < out@.len() ==> spec_lt(spec_im(p.value), spec_im((#[trigger] out@[i]).value))
                    && !spec_lt(spec_im(out@[i].value), spec_im(p.value)),
            !searching ==> j > 0 && !spec_lt(spec_im(p.value), spec_im(out@[j - 1].value)),
        decreases j + if searching { 1int } else { 0int },
    {
        let prev = c_im(out[j - 1].value);
        if c_lt(key, prev) {
            j = j - 1;
        } else {
            searching = false;
        }
    }
    proof {
        assert forall|i: int| j as int <= i < pairs_view(s0).len() implies spec_lt(
            spec_im(pair_view(p).0),
            spec_im((#[trigger] pairs_view(s0)[i]).0),
        ) by {
            assert(pairs_view(s0)[i] == pair_view(s0[i]));
        }
        if j > 0 {
            assert(pairs_view(s0)[j - 1] == pair_view(s0[j - 1]));
        }
        lemma_insert_at(pairs_view(s0), pair_view(p), j as int);
    }
    out.insert(j, p);
    proof {
        s0.insert_ensures(j as int, p);
        assert forall|i: int| 0 <= i < out@.len() implies (#[trigger] out@[i]).vector@.len()
            == 4 by {
            if i < j {
                assert(out@[i] == s0[i]);
            } else if i == j {
                assert(out@[i] == p);
            } else {
                assert(out@[i] == s0[i - 1]);
            }
        }
        assert(pairs_view(out@) =~= pairs_view(s0).subrange(0, j as int) + seq![pair_view(p)]
            + pairs_view(s0).subrange(j as int, s0.len() as int));
        assert forall|i: int|
            0 <= i < out@.len() - 1 implies !spec_lt(
            spec_im((#[trigger] out@[i + 1]).value),
            spec_im(out@[i].value),
        ) by {
            if i + 1 < j {
                assert(out@[i] == s0[i] && out@[i + 1] == s0[i + 1]);
            } else if i + 1 == j {
                assert(out@[i] == s0[i] && out@[i + 1] == p);
            } else if i == j {
                assert(out@[i] == p && out@[i + 1] == s0[i]);
            } else {
                assert(out@[i] == s0[i - 1] && out@[i + 1] == s0[i]);
            }
        }
    }
}

/// Copies a complex 4-vector entry by entry.
fn copy_vec4(v: &Vec<Complex64>) -> (r: Vec<Complex64>)
    requires
        v@.len() == 4,
    ensures
        r@ == v@,
{
    let mut r: Vec<Complex64> = Vec::new();
    r.push(v[0]);
    r.push(v[1]);
    r.push(v[2]);
    r.push(v[3]);
    proof {
        assert(r@ =~= v@);
    }
    r
}

/// Builds the all-zero complex 4-vector.
fn zero_vec4() -> (r: Vec<Complex64>)
    ensures
        r@ == zero_seq(4),
{
    let z = c_from_int(0);
    let mut r: Vec<Complex64> = Vec::new();
    r.push(z);
    r.push(z);
    r.push(z);
    r.push(z);
    proof {
        assert(r@ =~= zero_seq(4));
    }
    r
}

/// The sorted valid pairs the engine recovers from a factor pair (T, Q).
pub open spec fn engine_pairs(t: Seq<Seq<Complex64>>, q: Seq<Seq<Complex64>>) -> Seq<
    (Complex64, Seq<Complex64>),
> {
    let bs = blocks_spec(t, 0);
    sort_by_im(valid_pairs_upto(t, q, bs, bs.len() as int))
}

/// The four reported eigenvalues: the first four sorted pairs, padded with
/// the converted zero.
pub open spec fn selected_vals(s: Seq<(Complex64, Seq<Complex64>)>) -> Seq<Complex64> {
    Seq::new(
        4,
        |i: int|
            if i < s.len() {
                s[i].0
            } else {
                spec_from_int(0)
            },
    )
}

/// The four reported eigenvectors: the first four sorted pairs, padded with
/// the zero vector.
pub open spec fn selected_vecs(s: Seq<(Complex64, Seq<Complex64>)>) -> Seq<Seq<Complex64>> {
    Seq::new(
        4,
        |i: int|
            if i < s.len() {
                s[i].1
            } else {
                zero_seq(4)
            },
    )
}

/// Derives one candidate pair for a block eigenvalue, applying the validity
/// floor and normalizing survivors.
fn try_pair(
    t: &Vec<Vec<Complex64>>,
    q: &Vec<Vec<Complex64>>,
    b: &SchurBlock,
    lambda: Complex64,
) -> (r: Option<EigenPair>)
    requires
        is_matrix(rows_view(t@), 8, 8),
        is_matrix(rows_view(q@), 8, 8),
        block_wf(rows_view(t@), *b),
    ensures
        match r {
            Some(p) => valid_pair_of(rows_view(t@), rows_view(q@), *b, lambda) == seq![
                pair_view(p),
            ] && p.vector@.len() == 4,
            None => valid_pair_of(rows_view(t@), rows_view(q@), *b, lambda) == Seq::<
                (Complex64, Seq<Complex64>),
            >::empty(),
        },
{
    let x = solve_block_vector(t, b, lambda);
    let res = apply_q(q, &x);
    let v = recombine(&res);
    let nm = vec_norm4(&v);
    let tolv = c_tol_vec();
    if c_lt(tolv, nm) {
        let w = normalize4(&v, nm);
        let p = EigenPair { value: lambda, vector: w };
        proof {
            assert(valid_pair_of(rows_view(t@), rows_view(q@), *b, lambda) =~= seq![pair_view(p)]);
        }
        Some(p)
    } else {
        proof {
            assert(valid_pair_of(rows_view(t@), rows_view(q@), *b, lambda) =~= Seq::<
                (Complex64, Seq<Complex64>),
            >::empty());
        }
        None
    }
}

/// Recovers the engine's result from a Schur factor pair: for every block
/// eigenvalue a candidate vector, filtered, normalized, kept sorted by
/// ascending imaginary part, then cut and padded to exactly four pairs.
pub fn eigenpairs_from_schur(t: &Vec<Vec<Complex64>>, q: &Vec<Vec<Complex64>>) -> (r: (
    Vec<Complex64>,
    Vec<Vec<Complex64>>,
))
    requires
        is_matrix(rows_view(t@), 8, 8),
        is_matrix(rows_view(q@), 8, 8),
    ensures
        r.0@.len() == 4,
        r.1@.len() == 4,
        forall|i: int| 0 <= i < 4 ==> (#[trigger] r.1@[i])@.len() == 4,
        r.0@ == selected_vals(engine_pairs(rows_view(t@), rows_view(q@))),
        rows_view(r.1@) == selected_vecs(engine_pairs(rows_view(t@), rows_view(q@))),
        forall|i: int|
            0 <= i < 3 && i + 1 < engine_pairs(rows_view(t@), rows_view(q@)).len() ==> !spec_lt(
                spec_im(#[trigger] r.0@[i + 1]),
                spec_im(r.0@[i]),
            ),
{
    let ghost tv = rows_view(t@);
    let ghost qv = rows_view(q@);
    let blocks = scan_blocks(t);
    let ghost bs = blocks@;

    let mut out: Vec<EigenPair> = Vec::new();
    let mut bi: usize = 0;
    while bi < blocks.len()
        invariant
            is_matrix(tv, 8, 8),
            is_matrix(qv, 8, 8),
            tv == rows_view(t@),
            qv == rows_view(q@),
            bs == blocks@,
            forall|k: int| 0 <= k < bs.len() ==> block_wf(tv, #[trigger] bs[k]),
            bi <= bs.len(),
            sorted_adjacent(out@),
            forall|i: int| 0 <= i < out@.len() ==> (#[trigger] out@[i]).vector@.len() == 4,
            pairs_view(out@) == sort_by_im(valid_pairs_upto(tv, qv, bs, bi as int)),
        decreases bs.len() - bi,
    {
        let b = blocks[bi];
        let ghost before = pairs_view(out@);
        let ghost list0 = valid_pairs_upto(tv, qv, bs, bi as int);
        match try_pair(t, q, &b, b.l1) {
            Some(p) => {
                proof {
                    assert((list0 + valid_pair_of(tv, qv, b, b.l1)).drop_last() =~= list0);
                    assert((list0 + valid_pair_of(tv, qv, b, b.l1)).last() == pair_view(p));
                }
                insert_pair_sorted(&mut out, p);
            },
            None => {
                proof {
                    assert(list0 + valid_pair_of(tv, qv, b, b.l1) =~= list0);
                }
            },
        }
        proof {
            assert(pairs_view(out@) == sort_by_im(list0 + valid_pair_of(tv, qv, b, b.l1)));
        }
        let ghost list1 = list0 + valid_pair_of(tv, qv, b, b.l1);
        if b.is_pair {
            match try_pair(t, q, &b, b.l2) {
                Some(p) => {
                    proof {
                        assert((list1 + valid_pair_of(tv, qv, b, b.l2)).drop_last() =~= list1);
                        assert((list1 + valid_pair_of(tv, qv, b, b.l2)).last() == pair_view(p));
                    }
                    insert_pair_sorted(&mut out, p);
                },
                None => {
                    proof {
                        assert(list1 + valid_pair_of(tv, qv, b, b.l2) =~= list1);
                    }
                },
            }
            proof {
                assert(pairs_view(out@) == sort_by_im(list1 + valid_pair_of(tv, qv, b, b.l2)));
                assert(list1 + valid_pair_of(tv, qv, b, b.l2) =~= list0 + block_pairs(tv, qv, b));
            }
        } else {
            proof {
                assert(list1 =~= list0 + block_pairs(tv, qv, b));
            }
        }
        proof {
            assert(valid_pairs_upto(tv, qv, bs, bi as int + 1) == list0 + block_pairs(
                tv,
                qv,
                bs[bi as int],
            ));
        }
        bi = bi + 1;
    }
    proof {
        assert(pairs_view(out@) == engine_pairs(tv, qv));
    }

    let mut vals: Vec<Complex64> = Vec::new();
    let mut vecs: Vec<Vec<Complex64>> = Vec::new();
    let mut i: usize = 0;
    while i < 4
        invariant
            i <= 4,
            vals@.len() == i,
            vecs@.len() == i,
            sorted_adjacent(out@),
            forall|p: int| 0 <= p < out@.len() ==> (#[trigger] out@[p]).vector@.len() == 4,
            pairs_view(out@) == engine_pairs(tv, qv),
            forall|p: int|
                0 <= p < i && p < out@.len() ==> vals@[p] == (#[trigger] out@[p]).value
                    && (vecs@[p])@ == out@[p].vector@,
            forall|p: int|
                0 <= p < i && p >= out@.len() ==> (#[trigger] vals@[p]) == spec_from_int(0) && (
                vecs@[p])@ == zero_seq(4),
        decreases 4 - i,
    {
        let ghost vals0 = vals@;
        let ghost vecs0 = vecs@;
        if i < out.len() {
            vals.push(out[i].value);
            let w = copy_vec4(&out[i].vector);
            vecs.push(w);
        } else {
            vals.push(c_from_int(0));
            let w = zero_vec4();
            vecs.push(w);
        }
        proof {
            assert forall|p: int|
                0 <= p < i + 1 && p < out@.len() implies vals@[p] == (#[trigger] out@[p]).value
                && (vecs@[p])@ == out@[p].vector@ by {
                if p < i {
                    assert(vals@[p] == vals0[p]);
                    assert(vecs@[p] == vecs0[p]);
                }
            }
            assert forall|p: int|
                0 <= p < i + 1 && p >= out@.len() implies (#[trigger] vals@[p]) == spec_from_int(0)
                && (vecs@[p])@ == zero_seq(4) by {
                if p < i {
                    assert(vals@[p] == vals0[p]);
                    assert(vecs@[p] == vecs0[p]);
                }
            }
        }
        i = i + 1;
    }
    proof {
        let ghost ep = engine_pairs(tv, qv);
        assert forall|i2: int|
            0 <= i2 < 4 implies vals@[i2] == selected_vals(ep)[i2]
            && (vecs@[i2])@ == selected_vecs(ep)[i2] by {
            if i2 < out@.len() {
                assert(pairs_view(out@)[i2] == pair_view(out@[i2]));
            }
        }
        assert(vals@ =~= selected_vals(engine_pairs(tv, qv)));
        assert(rows_view(vecs@) =~= selected_vecs(engine_pairs(tv, qv)));
        assert forall|i2: int| 0 <= i2 < 4 implies (#[trigger] vecs@[i2])@.len() == 4 by {
            if i2 < out@.len() {
                assert((vecs@[i2])@ == out@[i2].vector@);
            } else {
                assert(vals@[i2] == spec_from_int(0));
                assert((vecs@[i2])@ == zero_seq(4));
            }
        }
        assert forall|i2: int|
            0 <= i2 < 3 && i2 + 1 < engine_pairs(tv, qv).len() implies !spec_lt(
            spec_im(#[trigger] vals@[i2 + 1]),
            spec_im(vals@[i2]),
        ) by {
            assert(vals@[i2] == out@[i2].value);
            assert(vals@[i2 + 1] == out@[i2 + 1].value);
        }
    }
    (vals, vecs)
}

/// The first `k` reported eigenvalues never decrease in imaginary part.
pub open spec fn sorted_head_upto(vals: Seq<Complex64>, k: int) -> bool {
    forall|i: int| 0 <= i < k - 1 ==> !spec_lt(spec_im(vals[i + 1]), spec_im(#[trigger] vals[i]))
}

/// From position `k` on, the reported pairs are the zero padding.
pub open spec fn padded_tail_from(vals: Seq<Complex64>, vecs: Seq<Seq<Complex64>>, k: int) -> bool {
    forall|i: int| k <= i < 4 ==> (#[trigger] vals[i]) == spec_from_int(0) && vecs[i] == zero_seq(4)
}

/// Iteration cap handed to the Schur factorization.
pub const SCHUR_MAX_ITER: usize = 100000;

/// Solves the coupled-wave eigenproblem of the combined 4x4 complex matrix.
///
/// Lifts the matrix to its 8x8 real form, computes a real Schur
/// factorization through `nalgebra` (capped iteration; the all-degenerate
/// result comes back in the exceptional case that the iteration does not
/// converge), and recovers exactly four (eigenvalue, eigenvector) pairs:
/// the surviving pairs sorted by ascending imaginary part, padded with
/// zero pairs, each reported vector of length four.  Padded entries mean
/// "no mode found", not a physical zero-loss mode.
///
/// The last clause pins the whole result: it is exactly the selection from
/// the sorted valid pairs of the named Schur factor pair of the lift, so
/// two calls on one matrix return one result, and eigenvalue i is paired
/// with eigenvector i.
#[verifier::rlimit(50)]
pub fn solve_cwt_eigenproblem(c_total: &Vec<Vec<Complex64>>) -> (r: (
    Vec<Complex64>,
    Vec<Vec<Complex64>>,
))
    requires
        is_matrix(rows_view(c_total@), 4, 4),
    ensures
        r.0@.len() == 4,
        r.1@.len() == 4,
        forall|i: int| 0 <= i < 4 ==> (#[trigger] r.1@[i])@.len() == 4,
        exists|k: int|
            #![trigger sorted_head_upto(r.0@, k)]
            0 <= k <= 4 && sorted_head_upto(r.0@, k) && padded_tail_from(
                r.0@,
                rows_view(r.1@),
                k,
            ),
        match spec_schur(lift_spec(rows_view(c_total@)), sc_mach_eps(), SCHUR_MAX_ITER) {
            Some(qt) => r.0@ == selected_vals(engine_pairs(qt.1, qt.0)) && rows_view(r.1@)
                == selected_vecs(engine_pairs(qt.1, qt.0)),
            None => padded_tail_from(r.0@, rows_view(r.1@), 0),
        },
{
    let m = lift_to_real(c_total);
    let eps = c_mach_eps();
    match schur_decompose(&m, eps, SCHUR_MAX_ITER) {
        Some(qt) => {
            let (qm, tm) = qt;
            let r = eigenpairs_from_schur(&tm, &qm);
            proof {
                assert(rows_view(m@) == lift_spec(rows_view(c_total@)));
                assert(spec_schur(lift_spec(rows_view(c_total@)), sc_mach_eps(), SCHUR_MAX_ITER)
                    == Some((rows_view(qm@), rows_view(tm@))));
                let ep = engine_pairs(rows_view(tm@), rows_view(qm@));
                let k: int = if ep.len() < 4 {
                    ep.len() as int
                } else {
                    4
                };
                assert forall|i: int| k <= i < 4 implies r.0@[i] == spec_from_int(0) && rows_view(
                    r.1@,
                )[i] == zero_seq(4) by {
                    assert(r.0@[i] == selected_vals(ep)[i]);
                    assert(rows_view(r.1@)[i] == selected_vecs(ep)[i]);
                }
                assert(0 <= k <= 4 && sorted_head_upto(r.0@, k) && padded_tail_from(
                    r.0@,
                    rows_view(r.1@),
                    k,
                ));
                assert(exists|k2: int|
                    #![trigger sorted_head_upto(r.0@, k2)]
                    0 <= k2 <= 4 && sorted_head_upto(r.0@, k2) && padded_tail_from(
                        r.0@,
                        rows_view(r.1@),
                        k2,
                    ));
            }
            r
        },
        None => {
            let mut vals: Vec<Complex64> = Vec::new();
            let mut vecs: Vec<Vec<Complex64>> = Vec::new();
            let mut i: usize = 0;
            while i < 4
                invariant
                    i <= 4,
                    vals@.len() == i,
                    vecs@.len() == i,
                    forall|p: int| 0 <= p < i ==> vals@[p] == spec_from_int(0),
                    forall|p: int| 0 <= p < i ==> (#[trigger] vecs@[p])@ == zero_seq(4),
                decreases 4 - i,
            {
                vals.push(c_from_int(0));
                let w = zero_vec4();
                vecs.push(w);
                i = i + 1;
            }
            proof {
                let k: int = 0;
                assert forall|p: int| 0 <= p < 4 implies rows_view(vecs@)[p] == zero_seq(4) by {
                    assert(rows_view(vecs@)[p] == vecs@[p]@);
                }
                assert(0 <= k <= 4 && sorted_head_upto(vals@, k) && padded_tail_from(
                    vals@,
                    rows_view(vecs@),
                    k,
                ));
                assert(exists|k2: int|
                    #![trigger sorted_head_upto(vals@, k2)]
                    0 <= k2 <= 4 && sorted_head_upto(vals@, k2) && padded_tail_from(
                        vals@,
                        rows_view(vecs@),
                        k2,
                    ));
            }
            (vals, vecs)
        },
    }
}

} // verus!
