//! The scalar type of the solver and its trusted arithmetic.
//!
//! Every real or complex quantity of the solver is carried as a
//! `num_complex::Complex64` (real quantities with zero imaginary part).
//! Verus sees such a value as opaque; what an arithmetic operation returns
//! is given a name (an uninterpreted spec function), and each trusted
//! wrapper below states that it returns exactly the named value.  Contracts
//! of the verified code are exact over these names: they pin down which
//! operations are applied, to which operands, in which order.  A name
//! denotes the value the running platform's floating-point operation
//! returns, a fixed function of the operands within any one build; whether
//! the operations themselves are the right primitives is checked by the
//! crate's tests, which run against the real `num_complex`.

use vstd::prelude::*;
use num_complex::Complex64;
use num_traits::ToPrimitive;

verus! {

#[verifier::external_type_specification]
#[verifier::external_body]
#[verifier::reject_recursive_types(T)]
pub struct ExComplex<T>(num_complex::Complex<T>);

/// The complex number that converting the integer `n` yields.
pub uninterp spec fn spec_from_int(n: int) -> Complex64;

/// Relies on `num_traits::ToPrimitive::to_f64` for `i64` (never `None`)
/// and `num_complex::Complex::from`: the result is a function of `n` alone.
#[verifier::external_body]
pub(crate) fn c_from_int(n: i64) -> (r: Complex64)
    ensures
        r == spec_from_int(n as int),
{
    Complex64::from(n.to_f64().unwrap())
}

/// The complex number whose parts are the real parts of `re` and `im`.
pub uninterp spec fn spec_make(re: Complex64, im: Complex64) -> Complex64;

/// Relies on `num_complex::Complex::new`, fed the real parts of the
/// two operands.
#[verifier::external_body]
pub(crate) fn c_make(re: Complex64, im: Complex64) -> (r: Complex64)
    ensures
        r == spec_make(re, im),
{
    Complex64::new(re.re, im.re)
}

/// The sum of two complex numbers.
pub uninterp spec fn spec_add(a: Complex64, b: Complex64) -> Complex64;

/// Relies on `num_complex`'s `Add` for `Complex64`.
#[verifier::external_body]
pub(crate) fn c_add(a: Complex64, b: Complex64) -> (r: Complex64)
    ensures
        r == spec_add(a, b),
{
    a + b
}

/// The difference of two complex numbers.
pub uninterp spec fn spec_sub(a: Complex64, b: Complex64) -> Complex64;

/// Relies on `num_complex`'s `Sub` for `Complex64`.
#[verifier::external_body]
pub(crate) fn c_sub(a: Complex64, b: Complex64) -> (r: Complex64)
    ensures
        r == spec_sub(a, b),
{
    a - b
}

/// The product of two complex numbers.
pub uninterp spec fn spec_mul(a: Complex64, b: Complex64) -> Complex64;

/// Relies on `num_complex`'s `Mul` for `Complex64`.
#[verifier::external_body]
pub(crate) fn c_mul(a: Complex64, b: Complex64) -> (r: Complex64)
    ensures
        r == spec_mul(a, b),
{
    a * b
}

/// The quotient of two complex numbers.
pub uninterp spec fn spec_div(a: Complex64, b: Complex64) -> Complex64;

/// Relies on `num_complex`'s `Div` for `Complex64`.
#[verifier::external_body]
pub(crate) fn c_div(a: Complex64, b: Complex64) -> (r: Complex64)
    ensures
        r == spec_div(a, b),
{
    a / b
}

/// The product of a complex number and the real part of `s`
/// (componentwise scalar multiplication).
pub uninterp spec fn spec_scale(a: Complex64, s: Complex64) -> Complex64;

/// Relies on `num_complex`'s `Mul<f64>` for `Complex64` (componentwise).
#[verifier::external_body]
pub(crate) fn c_scale(a: Complex64, s: Complex64) -> (r: Complex64)
    ensures
        r == spec_scale(a, s),
{
    a * s.re
}

/// The quotient of a complex number by the real part of `s`
/// (componentwise scalar division).
pub uninterp spec fn spec_div_sc(a: Complex64, s: Complex64) -> Complex64;

/// Relies on `num_complex`'s `Div<f64>` for `Complex64` (componentwise).
#[verifier::external_body]
pub(crate) fn c_div_sc(a: Complex64, s: Complex64) -> (r: Complex64)
    ensures
        r == spec_div_sc(a, s),
{
    a / s.re
}

/// The negation of a complex number.
pub uninterp spec fn spec_neg(a: Complex64) -> Complex64;

/// Relies on `num_complex`'s `Neg` for `Complex64`.
#[verifier::external_body]
pub(crate) fn c_neg(a: Complex64) -> (r: Complex64)
    ensures
        r == spec_neg(a),
{
    -a
}

/// The complex conjugate.
pub uninterp spec fn spec_conj(a: Complex64) -> Complex64;

/// Relies on `num_complex::Complex::conj`.
#[verifier::external_body]
pub(crate) fn c_conj(a: Complex64) -> (r: Complex64)
    ensures
        r == spec_conj(a),
{
    a.conj()
}

/// The complex exponential.
pub uninterp spec fn spec_exp(a: Complex64) -> Complex64;

/// Relies on `num_complex::Complex::exp`.
#[verifier::external_body]
pub(crate) fn c_exp(a: Complex64) -> (r: Complex64)
    ensures
        r == spec_exp(a),
{
    a.exp()
}

/// The principal complex square root.
pub uninterp spec fn spec_sqrt(a: Complex64) -> Complex64;

/// Relies on `num_complex::Complex::sqrt`.
#[verifier::external_body]
pub(crate) fn c_sqrt(a: Complex64) -> (r: Complex64)
    ensures
        r == spec_sqrt(a),
{
    a.sqrt()
}

/// The real square root of the real part, as a real-valued complex number.
pub uninterp spec fn spec_sqrt_re(a: Complex64) -> Complex64;

/// Relies on `f64::sqrt`, applied to the real part.
#[verifier::external_body]
pub(crate) fn c_sqrt_re(a: Complex64) -> (r: Complex64)
    ensures
        r == spec_sqrt_re(a),
{
    Complex64::from(a.re.sqrt())
}

/// The absolute value of the real part, as a real-valued complex number.
pub uninterp spec fn spec_abs_re(a: Complex64) -> Complex64;

/// Relies on `f64::abs`, applied to the real part.
#[verifier::external_body]
pub(crate) fn c_abs_re(a: Complex64) -> (r: Complex64)
    ensures
        r == spec_abs_re(a),
{
    Complex64::from(a.re.abs())
}

/// The modulus |a|, as a real-valued complex number.
pub uninterp spec fn spec_cnorm(a: Complex64) -> Complex64;

/// Relies on `num_complex::Complex::norm` (hypot of the two parts).
#[verifier::external_body]
pub(crate) fn c_cnorm(a: Complex64) -> (r: Complex64)
    ensures
        r == spec_cnorm(a),
{
    Complex64::from(a.norm())
}

/// The squared modulus re^2 + im^2, as a real-valued complex number.
pub uninterp spec fn spec_norm_sqr(a: Complex64) -> Complex64;

/// Relies on `num_complex::Complex::norm_sqr`.
#[verifier::external_body]
pub(crate) fn c_norm_sqr(a: Complex64) -> (r: Complex64)
    ensures
        r == spec_norm_sqr(a),
{
    Complex64::from(a.norm_sqr())
}

/// The real part raised to the integer power `n`, real-valued.
pub uninterp spec fn spec_powi(a: Complex64, n: i32) -> Complex64;

/// Relies on `f64::powi`, applied to the real part.
#[verifier::external_body]
pub(crate) fn c_powi(a: Complex64, n: i32) -> (r: Complex64)
    ensures
        r == spec_powi(a, n),
{
    Complex64::from(a.re.powi(n))
}

/// The real part, as a real-valued complex number.
pub uninterp spec fn spec_re(a: Complex64) -> Complex64;

/// Relies on reading the `re` field through `num_complex::Complex::from`.
#[verifier::external_body]
pub(crate) fn c_re(a: Complex64) -> (r: Complex64)
    ensures
        r == spec_re(a),
{
    Complex64::from(a.re)
}

/// The imaginary part, as a real-valued complex number.
pub uninterp spec fn spec_im(a: Complex64) -> Complex64;

/// Relies on reading the `im` field through `num_complex::Complex::from`.
#[verifier::external_body]
pub(crate) fn c_im(a: Complex64) -> (r: Complex64)
    ensures
        r == spec_im(a),
{
    Complex64::from(a.im)
}

/// Whether the real part of `a` is strictly below the real part of `b`.
pub uninterp spec fn spec_lt(a: Complex64, b: Complex64) -> bool;

/// Relies on `<` for `f64`, applied to the real parts.  IEEE strict
/// comparison is asymmetric (both directions are false on a NaN), which the
/// second half of the clause records.
#[verifier::external_body]
pub(crate) fn c_lt(a: Complex64, b: Complex64) -> (r: bool)
    ensures
        r == spec_lt(a, b) && (r ==> !spec_lt(b, a)),
{
    a.re < b.re
}

// ---------------------------------------------------------------------------
// Derived constants, built in verified code from the trusted operations.
// ---------------------------------------------------------------------------

/// Numerator of the IEEE double closest to pi: its 53-bit significand.
pub const PI_NUM: i64 = 884279719003555;

/// Denominator of the IEEE double closest to pi: 2^48.  The quotient of the
/// two integers is exactly representable, so the division is exact.
pub const PI_DEN: i64 = 281474976710656;

/// The IEEE double closest to pi, real-valued.
pub open spec fn sc_pi() -> Complex64 {
    spec_div_sc(spec_from_int(PI_NUM as int), spec_from_int(PI_DEN as int))
}

pub fn c_pi() -> (r: Complex64)
    ensures
        r == sc_pi(),
{
    let num = c_from_int(PI_NUM);
    let den = c_from_int(PI_DEN);
    c_div_sc(num, den)
}

/// The block-detection and singularity tolerance 10^-9, real-valued.
pub open spec fn sc_tol_block() -> Complex64 {
    spec_div_sc(spec_from_int(1), spec_from_int(1000000000))
}

pub fn c_tol_block() -> (r: Complex64)
    ensures
        r == sc_tol_block(),
{
    let num = c_from_int(1);
    let den = c_from_int(1000000000);
    c_div_sc(num, den)
}

/// The eigenvector validity floor 10^-3, real-valued.
pub open spec fn sc_tol_vec() -> Complex64 {
    spec_div_sc(spec_from_int(1), spec_from_int(1000))
}

pub fn c_tol_vec() -> (r: Complex64)
    ensures
        r == sc_tol_vec(),
{
    let num = c_from_int(1);
    let den = c_from_int(1000);
    c_div_sc(num, den)
}

/// The machine epsilon 2^-52 of IEEE doubles, real-valued.
pub open spec fn sc_mach_eps() -> Complex64 {
    spec_div_sc(spec_from_int(1), spec_from_int(4503599627370496))
}

pub fn c_mach_eps() -> (r: Complex64)
    ensures
        r == sc_mach_eps(),
{
    let num = c_from_int(1);
    let den = c_from_int(4503599627370496);
    c_div_sc(num, den)
}

/// One half, real-valued.  10^0 over 2: the division is exact.
pub open spec fn sc_half() -> Complex64 {
    spec_div_sc(spec_from_int(1), spec_from_int(2))
}

pub fn c_half() -> (r: Complex64)
    ensures
        r == sc_half(),
{
    let num = c_from_int(1);
    let den = c_from_int(2);
    c_div_sc(num, den)
}

// ---------------------------------------------------------------------------
// Small matrix helpers.
// ---------------------------------------------------------------------------

/// The sequence of row views of a matrix held as a vector of rows.
pub open spec fn rows_view(m: Seq<Vec<Complex64>>) -> Seq<Seq<Complex64>> {
    Seq::new(m.len(), |i: int| m[i]@)
}

/// An r-by-c matrix shape.
pub open spec fn is_matrix(m: Seq<Seq<Complex64>>, r: int, c: int) -> bool {
    m.len() == r && forall|i: int| 0 <= i < r ==> (#[trigger] m[i]).len() == c
}

/// Bridges the matrix shape predicate to the row vectors it speaks of.
pub proof fn lemma_matrix_rows(m: Seq<Vec<Complex64>>, r: int, c: int)
    requires
        is_matrix(rows_view(m), r, c),
    ensures
        m.len() == r,
        forall|i: int| 0 <= i < r ==> (#[trigger] m[i])@.len() == c,
        forall|i: int| 0 <= i < r ==> rows_view(m)[i] == (#[trigger] m[i])@,
{
    assert forall|i: int|
        0 <= i < r implies (#[trigger] m[i])@.len() == c && rows_view(m)[i] == m[i]@ by {
        assert(rows_view(m)[i] == m[i]@);
    }
}

/// Builds an n-by-n matrix every entry of which is the converted zero.
pub fn zero_matrix(n: usize) -> (r: Vec<Vec<Complex64>>)
    ensures
        is_matrix(rows_view(r@), n as int, n as int),
        forall|i: int, j: int|
            0 <= i < n && 0 <= j < n ==> rows_view(r@)[i][j] == spec_from_int(0),
{
    let mut rows: Vec<Vec<Complex64>> = Vec::new();
    let mut i: usize = 0;
    while i < n
        invariant
            i <= n,
            rows@.len() == i,
            forall|p: int| 0 <= p < i ==> (#[trigger] rows@[p])@.len() == n,
            forall|p: int, q: int|
                0 <= p < i && 0 <= q < n ==> rows@[p]@[q] == spec_from_int(0),
        decreases n - i,
    {
        let mut row: Vec<Complex64> = Vec::new();
        let mut j: usize = 0;
        while j < n
            invariant
                j <= n,
                row@.len() == j,
                forall|q: int| 0 <= q < j ==> row@[q] == spec_from_int(0),
            decreases n - j,
        {
            let z = c_from_int(0);
            row.push(z);
            j = j + 1;
        }
        rows.push(row);
        i = i + 1;
    }
    assert(rows_view(rows@).len() == n);
    rows
}

/// Elementwise sum of two equally shaped matrices, as the original
/// coupling-matrix summation performs it entry by entry.
pub fn matrix_add(a: &Vec<Vec<Complex64>>, b: &Vec<Vec<Complex64>>) -> (r: Vec<Vec<Complex64>>)
    requires
        a@.len() == b@.len(),
        forall|i: int| 0 <= i < a@.len() ==> (#[trigger] a@[i])@.len() == (#[trigger] b@[i])@.len(),
    ensures
        r@.len() == a@.len(),
        forall|i: int| 0 <= i < a@.len() ==> (#[trigger] r@[i])@.len() == a@[i]@.len(),
        forall|i: int, j: int|
            0 <= i < a@.len() && 0 <= j < a@[i]@.len()
                ==> r@[i]@[j] == spec_add(a@[i]@[j], b@[i]@[j]),
{
    let mut rows: Vec<Vec<Complex64>> = Vec::new();
    let mut i: usize = 0;
    while i < a.len()
        invariant
            i <= a@.len(),
            a@.len() == b@.len(),
            forall|p: int|
                0 <= p < a@.len() ==> (#[trigger] a@[p])@.len() == (#[trigger] b@[p])@.len(),
            rows@.len() == i,
            forall|p: int| 0 <= p < i ==> (#[trigger] rows@[p])@.len() == a@[p]@.len(),
            forall|p: int, q: int|
                0 <= p < i && 0 <= q < a@[p]@.len()
                    ==> rows@[p]@[q] == spec_add(a@[p]@[q], b@[p]@[q]),
        decreases a@.len() - i,
    {
        let mut row: Vec<Complex64> = Vec::new();
        let mut j: usize = 0;
        while j < a[i].len()
            invariant
                0 <= i < a@.len(),
                a@.len() == b@.len(),
                a@[i as int]@.len() == b@[i as int]@.len(),
                j <= a@[i as int]@.len(),
                row@.len() == j,
                forall|q: int|
                    0 <= q < j ==> row@[q] == spec_add(a@[i as int]@[q], b@[i as int]@[q]),
            decreases a@[i as int]@.len() - j,
        {
            let s = c_add(a[i][j], b[i][j]);
            row.push(s);
            j = j + 1;
        }
        rows.push(row);
        i = i + 1;
    }
    rows
}

} // verus!
