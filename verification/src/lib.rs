//! Coupled-wave-theory (CWT) band-edge solver for photonic-crystal slabs.
//!
//! The crate assembles the 4x4 complex coupling matrix of the four-wave
//! basis (Rx, Sx, Ry, Sy) from Fourier susceptibility coefficients and a
//! guided-mode profile, and extracts complex eigenpairs of that matrix
//! through a real Schur decomposition of its 8x8 real lift.
//!
//! Modules:
//! * `cx` — the scalar type (`num_complex::Complex64`, opaque to the
//!   verifier), the named trusted arithmetic operations, and small matrix
//!   helpers;
//! * `greens` — the radiative Green's-function double integral of the
//!   guided-mode profile;
//! * `assemble` — the in-plane, radiative and two-dimensional coupling
//!   matrices;
//! * `schur` — the real Schur factorization, delegated to `nalgebra`;
//! * `eigen` — block classification, eigenvector recovery,
//!   back-substitution, filtering, sorting and padding of the eigenpairs;
//! * `field` — plane-wave reconstruction of the spatial field of each mode.
//!
//! All scalars are carried as `num_complex::Complex64` values (real
//! quantities with zero imaginary part).  The numeric operations themselves
//! are performed by `num_complex`, `nalgebra` and the floating-point unit
//! and are trusted; every function of this crate is verified to apply
//! exactly the documented sequence of those operations, and the structural
//! guarantees (shapes, zero patterns, ordering, padding) are proved for
//! every value the trusted operations could return.

pub mod assemble;
pub mod cx;
pub mod eigen;
pub mod field;
pub mod greens;
pub mod schur;
