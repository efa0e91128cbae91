//! Dense matrices over a numeric element type, with machine-checked contracts.
//!
//! [`Matrix`] stores its cells in one row-major buffer. It offers construction,
//! access to cells, equality, scaling, sum, difference, product, transposition,
//! minors, and, in a scalar type of the caller's choice, determinant, cofactor
//! matrix and inverse.
//!
//! - [`model`] says what each operation computes, over sequences of rows.
//! - [`matrix`] and [`determinant`] hold the operations themselves.
//! - [`exact`] describes element types with exact integer arithmetic.
//! - [`laws`] proves the algebraic laws that connect the operations.
//!
//! The contracts describe cells through the element type's own operators, as
//! `vstd` specifies them. For the built-in integers that is exact arithmetic
//! as long as every result fits the type. Of floating-point results `vstd`
//! says nothing: with `f32` or `f64` cells the operations run all the same,
//! and the contracts then give shapes and refusals, not the value of a cell.

pub mod determinant;
pub mod error;
pub mod exact;
pub mod laws;
pub mod matrix;
pub mod model;

pub use error::MatrixError;
pub use matrix::Matrix;
