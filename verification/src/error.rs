//! The ways in which a matrix operation can be refused.

use vstd::prelude::*;

verus! {

/// Why an operation was refused. A refused operation leaves its operands untouched.
#[derive(Debug, Clone, Copy, PartialEq, Eq, Structural)]
pub enum MatrixError {
    /// A dimension of zero at construction, or a minor of a matrix smaller than 2 x 2.
    InvalidShape,
    /// A row or column position outside the matrix.
    IndexOutOfRange,
    /// Operands whose shapes do not fit the operation.
    ShapeMismatch,
    /// A determinant, cofactor matrix or inverse of a matrix that is not square.
    NotSquare,
    /// The inverse of a matrix whose determinant is zero.
    Singular,
}

} // verus!
