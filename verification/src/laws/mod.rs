//! The algebraic laws that connect the matrix operations.
//!
//! The laws of transposition and of minors hold for every element type. The
//! laws of arithmetic, of the determinant and of the cofactors are stated for
//! element types with exact integer arithmetic and for operands on which the
//! operations involved are defined; where an operation's definedness follows
//! from the rest, the law ensures it.

pub mod adjugate;
pub mod expansion;
pub mod ring;
pub mod shape;
mod sums;
