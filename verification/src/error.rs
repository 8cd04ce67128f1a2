//! The engine's error taxonomy.
//!
//! Every failure a matrix operation can report is one of these variants, each
//! carrying the dimensions that explain it; no operation panics.

use vstd::prelude::*;

verus! {

#[derive(Clone, Copy, Debug, PartialEq, Eq, Structural)]
pub enum MatrixError {
    /// A constructor was given a non-positive dimension.
    InvalidShape { rows: usize, cols: usize },
    /// A binary operation or an ingestion found disagreeing dimensions: the
    /// shape the operation expected and the shape it found. A flat sequence
    /// of length `n` is reported as the shape `1 x n`.
    ShapeMismatch {
        expected_rows: usize,
        expected_cols: usize,
        found_rows: usize,
        found_cols: usize,
    },
    /// A scalar division was given a zero divisor.
    DivisionByZero,
    /// An indexed access lay outside the matrix: the offending index pair and
    /// the matrix's dimensions.
    IndexOutOfBounds { row: usize, col: usize, rows: usize, cols: usize },
}

} // verus!
