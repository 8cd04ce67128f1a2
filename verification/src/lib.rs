//! A minimal dense-matrix engine, verified.
//!
//! A matrix owns a flat row-major buffer of IEEE binary64 values, carried as
//! bit patterns, together with its row and column counts. The engine offers
//! construction, indexed access, bulk ingestion from a closed family of
//! numeric variants, and the arithmetic operation set (element-wise addition,
//! subtraction and Hadamard product, scalar division, matrix multiplication,
//! dot product and transposition). Shape violations, zero divisors and
//! out-of-range accesses come back as typed errors.

pub mod error;
pub mod matrix;
pub mod ops;
pub mod scalar;
pub mod variant;

pub use error::MatrixError;
pub use matrix::MatView;
pub use matrix::NnfwMatrix;
pub use variant::def;
