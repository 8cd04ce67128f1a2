//! The matrix type: storage, construction and indexed access.
//!
//! A matrix owns a flat buffer of binary64 bit patterns in row-major order
//! (the cell `(r, c)` sits at flat index `r * cols + c`) together with
//! positive row and column counts; the buffer's length always equals
//! `rows * cols`.

use vstd::prelude::*;
use crate::error::MatrixError;
use crate::scalar::ONE_BITS;
use crate::scalar::POS_ZERO_BITS;
use crate::variant::def;
use crate::variant::dbl_of;

verus! {

/// The mathematical content of a matrix: its dimensions and the sequence of
/// element bit patterns in row-major order.
#[verifier::ext_equal]
pub ghost struct MatView {
    pub rows: nat,
    pub cols: nat,
    pub data: Seq<u64>,
}

impl MatView {
    /// Well-formedness: positive dimensions and a buffer of exactly
    /// `rows * cols` elements. Constructors establish it and every operation
    /// preserves it.
    pub open spec fn wf(self) -> bool {
        &&& self.rows >= 1
        &&& self.cols >= 1
        &&& self.data.len() == self.rows * self.cols
    }

    /// The element of the cell `(r, c)`, at flat index `r * cols + c`.
    pub open spec fn at(self, r: int, c: int) -> u64 {
        self.data[r * self.cols + c]
    }

    pub open spec fn in_bounds(self, r: int, c: int) -> bool {
        0 <= r < self.rows && 0 <= c < self.cols
    }

    pub open spec fn same_shape(self, other: MatView) -> bool {
        self.rows == other.rows && self.cols == other.cols
    }
}

/// A row-major index is inside the buffer whenever its row and column are
/// inside the matrix.
pub proof fn lemma_flat_index_bound(r: int, c: int, rows: int, cols: int)
    by (nonlinear_arith)
    requires
        0 <= r < rows,
        0 <= c < cols,
    ensures
        0 <= r * cols + c < rows * cols,
{
}

/// Row-major indexing is injective: distinct cells use distinct flat indices.
pub proof fn lemma_flat_index_ne(r1: int, c1: int, r2: int, c2: int, cols: int)
    by (nonlinear_arith)
    requires
        0 <= c1 < cols,
        0 <= c2 < cols,
        0 <= r1,
        0 <= r2,
        r1 != r2 || c1 != c2,
    ensures
        r1 * cols + c1 != r2 * cols + c2,
{
}

/// A flat index decomposes into the row `i / cols` and the column `i % cols`.
pub proof fn lemma_flat_index_decompose(i: int, rows: int, cols: int)
    by (nonlinear_arith)
    requires
        cols >= 1,
        0 <= i < rows * cols,
    ensures
        0 <= i / cols < rows,
        0 <= i % cols < cols,
        i == (i / cols) * cols + i % cols,
{
}

#[derive(Debug)]
pub struct NnfwMatrix {
    matrix: Vec<u64>,
    rows: usize,
    cols: usize,
}

impl View for NnfwMatrix {
    type V = MatView;

    closed spec fn view(&self) -> MatView {
        MatView { rows: self.rows as nat, cols: self.cols as nat, data: self.matrix@ }
    }
}

/// A buffer of `n` copies of one element.
pub(crate) fn filled(n: usize, value: u64) -> (v: Vec<u64>)
    ensures
        v@.len() == n,
        forall|i: int| 0 <= i < n ==> v@[i] == value,
{
    let mut v: Vec<u64> = Vec::new();
    let mut k: usize = 0;
    while k < n
        invariant
            k <= n,
            v@.len() == k,
            forall|i: int| 0 <= i < k ==> v@[i] == value,
        decreases n - k,
    {
        v.push(value);
        k = k + 1;
    }
    v
}

impl NnfwMatrix {
    /// A `rows x cols` matrix with every cell set to `fill`; a zero dimension
    /// is rejected as `InvalidShape`.
    pub fn new(rows: usize, cols: usize, fill: u64) -> (r: Result<NnfwMatrix, MatrixError>)
        requires
            rows * cols <= usize::MAX,
        ensures
            match r {
                Ok(m) => {
                    &&& rows >= 1 && cols >= 1
                    &&& m@.wf()
                    &&& m@.rows == rows
                    &&& m@.cols == cols
                    &&& forall|i: int| 0 <= i < m@.data.len() ==> m@.data[i] == fill
                    &&& forall|a: int, b: int| m@.in_bounds(a, b) ==> m@.at(a, b) == fill
                },
                Err(e) => {
                    &&& (rows == 0 || cols == 0)
                    &&& e == (MatrixError::InvalidShape { rows, cols })
                },
            },
    {
        if rows == 0 || cols == 0 {
            return Err(MatrixError::InvalidShape { rows, cols });
        }
        let m = NnfwMatrix { matrix: filled(rows * cols, fill), rows, cols };
        proof {
            assert forall|a: int, b: int| m@.in_bounds(a, b) implies m@.at(a, b) == fill by {
                lemma_flat_index_bound(a, b, rows as int, cols as int);
            }
        }
        Ok(m)
    }

    /// A matrix assembled from a pre-built row-major buffer, which it takes
    /// ownership of; the buffer's length must be exactly `rows * cols`.
    pub fn merge_ethernal(matrix: Vec<u64>, rows: usize, cols: usize) -> (r: Result<
        NnfwMatrix,
        MatrixError,
    >)
        ensures
            match r {
                Ok(m) => {
                    &&& rows >= 1 && cols >= 1
                    &&& matrix@.len() == rows * cols
                    &&& m@.wf()
                    &&& m@.rows == rows
                    &&& m@.cols == cols
                    &&& m@.data == matrix@
                },
                Err(e) => {
                    ||| {
                        &&& (rows == 0 || cols == 0)
                        &&& e == (MatrixError::InvalidShape { rows, cols })
                    }
                    ||| {
                        &&& rows >= 1 && cols >= 1
                        &&& matrix@.len() != rows * cols
                        &&& e == (MatrixError::ShapeMismatch {
                            expected_rows: rows,
                            expected_cols: cols,
                            found_rows: 1,
                            found_cols: matrix@.len() as usize,
                        })
                    }
                },
            },
    {
        if rows == 0 || cols == 0 {
            return Err(MatrixError::InvalidShape { rows, cols });
        }
        let len = matrix.len();
        match rows.checked_mul(cols) {
            Some(n) if n == len => Ok(NnfwMatrix { matrix, rows, cols }),
            _ => Err(MatrixError::ShapeMismatch {
                expected_rows: rows,
                expected_cols: cols,
                found_rows: 1,
                found_cols: len,
            }),
        }
    }

    /// The element of the cell `(row, col)`; an out-of-range pair is rejected
    /// as `IndexOutOfBounds`.
    pub fn retrive(&self, row: usize, col: usize) -> (r: Result<u64, MatrixError>)
        requires
            self@.wf(),
        ensures
            match r {
                Ok(v) => self@.in_bounds(row as int, col as int) && v == self@.at(
                    row as int,
                    col as int,
                ),
                Err(e) => {
                    &&& !self@.in_bounds(row as int, col as int)
                    &&& e == (MatrixError::IndexOutOfBounds {
                        row,
                        col,
                        rows: self@.rows as usize,
                        cols: self@.cols as usize,
                    })
                },
            },
    {
        if row >= self.rows || col >= self.cols {
            return Err(MatrixError::IndexOutOfBounds {
                row,
                col,
                rows: self.rows,
                cols: self.cols,
            });
        }
        let n = self.matrix.len();
        proof {
            lemma_flat_index_bound(row as int, col as int, self.rows as int, self.cols as int);
            assert((row as int) * (self.cols as int) + (col as int) < n as int);
        }
        Ok(self.matrix[row * self.cols + col])
    }

    /// Sets the cell `(row, col)` to the widened value of a numeric variant;
    /// an out-of-range pair is rejected as `IndexOutOfBounds` and leaves the
    /// matrix unchanged.
    pub fn reclaim(&mut self, row: usize, col: usize, value: def) -> (r: Result<
        (),
        MatrixError,
    >)
        requires
            old(self)@.wf(),
        ensures
            final(self)@.wf(),
            final(self)@.rows == old(self)@.rows,
            final(self)@.cols == old(self)@.cols,
            match r {
                Ok(()) => {
                    &&& old(self)@.in_bounds(row as int, col as int)
                    &&& final(self)@.data == old(self)@.data.update(
                        row as int * old(self)@.cols + col as int,
                        dbl_of(value),
                    )
                    &&& final(self)@.at(row as int, col as int) == dbl_of(value)
                },
                Err(e) => {
                    &&& !old(self)@.in_bounds(row as int, col as int)
                    &&& e == (MatrixError::IndexOutOfBounds {
                        row,
                        col,
                        rows: old(self)@.rows as usize,
                        cols: old(self)@.cols as usize,
                    })
                    &&& final(self)@ == old(self)@
                },
            },
    {
        if row >= self.rows || col >= self.cols {
            return Err(MatrixError::IndexOutOfBounds {
                row,
                col,
                rows: self.rows,
                cols: self.cols,
            });
        }
        let n = self.matrix.len();
        proof {
            lemma_flat_index_bound(row as int, col as int, self.rows as int, self.cols as int);
            assert((row as int) * (self.cols as int) + (col as int) < n as int);
        }
        let wide = NnfwMatrix::compact(value);
        let idx = row * self.cols + col;
        self.matrix.set(idx, wide);
        Ok(())
    }

    /// The total widening of a numeric variant to a binary64 bit pattern.
    /// Integer variants go through the 128-bit conversions; it never fails.
    pub fn compact(value: def) -> (r: u64)
        ensures
            r == dbl_of(value),
    {
        match value {
            def::I1(x) => crate::scalar::fp_from_i128(x as i128),
            def::I2(x) => crate::scalar::fp_from_i128(x as i128),
            def::I4(x) => crate::scalar::fp_from_i128(x as i128),
            def::I8(x) => crate::scalar::fp_from_i128(x as i128),
            def::I16(x) => crate::scalar::fp_from_i128(x),
            def::U1(x) => crate::scalar::fp_from_i128(x as i128),
            def::U2(x) => crate::scalar::fp_from_i128(x as i128),
            def::U4(x) => crate::scalar::fp_from_i128(x as i128),
            def::U8(x) => crate::scalar::fp_from_i128(x as i128),
            def::U16(x) => crate::scalar::fp_from_u128(x),
            def::U(x) => crate::scalar::fp_from_i128(x as i128),
            def::I(x) => crate::scalar::fp_from_i128(x as i128),
            def::F4(b) => crate::scalar::fp_widen_f32(b),
            def::F8(b) => b,
        }
    }

    /// Overwrites the whole buffer with the widened values of a variant
    /// sequence, in row-major order; a sequence whose length is not
    /// `rows * cols` is rejected as `ShapeMismatch` and leaves the matrix
    /// unchanged.
    pub fn claim_matrix(&mut self, data: Vec<def>) -> (r: Result<(), MatrixError>)
        requires
            old(self)@.wf(),
        ensures
            final(self)@.wf(),
            final(self)@.rows == old(self)@.rows,
            final(self)@.cols == old(self)@.cols,
            match r {
                Ok(()) => {
                    &&& data@.len() == old(self)@.rows * old(self)@.cols
                    &&& forall|i: int|
                        0 <= i < data@.len() ==> final(self)@.data[i] == dbl_of(data@[i])
                    &&& forall|a: int, b: int|
                        final(self)@.in_bounds(a, b) ==> final(self)@.at(a, b) == dbl_of(
                            data@[a * final(self)@.cols + b],
                        )
                },
                Err(e) => {
                    &&& data@.len() != old(self)@.rows * old(self)@.cols
                    &&& e == (MatrixError::ShapeMismatch {
                        expected_rows: old(self)@.rows as usize,
                        expected_cols: old(self)@.cols as usize,
                        found_rows: 1,
                        found_cols: data@.len() as usize,
                    })
                    &&& final(self)@ == old(self)@
                },
            },
    {
        if data.len() != self.matrix.len() {
            return Err(MatrixError::ShapeMismatch {
                expected_rows: self.rows,
                expected_cols: self.cols,
                found_rows: 1,
                found_cols: data.len(),
            });
        }
        let n = data.len();
        let mut i: usize = 0;
        while i < n
            invariant
                i <= n,
                n == data@.len(),
                self.rows == old(self).rows,
                self.cols == old(self).cols,
                self@.data.len() == old(self)@.data.len(),
                old(self)@.data.len() == n,
                forall|k: int| 0 <= k < i ==> self@.data[k] == dbl_of(data@[k]),
            decreases n - i,
        {
            let wide = NnfwMatrix::compact(data[i]);
            self.matrix.set(i, wide);
            i = i + 1;
        }
        proof {
            assert forall|a: int, b: int| self@.in_bounds(a, b) implies self@.at(a, b) == dbl_of(
                data@[a * self@.cols + b],
            ) by {
                lemma_flat_index_bound(a, b, self@.rows as int, self@.cols as int);
            }
        }
        Ok(())
    }

    /// The dimension pair `(rows, cols)`.
    pub fn shape(&self) -> (s: (usize, usize))
        ensures
            s.0 == self@.rows,
            s.1 == self@.cols,
    {
        (self.rows, self.cols)
    }

    /// The buffer's length.
    pub(crate) fn buffer_len(&self) -> (n: usize)
        ensures
            n == self@.data.len(),
    {
        self.matrix.len()
    }

    /// The buffer element at a flat index.
    pub(crate) fn buffer_at(&self, i: usize) -> (v: u64)
        requires
            i < self@.data.len(),
        ensures
            v == self@.data[i as int],
    {
        self.matrix[i]
    }

    /// Replaces the buffer element at a flat index.
    pub(crate) fn buffer_set(&mut self, i: usize, v: u64)
        requires
            i < old(self)@.data.len(),
        ensures
            final(self)@.rows == old(self)@.rows,
            final(self)@.cols == old(self)@.cols,
            final(self)@.data == old(self)@.data.update(i as int, v),
    {
        self.matrix.set(i, v);
    }

    /// Replaces buffer and dimensions together.
    pub(crate) fn replace_parts(&mut self, matrix: Vec<u64>, rows: usize, cols: usize)
        ensures
            final(self)@.rows == rows,
            final(self)@.cols == cols,
            final(self)@.data == matrix@,
    {
        self.matrix = matrix;
        self.rows = rows;
        self.cols = cols;
    }

    /// The flat row-major buffer, copied out.
    pub fn to_flat_sequence(&self) -> (v: Vec<u64>)
        ensures
            v@ == self@.data,
    {
        let n = self.matrix.len();
        let mut v: Vec<u64> = Vec::new();
        let mut k: usize = 0;
        while k < n
            invariant
                k <= n,
                n == self@.data.len(),
                v@.len() == k,
                forall|i: int| 0 <= i < k ==> v@[i] == self@.data[i],
            decreases n - k,
        {
            v.push(self.matrix[k]);
            k = k + 1;
        }
        proof {
            assert(v@ =~= self@.data);
        }
        v
    }

    /// A raw `rows * cols` buffer of zeros, not wrapped in a matrix.
    pub fn zero_mat(rows: usize, cols: usize) -> (v: Vec<u64>)
        requires
            rows * cols <= usize::MAX,
        ensures
            v@.len() == rows * cols,
            forall|i: int| 0 <= i < v@.len() ==> v@[i] == POS_ZERO_BITS,
    {
        filled(rows * cols, POS_ZERO_BITS)
    }

    /// A raw `rows * cols` buffer of ones, not wrapped in a matrix.
    pub fn ones_mat(rows: usize, cols: usize) -> (v: Vec<u64>)
        requires
            rows * cols <= usize::MAX,
        ensures
            v@.len() == rows * cols,
            forall|i: int| 0 <= i < v@.len() ==> v@[i] == ONE_BITS,
    {
        filled(rows * cols, ONE_BITS)
    }
}

} // verus!
