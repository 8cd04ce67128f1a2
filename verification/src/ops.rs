//! The arithmetic operation set.
//!
//! Element-wise addition, subtraction and Hadamard product mutate the left
//! operand in place over the flat buffer; scalar division divides every
//! element; matrix multiplication and transposition replace buffer and
//! dimensions together; the dot product returns a scalar and mutates
//! nothing. Every shape requirement is checked first and a violation comes
//! back as a typed error that names both shapes, with the operand unchanged.

use vstd::prelude::*;
use crate::error::MatrixError;
use crate::matrix::MatView;
use crate::matrix::NnfwMatrix;
use crate::matrix::lemma_flat_index_bound;
use crate::matrix::lemma_flat_index_decompose;
use crate::scalar::POS_ZERO_BITS;
use crate::scalar::add_bits;
use crate::scalar::div_bits;
use crate::scalar::is_nan_bits;
use crate::scalar::is_zero_bits;
use crate::scalar::mul_bits;
use crate::scalar::sub_bits;

verus! {

/// The running binary64 sum of the first `n` pairwise products of two
/// buffers, accumulated left to right from positive zero: the order in which
/// both the dot product and each multiplication cell add their terms up.
pub open spec fn dot_fold(a: Seq<u64>, b: Seq<u64>, n: int) -> u64
    decreases n,
{
    if n <= 0 {
        POS_ZERO_BITS
    } else {
        add_bits(dot_fold(a, b, n - 1), mul_bits(a[n - 1], b[n - 1]))
    }
}

/// No element of the buffer is a NaN.
pub open spec fn seq_no_nan(s: Seq<u64>) -> bool {
    forall|i: int| 0 <= i < s.len() ==> !is_nan_bits(s[i])
}

/// Row `r` of a matrix, left to right.
pub open spec fn row_seq(m: MatView, r: int) -> Seq<u64> {
    Seq::new(m.cols, |k: int| m.at(r, k))
}

/// Column `c` of a matrix, top to bottom.
pub open spec fn col_seq(m: MatView, c: int) -> Seq<u64> {
    Seq::new(m.rows, |k: int| m.at(k, c))
}

/// The multiplication cell `(r, c)`: the accumulated products of row `r` of
/// the left operand with column `c` of the right one.
pub open spec fn matmul_cell(a: MatView, b: MatView, r: int, c: int) -> u64 {
    dot_fold(row_seq(a, r), col_seq(b, c), a.cols as int)
}

/// The transposition relation between two matrices: dimensions swapped, the
/// same number of elements, and the cell `(c, r)` of the one holding the
/// cell `(r, c)` of the other.
pub open spec fn is_transpose(pre: MatView, post: MatView) -> bool {
    &&& post.rows == pre.cols
    &&& post.cols == pre.rows
    &&& post.data.len() == pre.data.len()
    &&& forall|r: int, c: int| pre.in_bounds(r, c) ==> post.at(c, r) == pre.at(r, c)
}

/// Transposing twice restores the matrix, values and shape alike.
pub proof fn lemma_transpose_involution(a: MatView, b: MatView, c: MatView)
    requires
        a.wf(),
        is_transpose(a, b),
        is_transpose(b, c),
    ensures
        c == a,
{
    assert forall|i: int| 0 <= i < a.data.len() implies c.data[i] == a.data[i] by {
        lemma_flat_index_decompose(i, a.rows as int, a.cols as int);
        let r = i / a.cols as int;
        let cc = i % a.cols as int;
        assert(a.in_bounds(r, cc));
        assert(b.at(cc, r) == a.at(r, cc));
        assert(b.in_bounds(cc, r));
        assert(c.at(r, cc) == b.at(cc, r));
    }
    assert(c.data =~= a.data);
    assert(c =~= a);
}

impl NnfwMatrix {
    /// Element-wise sum, in place: requires identical shape, and afterwards
    /// every element is the binary64 sum of the operands' elements.
    pub fn add(&mut self, another: &NnfwMatrix) -> (r: Result<(), MatrixError>)
        requires
            old(self)@.wf(),
            another@.wf(),
        ensures
            final(self)@.wf(),
            final(self)@.rows == old(self)@.rows,
            final(self)@.cols == old(self)@.cols,
            match r {
                Ok(()) => {
                    &&& old(self)@.same_shape(another@)
                    &&& final(self)@.data.len() == old(self)@.data.len()
                    &&& forall|i: int|
                        0 <= i < old(self)@.data.len() ==> final(self)@.data[i] == add_bits(
                            old(self)@.data[i],
                            another@.data[i],
                        )
                },
                Err(e) => {
                    &&& !old(self)@.same_shape(another@)
                    &&& e == shape_error(old(self)@, another@)
                    &&& final(self)@ == old(self)@
                },
            },
    {
        if self.shape_differs(another) {
            return Err(self.shape_error_of(another));
        }
        let n = self.buffer_len();
        let mut i: usize = 0;
        while i < n
            invariant
                i <= n,
                self@.rows == old(self)@.rows,
                self@.cols == old(self)@.cols,
                self@.data.len() == n,
                old(self)@.data.len() == n,
                another@.data.len() == n,
                forall|k: int|
                    0 <= k < i ==> self@.data[k] == add_bits(old(self)@.data[k], another@.data[k]),
                forall|k: int| i <= k < n ==> self@.data[k] == old(self)@.data[k],
            decreases n - i,
        {
            let v = crate::scalar::fp_add(self.buffer_at(i), another.buffer_at(i));
            self.buffer_set(i, v);
            i = i + 1;
        }
        Ok(())
    }

    /// Element-wise difference, in place, under the same shape requirement.
    pub fn subtract(&mut self, another: &NnfwMatrix) -> (r: Result<(), MatrixError>)
        requires
            old(self)@.wf(),
            another@.wf(),
        ensures
            final(self)@.wf(),
            final(self)@.rows == old(self)@.rows,
            final(self)@.cols == old(self)@.cols,
            match r {
                Ok(()) => {
                    &&& old(self)@.same_shape(another@)
                    &&& final(self)@.data.len() == old(self)@.data.len()
                    &&& forall|i: int|
                        0 <= i < old(self)@.data.len() ==> final(self)@.data[i] == sub_bits(
                            old(self)@.data[i],
                            another@.data[i],
                        )
                },
                Err(e) => {
                    &&& !old(self)@.same_shape(another@)
                    &&& e == shape_error(old(self)@, another@)
                    &&& final(self)@ == old(self)@
                },
            },
    {
        if self.shape_differs(another) {
            return Err(self.shape_error_of(another));
        }
        let n = self.buffer_len();
        let mut i: usize = 0;
        while i < n
            invariant
                i <= n,
                self@.rows == old(self)@.rows,
                self@.cols == old(self)@.cols,
                self@.data.len() == n,
                old(self)@.data.len() == n,
                another@.data.len() == n,
                forall|k: int|
                    0 <= k < i ==> self@.data[k] == sub_bits(old(self)@.data[k], another@.data[k]),
                forall|k: int| i <= k < n ==> self@.data[k] == old(self)@.data[k],
            decreases n - i,
        {
            let v = crate::scalar::fp_sub(self.buffer_at(i), another.buffer_at(i));
            self.buffer_set(i, v);
            i = i + 1;
        }
        Ok(())
    }

    /// Hadamard (element-wise) product, in place, under the same shape
    /// requirement.
    pub fn hadamard(&mut self, another: &NnfwMatrix) -> (r: Result<(), MatrixError>)
        requires
            old(self)@.wf(),
            another@.wf(),
        ensures
            final(self)@.wf(),
            final(self)@.rows == old(self)@.rows,
            final(self)@.cols == old(self)@.cols,
            match r {
                Ok(()) => {
                    &&& old(self)@.same_shape(another@)
                    &&& final(self)@.data.len() == old(self)@.data.len()
                    &&& forall|i: int|
                        0 <= i < old(self)@.data.len() ==> final(self)@.data[i] == mul_bits(
                            old(self)@.data[i],
                            another@.data[i],
                        )
                },
                Err(e) => {
                    &&& !old(self)@.same_shape(another@)
                    &&& e == shape_error(old(self)@, another@)
                    &&& final(self)@ == old(self)@
                },
            },
    {
        if self.shape_differs(another) {
            return Err(self.shape_error_of(another));
        }
        let n = self.buffer_len();
        let mut i: usize = 0;
        while i < n
            invariant
                i <= n,
                self@.rows == old(self)@.rows,
                self@.cols == old(self)@.cols,
                self@.data.len() == n,
                old(self)@.data.len() == n,
                another@.data.len() == n,
                forall|k: int|
                    0 <= k < i ==> self@.data[k] == mul_bits(old(self)@.data[k], another@.data[k]),
                forall|k: int| i <= k < n ==> self@.data[k] == old(self)@.data[k],
            decreases n - i,
        {
            let v = crate::scalar::fp_mul(self.buffer_at(i), another.buffer_at(i));
            self.buffer_set(i, v);
            i = i + 1;
        }
        Ok(())
    }

    /// Divides every element by a scalar, in place; a zero divisor (either
    /// signed zero) is rejected as `DivisionByZero` and changes nothing.
    pub fn divide_scalar(&mut self, value: u64) -> (r: Result<(), MatrixError>)
        requires
            old(self)@.wf(),
        ensures
            final(self)@.wf(),
            final(self)@.rows == old(self)@.rows,
            final(self)@.cols == old(self)@.cols,
            match r {
                Ok(()) => {
                    &&& !is_zero_bits(value)
                    &&& final(self)@.data.len() == old(self)@.data.len()
                    &&& forall|i: int|
                        0 <= i < old(self)@.data.len() ==> final(self)@.data[i] == div_bits(
                            old(self)@.data[i],
                            value,
                        )
                },
                Err(e) => {
                    &&& is_zero_bits(value)
                    &&& e == MatrixError::DivisionByZero
                    &&& final(self)@ == old(self)@
                },
            },
    {
        if value == crate::scalar::POS_ZERO_BITS || value == crate::scalar::NEG_ZERO_BITS {
            return Err(MatrixError::DivisionByZero);
        }
        let n = self.buffer_len();
        let mut i: usize = 0;
        while i < n
            invariant
                i <= n,
                self@.rows == old(self)@.rows,
                self@.cols == old(self)@.cols,
                self@.data.len() == n,
                old(self)@.data.len() == n,
                forall|k: int|
                    0 <= k < i ==> self@.data[k] == div_bits(old(self)@.data[k], value),
                forall|k: int| i <= k < n ==> self@.data[k] == old(self)@.data[k],
            decreases n - i,
        {
            let v = crate::scalar::fp_div(self.buffer_at(i), value);
            self.buffer_set(i, v);
            i = i + 1;
        }
        Ok(())
    }

    /// True matrix multiplication, in place on the left operand: requires
    /// `self.cols == another.rows`, and replaces the left operand's buffer
    /// and dimensions together by the `self.rows x another.cols` product,
    /// each cell the accumulated products of a row with a column; the right
    /// operand is unchanged.
    #[verifier::loop_isolation(false)]
    pub fn matmul(&mut self, another: &NnfwMatrix) -> (res: Result<(), MatrixError>)
        requires
            old(self)@.wf(),
            another@.wf(),
            old(self)@.rows * another@.cols <= usize::MAX,
        ensures
            match res {
                Ok(()) => {
                    &&& old(self)@.cols == another@.rows
                    &&& final(self)@.wf()
                    &&& final(self)@.rows == old(self)@.rows
                    &&& final(self)@.cols == another@.cols
                    &&& forall|r: int, c: int|
                        final(self)@.in_bounds(r, c) ==> final(self)@.at(r, c) == matmul_cell(
                            old(self)@,
                            another@,
                            r,
                            c,
                        )
                },
                Err(e) => {
                    &&& old(self)@.cols != another@.rows
                    &&& e == shape_error(old(self)@, another@)
                    &&& final(self)@ == old(self)@
                },
            },
    {
        let (srows, scols) = self.shape();
        let (arows, acols) = another.shape();
        if scols != arows {
            return Err(self.shape_error_of(another));
        }
        let n = srows * acols;
        let self_len = self.buffer_len();
        let another_len = another.buffer_len();
        let mut result = crate::matrix::filled(n, POS_ZERO_BITS);
        let mut r: usize = 0;
        while r < srows
            invariant
                r <= srows,
                self@ == old(self)@,
                result@.len() == n,
                forall|a: int, b: int|
                    0 <= a < r && 0 <= b < acols ==> result@[a * acols + b] == matmul_cell(
                        old(self)@,
                        another@,
                        a,
                        b,
                    ),
            decreases srows - r,
        {
            let mut c: usize = 0;
            while c < acols
                invariant
                    c <= acols,
                    r < srows,
                    self@ == old(self)@,
                    result@.len() == n,
                    forall|a: int, b: int|
                        0 <= a < r && 0 <= b < acols ==> result@[a * acols + b] == matmul_cell(
                            old(self)@,
                            another@,
                            a,
                            b,
                        ),
                    forall|b: int|
                        0 <= b < c ==> result@[r as int * acols + b] == matmul_cell(
                            old(self)@,
                            another@,
                            r as int,
                            b,
                        ),
                decreases acols - c,
            {
                let mut sum: u64 = POS_ZERO_BITS;
                let mut k: usize = 0;
                while k < scols
                    invariant
                        k <= scols,
                        r < srows,
                        c < acols,
                        self@ == old(self)@,
                        sum == dot_fold(
                            row_seq(old(self)@, r as int),
                            col_seq(another@, c as int),
                            k as int,
                        ),
                    decreases scols - k,
                {
                    proof {
                        lemma_flat_index_bound(r as int, k as int, srows as int, scols as int);
                        lemma_flat_index_bound(k as int, c as int, arows as int, acols as int);
                        assert((r as int) * (scols as int) + (k as int) < self_len as int);
                        assert((k as int) * (acols as int) + (c as int) < another_len as int);
                    }
                    let a = self.buffer_at(r * scols + k);
                    let b = another.buffer_at(k * acols + c);
                    let p = crate::scalar::fp_mul(a, b);
                    sum = crate::scalar::fp_add(sum, p);
                    k = k + 1;
                }
                proof {
                    lemma_flat_index_bound(r as int, c as int, srows as int, acols as int);
                    assert forall|a: int, b: int|
                        0 <= a < r && 0 <= b < acols implies result@.update(
                        r as int * acols + c as int,
                        sum,
                    )[a * acols + b] == matmul_cell(old(self)@, another@, a, b) by {
                        lemma_flat_index_bound(a, b, srows as int, acols as int);
                        crate::matrix::lemma_flat_index_ne(
                            a,
                            b,
                            r as int,
                            c as int,
                            acols as int,
                        );
                    }
                    assert forall|b: int| 0 <= b < c implies result@.update(
                        r as int * acols + c as int,
                        sum,
                    )[r as int * acols + b] == matmul_cell(old(self)@, another@, r as int, b) by {
                        lemma_flat_index_bound(r as int, b, srows as int, acols as int);
                        crate::matrix::lemma_flat_index_ne(
                            r as int,
                            b,
                            r as int,
                            c as int,
                            acols as int,
                        );
                    }
                }
                result.set(r * acols + c, sum);
                c = c + 1;
            }
            r = r + 1;
        }
        self.replace_parts(result, srows, acols);
        proof {
            assert(self@.data.len() == self@.rows * self@.cols) by (nonlinear_arith)
                requires
                    self@.data.len() == srows * acols,
                    self@.rows == srows,
                    self@.cols == acols,
            ;
            assert forall|a: int, b: int| self@.in_bounds(a, b) implies self@.at(a, b)
                == matmul_cell(old(self)@, another@, a, b) by {
                lemma_flat_index_bound(a, b, srows as int, acols as int);
            }
        }
        Ok(())
    }

    /// Transposition, in place: rebuilds the buffer so that the new cell
    /// `(c, r)` holds the old cell `(r, c)`, then swaps the dimensions
    /// together with it.
    #[verifier::loop_isolation(false)]
    pub fn transpose(&mut self)
        requires
            old(self)@.wf(),
        ensures
            final(self)@.wf(),
            is_transpose(old(self)@, final(self)@),
    {
        let (rows, cols) = self.shape();
        let n = self.buffer_len();
        let mut result = crate::matrix::filled(n, POS_ZERO_BITS);
        let mut r: usize = 0;
        while r < rows
            invariant
                r <= rows,
                self@ == old(self)@,
                result@.len() == n,
                forall|a: int, b: int|
                    0 <= a < r && 0 <= b < cols ==> result@[b * rows + a] == old(self)@.at(a, b),
            decreases rows - r,
        {
            let mut c: usize = 0;
            while c < cols
                invariant
                    c <= cols,
                    r < rows,
                    self@ == old(self)@,
                    result@.len() == n,
                    forall|a: int, b: int|
                        0 <= a < r && 0 <= b < cols ==> result@[b * rows + a] == old(self)@.at(
                            a,
                            b,
                        ),
                    forall|b: int|
                        0 <= b < c ==> result@[b * rows + r] == old(self)@.at(r as int, b),
                decreases cols - c,
            {
                proof {
                    lemma_flat_index_bound(r as int, c as int, rows as int, cols as int);
                    lemma_flat_index_bound(c as int, r as int, cols as int, rows as int);
                    assert(cols * rows == rows * cols) by (nonlinear_arith);
                    assert forall|a: int, b: int|
                        0 <= a < r && 0 <= b < cols implies result@.update(
                        c as int * rows + r as int,
                        old(self)@.at(r as int, c as int),
                    )[b * rows + a] == old(self)@.at(a, b) by {
                        lemma_flat_index_bound(b, a, cols as int, rows as int);
                        crate::matrix::lemma_flat_index_ne(
                            b,
                            a,
                            c as int,
                            r as int,
                            rows as int,
                        );
                    }
                    assert forall|b: int| 0 <= b < c implies result@.update(
                        c as int * rows + r as int,
                        old(self)@.at(r as int, c as int),
                    )[b * rows + r] == old(self)@.at(r as int, b) by {
                        lemma_flat_index_bound(b, r as int, cols as int, rows as int);
                        crate::matrix::lemma_flat_index_ne(
                            b,
                            r as int,
                            c as int,
                            r as int,
                            rows as int,
                        );
                    }
                }
                let v = self.buffer_at(r * cols + c);
                result.set(c * rows + r, v);
                c = c + 1;
            }
            r = r + 1;
        }
        self.replace_parts(result, cols, rows);
        proof {
            assert(self@.data.len() == self@.rows * self@.cols) by (nonlinear_arith)
                requires
                    self@.data.len() == rows * cols,
                    self@.rows == cols,
                    self@.cols == rows,
            ;
        }
    }

    /// The scalar sum of all pairwise element products, accumulated in flat
    /// order; requires identical shape and mutates neither operand. When no
    /// element of either operand is a NaN the result is the same with the
    /// operands exchanged.
    pub fn dot_product(&self, another: &NnfwMatrix) -> (r: Result<u64, MatrixError>)
        requires
            self@.wf(),
            another@.wf(),
        ensures
            match r {
                Ok(v) => {
                    &&& self@.same_shape(another@)
                    &&& v == dot_fold(self@.data, another@.data, self@.data.len() as int)
                    &&& seq_no_nan(self@.data) && seq_no_nan(another@.data) ==> v == dot_fold(
                        another@.data,
                        self@.data,
                        self@.data.len() as int,
                    )
                },
                Err(e) => {
                    &&& !self@.same_shape(another@)
                    &&& e == shape_error(self@, another@)
                },
            },
    {
        if self.shape_differs(another) {
            return Err(self.shape_error_of(another));
        }
        let n = self.buffer_len();
        let mut sum: u64 = POS_ZERO_BITS;
        let mut i: usize = 0;
        while i < n
            invariant
                i <= n,
                self@.wf(),
                another@.wf(),
                self@.data.len() == n,
                another@.data.len() == n,
                sum == dot_fold(self@.data, another@.data, i as int),
                seq_no_nan(self@.data) && seq_no_nan(another@.data) ==> sum == dot_fold(
                    another@.data,
                    self@.data,
                    i as int,
                ),
            decreases n - i,
        {
            let p = crate::scalar::fp_mul(self.buffer_at(i), another.buffer_at(i));
            sum = crate::scalar::fp_add(sum, p);
            i = i + 1;
        }
        Ok(sum)
    }
}

/// The `ShapeMismatch` error that a binary operation on these two operands
/// reports.
pub open spec fn shape_error(left: MatView, right: MatView) -> MatrixError {
    MatrixError::ShapeMismatch {
        expected_rows: left.rows as usize,
        expected_cols: left.cols as usize,
        found_rows: right.rows as usize,
        found_cols: right.cols as usize,
    }
}

impl NnfwMatrix {
    /// Whether the two operands disagree in rows or columns.
    fn shape_differs(&self, another: &NnfwMatrix) -> (r: bool)
        ensures
            r == !self@.same_shape(another@),
    {
        let (r1, c1) = self.shape();
        let (r2, c2) = another.shape();
        r1 != r2 || c1 != c2
    }

    /// The `ShapeMismatch` error naming both operands' shapes.
    fn shape_error_of(&self, another: &NnfwMatrix) -> (e: MatrixError)
        ensures
            e == shape_error(self@, another@),
    {
        let (r1, c1) = self.shape();
        let (r2, c2) = another.shape();
        MatrixError::ShapeMismatch {
            expected_rows: r1,
            expected_cols: c1,
            found_rows: r2,
            found_cols: c2,
        }
    }
}

} // verus!
