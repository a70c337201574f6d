//! A dense matrix stored by rows, with the products and the inversion that
//! ridge regression needs.

use crate::algebra::{
    add_diagonal, column, column_major, divide, dot, dot_upto, eliminate_row, identity, inverse,
    is_grid, lemma_cell_in_block, lemma_reduce_stays_none, mat_mul, mat_vec, pivot_rows, reduce, rows_view, scale,
    scale_row, transpose_mul, zeros,
};
use crate::error::EsnError;
use crate::scalar::Scalar;
use vstd::prelude::*;

verus! {

/// A dense matrix, stored row by row.
pub struct Matrix<S> {
    rows: Vec<Vec<S>>,
    cols: usize,
}

impl<S> View for Matrix<S> {
    type V = Seq<Seq<S>>;

    /// The rows of the matrix, each as the sequence of its entries.
    closed spec fn view(&self) -> Seq<Seq<S>> {
        rows_view(self.rows@)
    }
}

impl<S: Scalar> Matrix<S> {
    /// The number of columns that the matrix was made with.
    pub closed spec fn cols_spec(&self) -> nat {
        self.cols as nat
    }

    /// Every row has as many entries as the matrix has columns.
    pub open spec fn wf(&self) -> bool {
        is_grid(self@, self@.len(), self.cols_spec())
    }

    /// The matrix with the given rows, each of which must have `cols`
    /// entries.
    pub fn from_rows(rows: Vec<Vec<S>>, cols: usize) -> (r: Result<Matrix<S>, EsnError>)
        ensures
            is_grid(rows_view(rows@), rows@.len(), cols as nat) ==> (r matches Ok(m) && m.wf()
                && m.cols_spec() == cols && m@ == rows_view(rows@)),
            !is_grid(rows_view(rows@), rows@.len(), cols as nat) ==> (r matches Err(e) && e
                == EsnError::DimensionMismatch),
    {
        if !rows_have_len(rows.as_slice(), cols) {
            return Err(EsnError::DimensionMismatch);
        }
        Ok(Matrix { rows, cols })
    }

    /// The matrix whose rows are copies of the given vectors, each of which
    /// must have `cols` entries.
    pub fn from_slice(rows: &[Vec<S>], cols: usize) -> (r: Result<Matrix<S>, EsnError>)
        ensures
            is_grid(rows_view(rows@), rows@.len(), cols as nat) ==> (r matches Ok(m) && m.wf()
                && m.cols_spec() == cols && m@ == rows_view(rows@)),
            !is_grid(rows_view(rows@), rows@.len(), cols as nat) ==> (r matches Err(e) && e
                == EsnError::DimensionMismatch),
    {
        if !rows_have_len(rows, cols) {
            return Err(EsnError::DimensionMismatch);
        }
        let mut out: Vec<Vec<S>> = Vec::new();
        let mut i: usize = 0;
        while i < rows.len()
            invariant
                i <= rows@.len(),
                out@.len() == i,
                forall|k: int| 0 <= k < i ==> (#[trigger] out@[k])@ == rows@[k]@,
            decreases rows@.len() - i,
        {
            out.push(copy_vector(&rows[i]));
            i = i + 1;
        }
        let m = Matrix { rows: out, cols };
        proof {
            assert(m@ =~= rows_view(rows@));
        }
        Ok(m)
    }

    /// The matrix of `rows` rows and `cols` columns that `data` holds column
    /// by column from position `base` on.
    pub fn from_column_major(data: &Vec<S>, base: usize, rows: usize, cols: usize) -> (r: Matrix<S>)
        requires
            base + rows * cols <= data@.len(),
        ensures
            r.wf(),
            r.cols_spec() == cols,
            r@ == column_major(data@, base as nat, rows as nat, cols as nat),
    {
        let ghost want = column_major(data@, base as nat, rows as nat, cols as nat);
        let total = data.len();
        let mut out: Vec<Vec<S>> = Vec::new();
        let mut i: usize = 0;
        while i < rows
            invariant
                total == data@.len(),
                base + rows * cols <= total,
                want == column_major(data@, base as nat, rows as nat, cols as nat),
                i <= rows,
                out@.len() == i,
                forall|a: int| 0 <= a < i ==> (#[trigger] out@[a])@ == want[a],
            decreases rows - i,
        {
            let mut line: Vec<S> = Vec::new();
            let mut j: usize = 0;
            while j < cols
                invariant
                    total == data@.len(),
                    base + rows * cols <= total,
                    want == column_major(data@, base as nat, rows as nat, cols as nat),
                    i < rows,
                    j <= cols,
                    line@.len() == j,
                    forall|b: int| 0 <= b < j ==> line@[b] == want[i as int][b],
                decreases cols - j,
            {
                proof {
                    lemma_cell_in_block(i as int, j as int, rows as int, cols as int);
                }
                let offset = j * rows + i;
                line.push(data[base + offset]);
                j = j + 1;
            }
            proof {
                assert(line@ =~= want[i as int]);
            }
            out.push(line);
            i = i + 1;
        }
        let m = Matrix { rows: out, cols };
        proof {
            assert(m@ =~= want);
        }
        m
    }

    /// The identity matrix of order `n`.
    pub fn identity(n: usize) -> (r: Matrix<S>)
        ensures
            r.wf(),
            r.cols_spec() == n,
            r@ == identity::<S>(n as nat),
    {
        let mut out: Vec<Vec<S>> = Vec::new();
        let mut i: usize = 0;
        while i < n
            invariant
                i <= n,
                out@.len() == i,
                forall|a: int| 0 <= a < i ==> (#[trigger] out@[a])@ == identity::<S>(n as nat)[a],
            decreases n - i,
        {
            let mut line: Vec<S> = Vec::new();
            let mut j: usize = 0;
            while j < n
                invariant
                    i < n,
                    j <= n,
                    line@.len() == j,
                    forall|b: int| 0 <= b < j ==> line@[b] == identity::<S>(n as nat)[i as int][b],
                decreases n - j,
            {
                if i == j {
                    line.push(S::one());
                } else {
                    line.push(S::zero());
                }
                j = j + 1;
            }
            proof {
                assert(line@ =~= identity::<S>(n as nat)[i as int]);
            }
            out.push(line);
            i = i + 1;
        }
        let m = Matrix { rows: out, cols: n };
        proof {
            assert(m@ =~= identity::<S>(n as nat));
        }
        m
    }

    /// The number of rows.
    pub fn nrows(&self) -> (r: usize)
        ensures
            r == self@.len(),
    {
        self.rows.len()
    }

    /// The number of columns.
    pub fn ncols(&self) -> (r: usize)
        ensures
            r == self.cols_spec(),
    {
        self.cols
    }

    /// Row `i`.
    pub fn row(&self, i: usize) -> (r: &Vec<S>)
        requires
            i < self@.len(),
        ensures
            r@ == self@[i as int],
    {
        &self.rows[i]
    }

    /// The entry in row `i` and column `j`.
    pub fn get(&self, i: usize, j: usize) -> (r: S)
        requires
            i < self@.len(),
            j < self@[i as int].len(),
        ensures
            r == self@[i as int][j as int],
    {
        self.rows[i][j]
    }

    /// Column `j`, as a vector.
    pub fn column(&self, j: usize) -> (r: Vec<S>)
        requires
            self.wf(),
            j < self.cols_spec(),
        ensures
            r@ == column(self@, j as int),
    {
        let mut out: Vec<S> = Vec::new();
        let mut k: usize = 0;
        while k < self.rows.len()
            invariant
                self.wf(),
                j < self.cols_spec(),
                k <= self@.len(),
                out@.len() == k,
                forall|a: int| 0 <= a < k ==> out@[a] == self@[a][j as int],
            decreases self@.len() - k,
        {
            assert(self@[k as int].len() == self.cols_spec());
            out.push(self.rows[k][j]);
            k = k + 1;
        }
        proof {
            assert(out@ =~= column(self@, j as int));
        }
        out
    }

    /// The product of the matrix and the column vector `v`.
    pub fn mul_vec(&self, v: &Vec<S>) -> (r: Vec<S>)
        requires
            self.wf(),
            v@.len() == self.cols_spec(),
        ensures
            r@ == mat_vec(self@, v@),
    {
        let mut out: Vec<S> = Vec::new();
        let mut i: usize = 0;
        while i < self.rows.len()
            invariant
                self.wf(),
                v@.len() == self.cols_spec(),
                i <= self.rows@.len(),
                out@.len() == i,
                forall|k: int| 0 <= k < i ==> out@[k] == dot(self@[k], v@),
            decreases self.rows@.len() - i,
        {
            assert(self@[i as int].len() == self.cols_spec());
            let x = dot_product(&self.rows[i], v);
            out.push(x);
            i = i + 1;
        }
        proof {
            assert(out@ =~= mat_vec(self@, v@));
        }
        out
    }

    /// The product of the transpose of `self` with `other`, which has as
    /// many rows as `self`.
    pub fn transpose_mul(&self, other: &Matrix<S>) -> (r: Matrix<S>)
        requires
            self.wf(),
            other.wf(),
            self@.len() == other@.len(),
        ensures
            r.wf(),
            r.cols_spec() == other.cols_spec(),
            r@ == transpose_mul(self@, other@, self.cols_spec(), other.cols_spec()),
    {
        let mut out: Vec<Vec<S>> = Vec::new();
        let mut i: usize = 0;
        while i < self.cols
            invariant
                self.wf(),
                other.wf(),
                self@.len() == other@.len(),
                i <= self.cols,
                out@.len() == i,
                forall|a: int|
                    0 <= a < i ==> (#[trigger] out@[a])@ == Seq::new(
                        other.cols_spec(),
                        |b: int| dot(column(self@, a), column(other@, b)),
                    ),
            decreases self.cols - i,
        {
            let mut line: Vec<S> = Vec::new();
            let mut j: usize = 0;
            while j < other.cols
                invariant
                    self.wf(),
                    other.wf(),
                    self@.len() == other@.len(),
                    i < self.cols,
                    j <= other.cols,
                    line@.len() == j,
                    forall|b: int|
                        0 <= b < j ==> line@[b] == dot(column(self@, i as int), column(other@, b)),
                decreases other.cols - j,
            {
                let x = self.column_dot(i, other, j);
                line.push(x);
                j = j + 1;
            }
            proof {
                assert(line@ =~= Seq::new(
                    other.cols_spec(),
                    |b: int| dot(column(self@, i as int), column(other@, b)),
                ));
            }
            out.push(line);
            i = i + 1;
        }
        let m = Matrix { rows: out, cols: other.cols };
        proof {
            assert(m@ =~= transpose_mul(self@, other@, self.cols_spec(), other.cols_spec()));
        }
        m
    }

    /// The product of `self` with `other`, which has as many rows as `self`
    /// has columns.
    pub fn mul(&self, other: &Matrix<S>) -> (r: Matrix<S>)
        requires
            self.wf(),
            other.wf(),
            self.cols_spec() == other@.len(),
        ensures
            r.wf(),
            r.cols_spec() == other.cols_spec(),
            r@ == mat_mul(self@, other@, other.cols_spec()),
    {
        let mut out: Vec<Vec<S>> = Vec::new();
        let mut i: usize = 0;
        while i < self.rows.len()
            invariant
                self.wf(),
                other.wf(),
                self.cols_spec() == other@.len(),
                i <= self@.len(),
                out@.len() == i,
                forall|a: int|
                    0 <= a < i ==> (#[trigger] out@[a])@ == Seq::new(
                        other.cols_spec(),
                        |b: int| dot(self@[a], column(other@, b)),
                    ),
            decreases self@.len() - i,
        {
            let mut line: Vec<S> = Vec::new();
            let mut j: usize = 0;
            assert(self@[i as int].len() == self.cols_spec());
            while j < other.cols
                invariant
                    self.wf(),
                    other.wf(),
                    self.cols_spec() == other@.len(),
                    i < self@.len(),
                    self@[i as int].len() == self.cols_spec(),
                    j <= other.cols,
                    line@.len() == j,
                    forall|b: int| 0 <= b < j ==> line@[b] == dot(self@[i as int], column(other@, b)),
                decreases other.cols - j,
            {
                let x = other.row_column_dot(&self.rows[i], j);
                line.push(x);
                j = j + 1;
            }
            proof {
                assert(line@ =~= Seq::new(
                    other.cols_spec(),
                    |b: int| dot(self@[i as int], column(other@, b)),
                ));
            }
            out.push(line);
            i = i + 1;
        }
        let m = Matrix { rows: out, cols: other.cols };
        proof {
            assert(m@ =~= mat_mul(self@, other@, other.cols_spec()));
        }
        m
    }

    /// Adds `x` to each entry of the main diagonal.
    pub fn add_diagonal(&self, x: S) -> (r: Matrix<S>)
        requires
            self.wf(),
        ensures
            r.wf(),
            r.cols_spec() == self.cols_spec(),
            r@ == add_diagonal(self@, x),
    {
        let mut out: Vec<Vec<S>> = Vec::new();
        let mut i: usize = 0;
        while i < self.rows.len()
            invariant
                self.wf(),
                i <= self@.len(),
                out@.len() == i,
                forall|a: int| 0 <= a < i ==> (#[trigger] out@[a])@ == add_diagonal(self@, x)[a],
            decreases self@.len() - i,
        {
            let mut line: Vec<S> = Vec::new();
            let mut j: usize = 0;
            assert(self@[i as int].len() == self.cols_spec());
            while j < self.cols
                invariant
                    self.wf(),
                    i < self@.len(),
                    self@[i as int].len() == self.cols_spec(),
                    j <= self.cols,
                    line@.len() == j,
                    forall|b: int| 0 <= b < j ==> line@[b] == add_diagonal(self@, x)[i as int][b],
                decreases self.cols - j,
            {
                let e = self.rows[i][j];
                if i == j {
                    line.push(e.add(x));
                } else {
                    line.push(e);
                }
                j = j + 1;
            }
            proof {
                assert(line@ =~= add_diagonal(self@, x)[i as int]);
            }
            out.push(line);
            i = i + 1;
        }
        let m = Matrix { rows: out, cols: self.cols };
        proof {
            assert(m@ =~= add_diagonal(self@, x));
        }
        m
    }

    /// The matrix with every entry multiplied by `x`.
    pub fn scaled(&self, x: S) -> (r: Matrix<S>)
        requires
            self.wf(),
        ensures
            r.wf(),
            r.cols_spec() == self.cols_spec(),
            r@ == scale(self@, x),
    {
        let mut out: Vec<Vec<S>> = Vec::new();
        let mut i: usize = 0;
        while i < self.rows.len()
            invariant
                self.wf(),
                i <= self@.len(),
                out@.len() == i,
                forall|a: int| 0 <= a < i ==> (#[trigger] out@[a])@ == scale(self@, x)[a],
            decreases self@.len() - i,
        {
            let mut line: Vec<S> = Vec::new();
            let mut j: usize = 0;
            assert(self@[i as int].len() == self.cols_spec());
            while j < self.cols
                invariant
                    self.wf(),
                    i < self@.len(),
                    self@[i as int].len() == self.cols_spec(),
                    j <= self.cols,
                    line@.len() == j,
                    forall|b: int| 0 <= b < j ==> line@[b] == scale(self@, x)[i as int][b],
                decreases self.cols - j,
            {
                line.push(self.rows[i][j].mul(x));
                j = j + 1;
            }
            proof {
                assert(line@ =~= scale(self@, x)[i as int]);
            }
            out.push(line);
            i = i + 1;
        }
        let m = Matrix { rows: out, cols: self.cols };
        proof {
            assert(m@ =~= scale(self@, x));
        }
        m
    }

    /// The matrix with every entry divided by `x`.
    pub fn divided(&self, x: S) -> (r: Matrix<S>)
        requires
            self.wf(),
        ensures
            r.wf(),
            r.cols_spec() == self.cols_spec(),
            r@ == divide(self@, x),
    {
        let mut out: Vec<Vec<S>> = Vec::new();
        let mut i: usize = 0;
        while i < self.rows.len()
            invariant
                self.wf(),
                i <= self@.len(),
                out@.len() == i,
                forall|a: int| 0 <= a < i ==> (#[trigger] out@[a])@ == divide(self@, x)[a],
            decreases self@.len() - i,
        {
            assert(self@[i as int].len() == self.cols_spec());
            let line = scaled_row(&self.rows[i], x);
            proof {
                assert(line@ =~= divide(self@, x)[i as int]);
            }
            out.push(line);
            i = i + 1;
        }
        let m = Matrix { rows: out, cols: self.cols };
        proof {
            assert(m@ =~= divide(self@, x));
        }
        m
    }

    /// The inverse of a square matrix by Gauss-Jordan elimination without
    /// row exchanges, or `None` where a pivot is zero.
    pub fn try_inverse(&self) -> (r: Option<Matrix<S>>)
        requires
            self.wf(),
            self.cols_spec() == self@.len(),
        ensures
            match inverse(self@) {
                Some(g) => r matches Some(m) && m.wf() && m.cols_spec() == self.cols_spec()
                    && m@.len() == self@.len() && m@ == g,
                None => r is None,
            },
    {
        let n = self.cols;
        let mut left: Vec<Vec<S>> = Vec::new();
        let mut c: usize = 0;
        while c < n
            invariant
                self.wf(),
                n == self@.len(),
                n == self.cols_spec(),
                c <= n,
                left@.len() == c,
                forall|a: int| 0 <= a < c ==> (#[trigger] left@[a])@ == self@[a],
            decreases n - c,
        {
            assert(self@[c as int].len() == n);
            let line = copy_vector(&self.rows[c]);
            left.push(line);
            c = c + 1;
        }
        let eye = Matrix::<S>::identity(n);
        let mut right = eye.rows;
        assert(rows_view(left@) =~= self@);
        assert(rows_view(right@) =~= identity::<S>(n as nat));
        assert forall|a: int| 0 <= a < n implies (#[trigger] right@[a])@.len() == n by {
            assert(rows_view(right@)[a].len() == n);
        }
        let mut i: usize = 0;
        while i < n
            invariant
                self.wf(),
                n == self@.len(),
                n == self.cols_spec(),
                i <= n,
                left@.len() == n,
                right@.len() == n,
                forall|a: int| 0 <= a < n ==> (#[trigger] left@[a])@.len() == n,
                forall|a: int| 0 <= a < n ==> (#[trigger] right@[a])@.len() == n,
                reduce(self@, identity::<S>(n as nat), i as nat) == Some(
                    (rows_view(left@), rows_view(right@)),
                ),
            decreases n - i,
        {
            let pivot = left[i][i];
            assert(pivot == rows_view(left@)[i as int][i as int]);
            if pivot.is_zero() {
                proof {
                    lemma_reduce_stays_none(self@, identity::<S>(n as nat), (i + 1) as nat, n as nat);
                }
                return None;
            }
            let mut factors: Vec<S> = Vec::new();
            let mut k: usize = 0;
            while k < n
                invariant
                    n == left@.len(),
                    i < n,
                    k <= n,
                    factors@.len() == k,
                    forall|a: int| 0 <= a < n ==> (#[trigger] left@[a])@.len() == n,
                    forall|a: int| 0 <= a < k ==> factors@[a] == left@[a]@[i as int],
                decreases n - k,
            {
                factors.push(left[k][i]);
                k = k + 1;
            }
            assert(factors@ =~= column(rows_view(left@), i as int));
            apply_pivot(&mut left, i, pivot, &factors);
            apply_pivot(&mut right, i, pivot, &factors);
            i = i + 1;
        }
        let m = Matrix { rows: right, cols: n };
        proof {
            assert forall|k: int| 0 <= k < m@.len() implies (#[trigger] m@[k]).len() == n by {
                assert(m.rows@[k]@.len() == n);
            }
        }
        Some(m)
    }

    /// The dot product of column `i` of `self` and column `j` of `other`.
    fn column_dot(&self, i: usize, other: &Matrix<S>, j: usize) -> (r: S)
        requires
            self.wf(),
            other.wf(),
            self@.len() == other@.len(),
            i < self.cols_spec(),
            j < other.cols_spec(),
        ensures
            r == dot(column(self@, i as int), column(other@, j as int)),
    {
        let mut acc = S::zero();
        let mut k: usize = 0;
        while k < self.rows.len()
            invariant
                self.wf(),
                other.wf(),
                self@.len() == other@.len(),
                i < self.cols_spec(),
                j < other.cols_spec(),
                k <= self@.len(),
                acc == dot_upto(column(self@, i as int), column(other@, j as int), k as nat),
            decreases self@.len() - k,
        {
            assert(self@[k as int].len() == self.cols_spec());
            assert(other@[k as int].len() == other.cols_spec());
            acc = acc.add(self.rows[k][i].mul(other.rows[k][j]));
            k = k + 1;
        }
        acc
    }

    /// The dot product of the vector `row` and column `j` of `self`.
    fn row_column_dot(&self, row: &Vec<S>, j: usize) -> (r: S)
        requires
            self.wf(),
            row@.len() == self@.len(),
            j < self.cols_spec(),
        ensures
            r == dot(row@, column(self@, j as int)),
    {
        let mut acc = S::zero();
        let mut k: usize = 0;
        while k < row.len()
            invariant
                self.wf(),
                row@.len() == self@.len(),
                j < self.cols_spec(),
                k <= row@.len(),
                acc == dot_upto(row@, column(self@, j as int), k as nat),
            decreases row@.len() - k,
        {
            assert(self@[k as int].len() == self.cols_spec());
            acc = acc.add(row[k].mul(self.rows[k][j]));
            k = k + 1;
        }
        acc
    }
}

/// The dot product of two vectors of the same length, accumulated from the
/// left.
pub fn dot_product<S: Scalar>(a: &Vec<S>, b: &Vec<S>) -> (r: S)
    requires
        a@.len() == b@.len(),
    ensures
        r == dot(a@, b@),
{
    let mut acc = S::zero();
    let mut k: usize = 0;
    while k < a.len()
        invariant
            k <= a@.len(),
            a@.len() == b@.len(),
            acc == dot_upto(a@, b@, k as nat),
        decreases a@.len() - k,
    {
        acc = acc.add(a[k].mul(b[k]));
        k = k + 1;
    }
    acc
}

/// The vector of `n` zeros.
pub fn zero_vector<S: Scalar>(n: usize) -> (r: Vec<S>)
    ensures
        r@ == zeros::<S>(n as nat),
{
    let mut out: Vec<S> = Vec::new();
    let mut i: usize = 0;
    while i < n
        invariant
            i <= n,
            out@.len() == i,
            forall|k: int| 0 <= k < i ==> out@[k] == S::zero_spec(),
        decreases n - i,
    {
        out.push(S::zero());
        i = i + 1;
    }
    proof {
        assert(out@ =~= zeros::<S>(n as nat));
    }
    out
}

/// A copy of `row`.
pub fn copy_vector<S: Scalar>(row: &Vec<S>) -> (r: Vec<S>)
    ensures
        r@ == row@,
{
    let mut out: Vec<S> = Vec::new();
    let mut j: usize = 0;
    while j < row.len()
        invariant
            j <= row@.len(),
            out@.len() == j,
            forall|b: int| 0 <= b < j ==> out@[b] == row@[b],
        decreases row@.len() - j,
    {
        out.push(row[j]);
        j = j + 1;
    }
    proof {
        assert(out@ =~= row@);
    }
    out
}

/// Whether every one of `rows` has `len` entries.
pub fn rows_have_len<S: Scalar>(rows: &[Vec<S>], len: usize) -> (r: bool)
    ensures
        r == is_grid(rows_view(rows@), rows@.len(), len as nat),
{
    let mut i: usize = 0;
    while i < rows.len()
        invariant
            i <= rows@.len(),
            forall|k: int| 0 <= k < i ==> (#[trigger] rows_view(rows@)[k]).len() == len,
        decreases rows@.len() - i,
    {
        if rows[i].len() != len {
            assert(rows_view(rows@)[i as int].len() != len);
            return false;
        }
        i = i + 1;
    }
    true
}

/// The row `row` with each entry divided by `pivot`.
fn scaled_row<S: Scalar>(row: &Vec<S>, pivot: S) -> (r: Vec<S>)
    ensures
        r@ == scale_row(row@, pivot),
{
    let mut out: Vec<S> = Vec::new();
    let mut j: usize = 0;
    while j < row.len()
        invariant
            j <= row@.len(),
            out@.len() == j,
            forall|b: int| 0 <= b < j ==> out@[b] == row@[b].div_spec(pivot),
        decreases row@.len() - j,
    {
        out.push(row[j].div(pivot));
        j = j + 1;
    }
    proof {
        assert(out@ =~= scale_row(row@, pivot));
    }
    out
}

/// The row `row` less `factor` times the row `lead`.
fn eliminated_row<S: Scalar>(row: &Vec<S>, lead: &Vec<S>, factor: S) -> (r: Vec<S>)
    requires
        row@.len() == lead@.len(),
    ensures
        r@ == eliminate_row(row@, lead@, factor),
{
    let mut out: Vec<S> = Vec::new();
    let mut j: usize = 0;
    while j < row.len()
        invariant
            row@.len() == lead@.len(),
            j <= row@.len(),
            out@.len() == j,
            forall|b: int| 0 <= b < j ==> out@[b] == row@[b].sub_spec(factor.mul_spec(lead@[b])),
        decreases row@.len() - j,
    {
        out.push(row[j].sub(factor.mul(lead[j])));
        j = j + 1;
    }
    proof {
        assert(out@ =~= eliminate_row(row@, lead@, factor));
    }
    out
}

/// Applies one elimination step to the rows of `m`.
fn apply_pivot<S: Scalar>(m: &mut Vec<Vec<S>>, i: usize, pivot: S, factors: &Vec<S>)
    requires
        i < old(m)@.len(),
        factors@.len() == old(m)@.len(),
        forall|k: int| 0 <= k < old(m)@.len() ==> (#[trigger] old(m)@[k])@.len() == old(m)@[i as int]@.len(),
    ensures
        rows_view(final(m)@) == pivot_rows(rows_view(old(m)@), i as int, pivot, factors@),
        final(m)@.len() == old(m)@.len(),
        forall|k: int|
            0 <= k < final(m)@.len() ==> (#[trigger] final(m)@[k])@.len() == old(m)@[i as int]@.len(),
{
    let ghost before = rows_view(m@);
    let ghost width = m@[i as int]@.len();
    let lead = scaled_row(&m[i], pivot);
    let n = m.len();
    let mut k: usize = 0;
    while k < n
        invariant
            n == m@.len(),
            n == before.len(),
            i < n,
            factors@.len() == n,
            k <= n,
            lead@ == scale_row(before[i as int], pivot),
            forall|a: int| 0 <= a < n ==> (#[trigger] m@[a])@.len() == width,
            forall|a: int| 0 <= a < n ==> (#[trigger] before[a]).len() == width,
            forall|a: int|
                0 <= a < k && a != i ==> (#[trigger] m@[a])@ == eliminate_row(
                    before[a],
                    lead@,
                    factors@[a],
                ),
            forall|a: int| (k <= a < n || a == i) ==> (#[trigger] m@[a])@ == before[a],
        decreases n - k,
    {
        if k != i {
            assert(m@[k as int]@.len() == width);
            let next = eliminated_row(&m[k], &lead, factors[k]);
            m[k] = next;
        }
        k = k + 1;
    }
    m[i] = lead;
    proof {
        assert(rows_view(m@) =~= pivot_rows(before, i as int, pivot, factors@));
    }
}

} // verus!
