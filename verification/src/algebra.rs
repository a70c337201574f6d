//! Vectors and matrices as sequences, and what the operations on them give,
//! each sum accumulated from the left in the arithmetic of the number type.

use crate::scalar::Scalar;
use vstd::prelude::*;

verus! {

/// The sum of the products of the first `n` entries of `a` and `b`,
/// accumulated from the left, starting from zero.
pub open spec fn dot_upto<S: Scalar>(a: Seq<S>, b: Seq<S>, n: nat) -> S
    decreases n,
{
    if n == 0 {
        S::zero_spec()
    } else {
        dot_upto(a, b, (n - 1) as nat).add_spec(a[n - 1].mul_spec(b[n - 1]))
    }
}

/// The dot product of `a` and `b`, which have the same length.
pub open spec fn dot<S: Scalar>(a: Seq<S>, b: Seq<S>) -> S {
    dot_upto(a, b, a.len())
}

/// Column `j` of the row-major grid `m`.
pub open spec fn column<S>(m: Seq<Seq<S>>, j: int) -> Seq<S> {
    Seq::new(m.len(), |k: int| m[k][j])
}

/// The rows of a nested vector, each as the sequence of its entries.
pub open spec fn rows_view<S>(rows: Seq<Vec<S>>) -> Seq<Seq<S>> {
    Seq::new(rows.len(), |i: int| rows[i]@)
}

/// Whether `m` has `rows` rows of `cols` entries each.
pub open spec fn is_grid<S>(m: Seq<Seq<S>>, rows: nat, cols: nat) -> bool {
    &&& m.len() == rows
    &&& forall|i: int| 0 <= i < rows ==> (#[trigger] m[i]).len() == cols
}

/// The vector of `n` zeros.
pub open spec fn zeros<S: Scalar>(n: nat) -> Seq<S> {
    Seq::new(n, |i: int| S::zero_spec())
}

/// The identity matrix of order `n`.
pub open spec fn identity<S: Scalar>(n: nat) -> Seq<Seq<S>> {
    Seq::new(
        n,
        |i: int|
            Seq::new(
                n,
                |j: int|
                    if i == j {
                        S::one_spec()
                    } else {
                        S::zero_spec()
                    },
            ),
    )
}

/// The product of the matrix `m` and the column vector `v`.
pub open spec fn mat_vec<S: Scalar>(m: Seq<Seq<S>>, v: Seq<S>) -> Seq<S> {
    Seq::new(m.len(), |i: int| dot(m[i], v))
}

/// The product of the transpose of `a` with `b`, where `a` has `a_cols`
/// columns, `b` has `b_cols` columns and both have the same number of rows.
pub open spec fn transpose_mul<S: Scalar>(
    a: Seq<Seq<S>>,
    b: Seq<Seq<S>>,
    a_cols: nat,
    b_cols: nat,
) -> Seq<Seq<S>> {
    Seq::new(a_cols, |i: int| Seq::new(b_cols, |j: int| dot(column(a, i), column(b, j))))
}

/// The product of `a` with `b`, where `b` has `b_cols` columns and as many
/// rows as `a` has columns.
pub open spec fn mat_mul<S: Scalar>(a: Seq<Seq<S>>, b: Seq<Seq<S>>, b_cols: nat) -> Seq<Seq<S>> {
    Seq::new(a.len(), |i: int| Seq::new(b_cols, |j: int| dot(a[i], column(b, j))))
}

/// The grid `m` with `x` added to each entry of its main diagonal.
pub open spec fn add_diagonal<S: Scalar>(m: Seq<Seq<S>>, x: S) -> Seq<Seq<S>> {
    Seq::new(
        m.len(),
        |i: int|
            Seq::new(
                m[i].len(),
                |j: int|
                    if i == j {
                        m[i][j].add_spec(x)
                    } else {
                        m[i][j]
                    },
            ),
    )
}

/// The grid `m` with every entry multiplied by `x`.
pub open spec fn scale<S: Scalar>(m: Seq<Seq<S>>, x: S) -> Seq<Seq<S>> {
    Seq::new(m.len(), |i: int| Seq::new(m[i].len(), |j: int| m[i][j].mul_spec(x)))
}

/// The grid `m` with every entry divided by `x`.
pub open spec fn divide<S: Scalar>(m: Seq<Seq<S>>, x: S) -> Seq<Seq<S>> {
    Seq::new(m.len(), |i: int| Seq::new(m[i].len(), |j: int| m[i][j].div_spec(x)))
}

/// The grid of `rows` rows and `cols` columns that `data` holds column by
/// column from position `base` on.
pub open spec fn column_major<S>(data: Seq<S>, base: nat, rows: nat, cols: nat) -> Seq<Seq<S>> {
    Seq::new(rows, |i: int| Seq::new(cols, |j: int| data[base + j * rows + i]))
}

/// The row `row` with each entry divided by `pivot`.
pub open spec fn scale_row<S: Scalar>(row: Seq<S>, pivot: S) -> Seq<S> {
    Seq::new(row.len(), |j: int| row[j].div_spec(pivot))
}

/// The row `row` less `factor` times the row `lead`.
pub open spec fn eliminate_row<S: Scalar>(row: Seq<S>, lead: Seq<S>, factor: S) -> Seq<S> {
    Seq::new(row.len(), |j: int| row[j].sub_spec(factor.mul_spec(lead[j])))
}

/// One step of Gauss-Jordan elimination on the rows of `m`: row `i` is
/// divided by `pivot`, and from every other row `k` the new row `i` is
/// subtracted `factors[k]` times.
pub open spec fn pivot_rows<S: Scalar>(m: Seq<Seq<S>>, i: int, pivot: S, factors: Seq<S>) -> Seq<
    Seq<S>,
> {
    Seq::new(
        m.len(),
        |k: int|
            if k == i {
                scale_row(m[i], pivot)
            } else {
                eliminate_row(m[k], scale_row(m[i], pivot), factors[k])
            },
    )
}

/// The pair `(a, b)` after the first `n` columns of `a` have been reduced by
/// Gauss-Jordan elimination without row exchanges, every row operation being
/// applied to `b` as well; `None` as soon as the entry of `a` that would be the
/// next pivot is zero.
pub open spec fn reduce<S: Scalar>(a: Seq<Seq<S>>, b: Seq<Seq<S>>, n: nat) -> Option<
    (Seq<Seq<S>>, Seq<Seq<S>>),
>
    decreases n,
{
    if n == 0 {
        Some((a, b))
    } else {
        match reduce(a, b, (n - 1) as nat) {
            None => None,
            Some((ra, rb)) => {
                let i = n - 1;
                let pivot = ra[i][i];
                if pivot.is_zero_spec() {
                    None
                } else {
                    Some(
                        (
                            pivot_rows(ra, i, pivot, column(ra, i)),
                            pivot_rows(rb, i, pivot, column(ra, i)),
                        ),
                    )
                }
            },
        }
    }
}

/// The inverse of the square matrix `g` as Gauss-Jordan elimination without
/// row exchanges computes it, or `None` where a pivot is zero.
pub open spec fn inverse<S: Scalar>(g: Seq<Seq<S>>) -> Option<Seq<Seq<S>>> {
    match reduce(g, identity(g.len()), g.len()) {
        None => None,
        Some((_, inv)) => Some(inv),
    }
}

/// Once a pivot is zero, reducing further columns changes nothing.
pub proof fn lemma_reduce_stays_none<S: Scalar>(a: Seq<Seq<S>>, b: Seq<Seq<S>>, i: nat, n: nat)
    requires
        i <= n,
        reduce(a, b, i) is None,
    ensures
        reduce(a, b, n) is None,
    decreases n,
{
    if i < n {
        lemma_reduce_stays_none(a, b, i, (n - 1) as nat);
    }
}

/// In a grid stored column by column, every cell lies inside the block.
pub proof fn lemma_cell_in_block(i: int, j: int, rows: int, cols: int)
    requires
        0 <= i < rows,
        0 <= j < cols,
    ensures
        0 <= j * rows,
        j * rows + i < rows * cols,
{
    assert((j + 1) * rows <= cols * rows) by (nonlinear_arith)
        requires
            j + 1 <= cols,
            0 <= rows,
    ;
    assert((j + 1) * rows == j * rows + rows) by (nonlinear_arith);
    assert(0 <= j * rows) by (nonlinear_arith)
        requires
            0 <= j,
            0 <= rows,
    ;
    assert(cols * rows == rows * cols) by (nonlinear_arith);
}

} // verus!
