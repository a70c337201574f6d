//! What the algorithms achieve where the arithmetic is exact.
//!
//! The contracts of the library hold for any arithmetic, also one that
//! rounds, and so can only say which operations are carried out. The
//! statements here assume the identities of a field, and show that under them
//! elimination inverts, ridge regression solves the normal equations and
//! recovers a linear map, and the recurrent weights have the spectral radius
//! as their largest absolute value.

use crate::algebra::{
    column, column_major, dot, dot_upto, eliminate_row, identity, inverse, is_grid,
    lemma_cell_in_block, mat_mul, pivot_rows, reduce, scale_row, transpose_mul, zeros,
};
use crate::reservoir::{fresh_w, max_abs};
use crate::scalar::{RealScalar, Scalar};
use crate::trainer::{gram, ridge_weights};
use vstd::prelude::*;

verus! {

/// The laws of zero and one for the number `a`.
pub open spec fn unit_laws<S: Scalar>(a: S) -> bool {
    let zero = S::zero_spec();
    let one = S::one_spec();
    &&& zero.add_spec(a) == a
    &&& a.add_spec(zero) == a
    &&& zero.mul_spec(a) == zero
    &&& a.mul_spec(zero) == zero
    &&& one.mul_spec(a) == a
    &&& a.mul_spec(one) == a
    &&& a.sub_spec(zero) == a
    &&& a.sub_spec(a) == zero
}

/// Unless `p` is zero, `0 / p = 0` and `p / p = 1`.
pub open spec fn quotient_laws<S: Scalar>(p: S) -> bool {
    !p.is_zero_spec() ==> {
        &&& S::zero_spec().div_spec(p) == S::zero_spec()
        &&& p.div_spec(p) == S::one_spec()
    }
}

/// Unless `p` is zero, `(a + b) / p = a / p + b / p`.
pub open spec fn sum_over<S: Scalar>(a: S, b: S, p: S) -> bool {
    !p.is_zero_spec() ==> a.add_spec(b).div_spec(p) == a.div_spec(p).add_spec(b.div_spec(p))
}

/// Unless `p` is zero, `(a / p) c = (a c) / p`.
pub open spec fn quotient_times<S: Scalar>(a: S, c: S, p: S) -> bool {
    !p.is_zero_spec() ==> a.div_spec(p).mul_spec(c) == a.mul_spec(c).div_spec(p)
}

/// `(b - f l) c = b c - f (l c)`.
pub open spec fn difference_times<S: Scalar>(b: S, f: S, l: S, c: S) -> bool {
    b.sub_spec(f.mul_spec(l)).mul_spec(c) == b.mul_spec(c).sub_spec(f.mul_spec(l.mul_spec(c)))
}

/// `(s - f t) + (x - f y) = (s + x) - f (t + y)`.
pub open spec fn differences_add<S: Scalar>(s: S, t: S, x: S, y: S, f: S) -> bool {
    s.sub_spec(f.mul_spec(t)).add_spec(x.sub_spec(f.mul_spec(y))) == s.add_spec(x).sub_spec(
        f.mul_spec(t.add_spec(y)),
    )
}

/// `(b + f l) c = b c + f (l c)`.
pub open spec fn sum_times<S: Scalar>(b: S, f: S, l: S, c: S) -> bool {
    b.add_spec(f.mul_spec(l)).mul_spec(c) == b.mul_spec(c).add_spec(f.mul_spec(l.mul_spec(c)))
}

/// `(s + f t) + (x + f y) = (s + x) + f (t + y)`.
pub open spec fn sums_add<S: Scalar>(s: S, t: S, x: S, y: S, f: S) -> bool {
    s.add_spec(f.mul_spec(t)).add_spec(x.add_spec(f.mul_spec(y))) == s.add_spec(x).add_spec(
        f.mul_spec(t.add_spec(y)),
    )
}

/// `a b = b a`.
pub open spec fn product_commutes<S: Scalar>(a: S, b: S) -> bool {
    a.mul_spec(b) == b.mul_spec(a)
}

/// The identities of exact arithmetic on which the statements of this module
/// rest, for all numbers of the type. Every field satisfies them; arithmetic
/// that rounds does not.
pub open spec fn exact_arithmetic<S: Scalar>() -> bool {
    &&& forall|a: S| #[trigger] unit_laws(a)
    &&& forall|p: S| #[trigger] quotient_laws(p)
    &&& forall|a: S, b: S, p: S| #[trigger] sum_over(a, b, p)
    &&& forall|a: S, c: S, p: S| #[trigger] quotient_times(a, c, p)
    &&& forall|b: S, f: S, l: S, c: S| #[trigger] difference_times(b, f, l, c)
    &&& forall|s: S, t: S, x: S, y: S, f: S| #[trigger] differences_add(s, t, x, y, f)
    &&& forall|b: S, f: S, l: S, c: S| #[trigger] sum_times(b, f, l, c)
    &&& forall|s: S, t: S, x: S, y: S, f: S| #[trigger] sums_add(s, t, x, y, f)
    &&& forall|a: S, b: S| #[trigger] product_commutes(a, b)
}

/// In exact arithmetic, dividing a row by a number divides its dot product
/// with any vector by that number.
pub proof fn lemma_dot_of_scaled_row<S: Scalar>(x: Seq<S>, c: Seq<S>, p: S, n: nat)
    requires
        exact_arithmetic::<S>(),
        !p.is_zero_spec(),
        n <= x.len(),
    ensures
        dot_upto(scale_row(x, p), c, n) == dot_upto(x, c, n).div_spec(p),
    decreases n,
{
    if n > 0 {
        lemma_dot_of_scaled_row(x, c, p, (n - 1) as nat);
        let before = dot_upto(x, c, (n - 1) as nat);
        let term = x[n - 1].mul_spec(c[n - 1]);
        assert(scale_row(x, p)[n - 1] == x[n - 1].div_spec(p));
        assert(quotient_times(x[n - 1], c[n - 1], p));
        assert(sum_over(before, term, p));
    } else {
        assert(quotient_laws(p));
    }
}

/// In exact arithmetic, subtracting a multiple of one row from another
/// subtracts the same multiple of the dot products.
pub proof fn lemma_dot_of_eliminated_row<S: Scalar>(
    b: Seq<S>,
    l: Seq<S>,
    f: S,
    c: Seq<S>,
    n: nat,
)
    requires
        exact_arithmetic::<S>(),
        n <= b.len(),
    ensures
        dot_upto(eliminate_row(b, l, f), c, n) == dot_upto(b, c, n).sub_spec(
            f.mul_spec(dot_upto(l, c, n)),
        ),
    decreases n,
{
    let zero = S::zero_spec();
    if n == 0 {
        assert(unit_laws(f));
        assert(unit_laws(zero));
    } else {
        lemma_dot_of_eliminated_row(b, l, f, c, (n - 1) as nat);
        let s = dot_upto(b, c, (n - 1) as nat);
        let t = dot_upto(l, c, (n - 1) as nat);
        let x = b[n - 1].mul_spec(c[n - 1]);
        let y = l[n - 1].mul_spec(c[n - 1]);
        assert(eliminate_row(b, l, f)[n - 1] == b[n - 1].sub_spec(f.mul_spec(l[n - 1])));
        assert(difference_times(b[n - 1], f, l[n - 1], c[n - 1]));
        assert(differences_add(s, t, x, y, f));
    }
}

/// In exact arithmetic, the dot product of row `r` of the identity matrix
/// with a vector is entry `r` of the vector.
pub proof fn lemma_dot_of_unit_row<S: Scalar>(size: nat, r: int, c: Seq<S>, n: nat)
    requires
        exact_arithmetic::<S>(),
        0 <= r < size,
        n <= size,
    ensures
        dot_upto(identity::<S>(size)[r], c, n) == if r < n {
            c[r]
        } else {
            S::zero_spec()
        },
    decreases n,
{
    let zero = S::zero_spec();
    let one = S::one_spec();
    if n > 0 {
        lemma_dot_of_unit_row(size, r, c, (n - 1) as nat);
        let k = n - 1;
        let e = identity::<S>(size)[r];
        assert(unit_laws(c[k]));
        assert(unit_laws(zero));
        if k == r {
            assert(e[k] == one);
        } else {
            assert(e[k] == zero);
            if r < k {
                assert(unit_laws(c[r]));
            }
        }
    }
}

/// Entry `(r, j)` of the grid `m`.
pub open spec fn entry<S>(m: Seq<Seq<S>>, r: int, j: int) -> S {
    m[r][j]
}

/// Entry `(r, j)` of the product of `b` with `g`.
pub open spec fn product_entry<S: Scalar>(b: Seq<Seq<S>>, g: Seq<Seq<S>>, r: int, j: int) -> S {
    dot(b[r], column(g, j))
}

/// What elimination keeps true of the pair `(a, b)` that it has reached from
/// `(g, identity)` after `k` columns: `b` times `g` is `a`, and the first `k`
/// columns of `a` are those of the identity.
pub open spec fn reduced_so_far<S: Scalar>(
    g: Seq<Seq<S>>,
    a: Seq<Seq<S>>,
    b: Seq<Seq<S>>,
    k: nat,
) -> bool {
    let n = g.len();
    &&& is_grid(a, n, n)
    &&& is_grid(b, n, n)
    &&& forall|r: int, j: int|
        0 <= r < n && 0 <= j < n ==> #[trigger] product_entry(b, g, r, j) == a[r][j]
    &&& forall|r: int, j: int|
        0 <= r < n && 0 <= j < k ==> #[trigger] entry(a, r, j) == identity::<S>(n)[r][j]
}

/// In exact arithmetic, one elimination step on column `k` keeps
/// `reduced_so_far` and adds column `k` to the columns that are done.
pub proof fn lemma_pivot_step<S: Scalar>(g: Seq<Seq<S>>, a: Seq<Seq<S>>, b: Seq<Seq<S>>, k: nat)
    requires
        exact_arithmetic::<S>(),
        k < g.len(),
        reduced_so_far(g, a, b, k),
        !a[k as int][k as int].is_zero_spec(),
    ensures
        reduced_so_far(
            g,
            pivot_rows(a, k as int, a[k as int][k as int], column(a, k as int)),
            pivot_rows(b, k as int, a[k as int][k as int], column(a, k as int)),
            k + 1,
        ),
{
    let n = g.len();
    let zero = S::zero_spec();
    let one = S::one_spec();
    let i = k as int;
    let p = a[i][i];
    let fac = column(a, i);
    let a2 = pivot_rows(a, i, p, fac);
    let b2 = pivot_rows(b, i, p, fac);
    let lead_a = scale_row(a[i], p);
    let lead_b = scale_row(b[i], p);
    assert(is_grid(a2, n, n));
    assert(is_grid(b2, n, n));
    assert forall|r: int, j: int| 0 <= r < n && 0 <= j < n implies #[trigger] product_entry(
        b2,
        g,
        r,
        j,
    ) == a2[r][j] by {
        let col = column(g, j);
        lemma_dot_of_scaled_row(b[i], col, p, n);
        assert(product_entry(b, g, i, j) == a[i][j]);
        assert(dot(lead_b, col) == lead_a[j]);
        if r != i {
            lemma_dot_of_eliminated_row(b[r], lead_b, fac[r], col, n);
            assert(product_entry(b, g, r, j) == a[r][j]);
            assert(b2[r] == eliminate_row(b[r], lead_b, fac[r]));
            assert(a2[r][j] == a[r][j].sub_spec(fac[r].mul_spec(lead_a[j])));
        }
    }
    assert forall|r: int, j: int| 0 <= r < n && 0 <= j < k + 1 implies #[trigger] entry(
        a2,
        r,
        j,
    ) == identity::<S>(n)[r][j] by {
        assert(quotient_laws(p));
        if j == i {
            assert(lead_a[i] == p.div_spec(p));
            if r != i {
                let f = fac[r];
                assert(f == a[r][i]);
                assert(a2[r][i] == f.sub_spec(f.mul_spec(one)));
                assert(unit_laws(f));
            }
        } else {
            assert(entry(a, i, j) == identity::<S>(n)[i][j]);
            assert(a[i][j] == zero);
            assert(lead_a[j] == zero.div_spec(p));
            if r != i {
                let f = fac[r];
                assert(entry(a, r, j) == identity::<S>(n)[r][j]);
                assert(a2[r][j] == a[r][j].sub_spec(f.mul_spec(zero)));
                assert(unit_laws(f));
                assert(unit_laws(a[r][j]));
            }
        }
    }
}

/// In exact arithmetic, whatever pair elimination reaches from
/// `(g, identity)` satisfies `reduced_so_far`.
pub proof fn lemma_reduce_keeps<S: Scalar>(g: Seq<Seq<S>>, k: nat)
    requires
        exact_arithmetic::<S>(),
        is_grid(g, g.len(), g.len()),
        k <= g.len(),
        reduce(g, identity::<S>(g.len()), k) is Some,
    ensures
        ({
            let pair = reduce(g, identity::<S>(g.len()), k)->0;
            reduced_so_far(g, pair.0, pair.1, k)
        }),
    decreases k,
{
    let n = g.len();
    let eye = identity::<S>(n);
    if k == 0 {
        assert forall|r: int, j: int| 0 <= r < n && 0 <= j < n implies #[trigger] product_entry(
            eye,
            g,
            r,
            j,
        ) == g[r][j] by {
            lemma_dot_of_unit_row(n, r, column(g, j), n);
        }
    } else {
        let earlier = reduce(g, eye, (k - 1) as nat);
        assert(earlier is Some);
        lemma_reduce_keeps(g, (k - 1) as nat);
        let pair = earlier->0;
        lemma_pivot_step(g, pair.0, pair.1, (k - 1) as nat);
    }
}

/// In exact arithmetic, the matrix that `inverse` gives for a square matrix
/// is its inverse from the left: their product is the identity.
pub proof fn lemma_inverse_times_matrix<S: Scalar>(g: Seq<Seq<S>>, inv: Seq<Seq<S>>)
    requires
        exact_arithmetic::<S>(),
        is_grid(g, g.len(), g.len()),
        inverse(g) == Some(inv),
    ensures
        is_grid(inv, g.len(), g.len()),
        mat_mul(inv, g, g.len()) == identity::<S>(g.len()),
{
    let n = g.len();
    lemma_reduce_keeps(g, n);
    let pair = reduce(g, identity::<S>(n), n)->0;
    assert(pair.1 == inv);
    assert forall|r: int, j: int| 0 <= r < n && 0 <= j < n implies mat_mul(inv, g, n)[r][j]
        == identity::<S>(n)[r][j] by {
        assert(product_entry(inv, g, r, j) == pair.0[r][j]);
        assert(entry(pair.0, r, j) == identity::<S>(n)[r][j]);
    }
    assert(mat_mul(inv, g, n) =~~= identity::<S>(n));
}

/// The vector `v` plus `f` times the vector `w`.
pub open spec fn add_scaled<S: Scalar>(v: Seq<S>, f: S, w: Seq<S>) -> Seq<S> {
    Seq::new(v.len(), |k: int| v[k].add_spec(f.mul_spec(w[k])))
}

/// Row `c` times the first `t` rows of the matrix `b`, which has `width`
/// columns.
pub open spec fn partial_row<S: Scalar>(c: Seq<S>, b: Seq<Seq<S>>, width: nat, t: nat) -> Seq<S> {
    Seq::new(width, |k: int| dot_upto(c, column(b, k), t))
}

/// In exact arithmetic, adding a multiple of one vector to another adds the
/// same multiple of the dot products.
pub proof fn lemma_dot_of_added_row<S: Scalar>(v: Seq<S>, f: S, w: Seq<S>, c: Seq<S>, n: nat)
    requires
        exact_arithmetic::<S>(),
        n <= v.len(),
    ensures
        dot_upto(add_scaled(v, f, w), c, n) == dot_upto(v, c, n).add_spec(
            f.mul_spec(dot_upto(w, c, n)),
        ),
    decreases n,
{
    let zero = S::zero_spec();
    if n == 0 {
        assert(unit_laws(f));
        assert(unit_laws(zero));
    } else {
        lemma_dot_of_added_row(v, f, w, c, (n - 1) as nat);
        let s = dot_upto(v, c, (n - 1) as nat);
        let t = dot_upto(w, c, (n - 1) as nat);
        let x = v[n - 1].mul_spec(c[n - 1]);
        let y = w[n - 1].mul_spec(c[n - 1]);
        assert(add_scaled(v, f, w)[n - 1] == v[n - 1].add_spec(f.mul_spec(w[n - 1])));
        assert(sum_times(v[n - 1], f, w[n - 1], c[n - 1]));
        assert(sums_add(s, t, x, y, f));
    }
}

/// In exact arithmetic, the dot product of the zero vector with any vector
/// is zero.
pub proof fn lemma_dot_of_zeros<S: Scalar>(size: nat, c: Seq<S>, n: nat)
    requires
        exact_arithmetic::<S>(),
        n <= size,
    ensures
        dot_upto(zeros::<S>(size), c, n) == S::zero_spec(),
    decreases n,
{
    let zero = S::zero_spec();
    if n > 0 {
        lemma_dot_of_zeros(size, c, (n - 1) as nat);
        assert(zeros::<S>(size)[n - 1] == zero);
        assert(unit_laws(c[n - 1]));
        assert(unit_laws(zero));
    }
}

/// In exact arithmetic, the dot product of a vector with column `j` of the
/// identity matrix is entry `j` of the vector.
pub proof fn lemma_dot_of_unit_column<S: Scalar>(x: Seq<S>, size: nat, j: int, n: nat)
    requires
        exact_arithmetic::<S>(),
        0 <= j < size,
        n <= size,
    ensures
        dot_upto(x, column(identity::<S>(size), j), n) == if j < n {
            x[j]
        } else {
            S::zero_spec()
        },
    decreases n,
{
    let zero = S::zero_spec();
    let one = S::one_spec();
    if n > 0 {
        lemma_dot_of_unit_column(x, size, j, (n - 1) as nat);
        let k = n - 1;
        let e = column(identity::<S>(size), j);
        assert(unit_laws(x[k]));
        assert(unit_laws(zero));
        if k == j {
            assert(e[k] == one);
        } else {
            assert(e[k] == zero);
            if j < k {
                assert(unit_laws(x[j]));
            }
        }
    }
}

/// In exact arithmetic, a row times a matrix, times a column, is the row
/// times the matrix's products with the column: the step on which the
/// associativity of the matrix product rests. The matrix `b` has `p` rows and
/// `q` columns, and `t` is the number of its rows taken into account.
pub proof fn lemma_row_times_product<S: Scalar>(
    c: Seq<S>,
    b: Seq<Seq<S>>,
    col: Seq<S>,
    p: nat,
    q: nat,
    t: nat,
)
    requires
        exact_arithmetic::<S>(),
        is_grid(b, p, q),
        t <= p,
    ensures
        dot_upto(partial_row(c, b, q, t), col, q) == dot_upto(
            c,
            Seq::new(p, |l: int| dot(b[l], col)),
            t,
        ),
    decreases t,
{
    let u = Seq::new(p, |l: int| dot(b[l], col));
    if t == 0 {
        assert(partial_row(c, b, q, 0) =~= zeros::<S>(q));
        lemma_dot_of_zeros(q, col, q);
    } else {
        let s = (t - 1) as nat;
        lemma_row_times_product(c, b, col, p, q, s);
        let before = partial_row(c, b, q, s);
        assert(partial_row(c, b, q, t) =~= add_scaled(before, c[s as int], b[s as int]));
        lemma_dot_of_added_row(before, c[s as int], b[s as int], col, q);
        assert(dot_upto(b[s as int], col, q) == u[s as int]);
    }
}

/// In exact arithmetic, the matrix product is associative: for `c` with
/// rows of length `p`, `b` of `p` rows and `q` columns, and `g` of `q` rows
/// and `r` columns, `(c b) g = c (b g)`.
pub proof fn lemma_mat_mul_associative<S: Scalar>(
    c: Seq<Seq<S>>,
    b: Seq<Seq<S>>,
    g: Seq<Seq<S>>,
    p: nat,
    q: nat,
    r: nat,
)
    requires
        exact_arithmetic::<S>(),
        is_grid(c, c.len(), p),
        is_grid(b, p, q),
        is_grid(g, q, r),
    ensures
        mat_mul(mat_mul(c, b, q), g, r) == mat_mul(c, mat_mul(b, g, r), r),
{
    let left = mat_mul(mat_mul(c, b, q), g, r);
    let right = mat_mul(c, mat_mul(b, g, r), r);
    assert forall|i: int, j: int| 0 <= i < c.len() && 0 <= j < r implies left[i][j]
        == right[i][j] by {
        let col = column(g, j);
        lemma_row_times_product(c[i], b, col, p, q, p);
        assert(mat_mul(c, b, q)[i] =~= partial_row(c[i], b, q, p));
        assert(column(mat_mul(b, g, r), j) =~= Seq::new(p, |l: int| dot(b[l], col)));
    }
    assert(left =~~= right);
}

/// In exact arithmetic, a matrix times the identity is the matrix.
pub proof fn lemma_mat_mul_identity<S: Scalar>(c: Seq<Seq<S>>, d: nat)
    requires
        exact_arithmetic::<S>(),
        is_grid(c, c.len(), d),
    ensures
        mat_mul(c, identity::<S>(d), d) == c,
{
    assert forall|i: int, j: int| 0 <= i < c.len() && 0 <= j < d implies mat_mul(
        c,
        identity::<S>(d),
        d,
    )[i][j] == c[i][j] by {
        lemma_dot_of_unit_column(c[i], d, j, d);
    }
    assert(mat_mul(c, identity::<S>(d), d) =~~= c);
}

/// In exact arithmetic, the weights that ridge regression gives solve the
/// regularised normal equations: for states `x` and targets `y` with one row
/// per sample, the weights times the regularised Gram matrix of the states
/// are the transposed targets times the states.
pub proof fn lemma_ridge_weights_solve_normal_equations<S: Scalar>(
    x: Seq<Seq<S>>,
    y: Seq<Seq<S>>,
    d: nat,
    m: nat,
    ridge: S,
    w: Seq<Seq<S>>,
)
    requires
        exact_arithmetic::<S>(),
        ridge_weights(x, y, d, m, ridge) == Some(w),
    ensures
        mat_mul(w, gram(x, d, ridge), d) == transpose_mul(y, x, m, d),
{
    let g = gram(x, d, ridge);
    let cross = transpose_mul(y, x, m, d);
    let inv = inverse(g)->0;
    assert(is_grid(g, d, d));
    assert(is_grid(cross, m, d));
    lemma_inverse_times_matrix(g, inv);
    lemma_mat_mul_associative(cross, inv, g, d, d, d);
    lemma_mat_mul_identity(cross, d);
}

/// The transpose of the grid `m`, which has `cols` columns.
pub open spec fn transpose<S>(m: Seq<Seq<S>>, cols: nat) -> Seq<Seq<S>> {
    Seq::new(cols, |j: int| column(m, j))
}

/// Whether the square grid `m` of order `d` equals its transpose.
pub open spec fn is_symmetric<S>(m: Seq<Seq<S>>, d: nat) -> bool {
    forall|i: int, j: int| 0 <= i < d && 0 <= j < d ==> #[trigger] entry(m, i, j) == m[j][i]
}

/// In exact arithmetic, the dot product does not depend on the order of its
/// two vectors.
pub proof fn lemma_dot_commutes<S: Scalar>(a: Seq<S>, b: Seq<S>, n: nat)
    requires
        exact_arithmetic::<S>(),
    ensures
        dot_upto(a, b, n) == dot_upto(b, a, n),
    decreases n,
{
    if n > 0 {
        lemma_dot_commutes(a, b, (n - 1) as nat);
        assert(product_commutes(a[n - 1], b[n - 1]));
    }
}

/// In exact arithmetic, the identity times a matrix is the matrix.
pub proof fn lemma_identity_mat_mul<S: Scalar>(m: Seq<Seq<S>>, d: nat, cols: nat)
    requires
        exact_arithmetic::<S>(),
        is_grid(m, d, cols),
    ensures
        mat_mul(identity::<S>(d), m, cols) == m,
{
    assert forall|i: int, j: int| 0 <= i < d && 0 <= j < cols implies mat_mul(
        identity::<S>(d),
        m,
        cols,
    )[i][j] == m[i][j] by {
        lemma_dot_of_unit_row(d, i, column(m, j), d);
    }
    assert(mat_mul(identity::<S>(d), m, cols) =~~= m);
}

/// In exact arithmetic, a left inverse of a symmetric matrix is also its
/// inverse from the right.
pub proof fn lemma_left_inverse_of_symmetric<S: Scalar>(g: Seq<Seq<S>>, inv: Seq<Seq<S>>, d: nat)
    requires
        exact_arithmetic::<S>(),
        is_grid(g, d, d),
        is_grid(inv, d, d),
        is_symmetric(g, d),
        mat_mul(inv, g, d) == identity::<S>(d),
    ensures
        mat_mul(g, inv, d) == identity::<S>(d),
{
    let eye = identity::<S>(d);
    let turned = transpose(inv, d);
    // The transpose of the left inverse is an inverse from the right.
    assert forall|i: int, j: int| 0 <= i < d && 0 <= j < d implies mat_mul(g, turned, d)[i][j]
        == eye[i][j] by {
        assert(column(turned, j) =~= inv[j]);
        lemma_dot_commutes(g[i], inv[j], d);
        assert(g[i] =~= column(g, i)) by {
            assert forall|l: int| 0 <= l < d implies g[i][l] == column(g, i)[l] by {
                assert(entry(g, i, l) == g[l][i]);
            }
        }
        assert(mat_mul(inv, g, d)[j][i] == dot(inv[j], column(g, i)));
    }
    assert(mat_mul(g, turned, d) =~~= eye);
    // So the left inverse equals its transpose.
    lemma_mat_mul_identity(inv, d);
    lemma_mat_mul_associative(inv, g, turned, d, d, d);
    assert(is_grid(turned, d, d));
    lemma_identity_mat_mul(turned, d, d);
    assert(inv == turned);
}

/// In exact arithmetic, the Gram matrix of any states is symmetric, and
/// with the ridge coefficient zero the regularised Gram matrix is the Gram
/// matrix itself.
pub proof fn lemma_plain_gram_is_symmetric<S: Scalar>(x: Seq<Seq<S>>, d: nat)
    requires
        exact_arithmetic::<S>(),
    ensures
        gram(x, d, S::zero_spec()) == transpose_mul(x, x, d, d),
        is_symmetric(gram(x, d, S::zero_spec()), d),
{
    let plain = transpose_mul(x, x, d, d);
    let g = gram(x, d, S::zero_spec());
    assert forall|i: int, j: int| 0 <= i < d && 0 <= j < d implies g[i][j] == plain[i][j] by {
        assert(unit_laws(plain[i][j]));
    }
    assert(g =~~= plain);
    assert forall|i: int, j: int| 0 <= i < d && 0 <= j < d implies #[trigger] entry(g, i, j)
        == g[j][i] by {
        lemma_dot_commutes(column(x, i), column(x, j), x.len());
    }
}

/// In exact arithmetic, ridge regression with the coefficient zero recovers
/// a linear map exactly: where every target is the product of the weights
/// `w0` with the state it belongs to, and the Gram matrix of the states has an
/// inverse, the weights that regression gives are `w0`.
pub proof fn lemma_ridge_recovers_linear_map<S: Scalar>(
    x: Seq<Seq<S>>,
    y: Seq<Seq<S>>,
    d: nat,
    m: nat,
    w0: Seq<Seq<S>>,
    w: Seq<Seq<S>>,
)
    requires
        exact_arithmetic::<S>(),
        is_grid(x, x.len(), d),
        is_grid(y, x.len(), m),
        is_grid(w0, m, d),
        forall|k: int, o: int|
            0 <= k < x.len() && 0 <= o < m ==> #[trigger] entry(y, k, o) == dot(w0[o], x[k]),
        ridge_weights(x, y, d, m, S::zero_spec()) == Some(w),
    ensures
        w == w0,
{
    let n = x.len();
    let g = gram(x, d, S::zero_spec());
    let inv = inverse(g)->0;
    let cross = transpose_mul(y, x, m, d);
    let turned = transpose(x, d);
    lemma_plain_gram_is_symmetric(x, d);
    assert(is_grid(g, d, d));
    assert(is_grid(turned, d, n));
    // The transposed targets are the weights times the transposed states.
    let lifted = mat_mul(w0, turned, n);
    assert forall|o: int| 0 <= o < m implies #[trigger] lifted[o] == column(y, o) by {
        assert forall|k: int| 0 <= k < n implies lifted[o][k] == column(y, o)[k] by {
            assert(column(turned, k) =~= x[k]);
            assert(entry(y, k, o) == dot(w0[o], x[k]));
        }
        assert(lifted[o] =~= column(y, o));
    }
    assert(cross =~~= mat_mul(lifted, x, d));
    // So the cross products are the weights times the Gram matrix.
    assert(mat_mul(turned, x, d) =~~= g);
    lemma_mat_mul_associative(w0, turned, x, d, n, d);
    assert(cross == mat_mul(w0, g, d));
    // And the inverse of the Gram matrix gives the weights back.
    lemma_inverse_times_matrix(g, inv);
    lemma_left_inverse_of_symmetric(g, inv, d);
    lemma_mat_mul_associative(w0, g, inv, d, d, d);
    lemma_mat_mul_identity(w0, d);
}

/// Whether `p` is greater than zero.
pub open spec fn is_positive<S: Scalar>(p: S) -> bool {
    p.ge_spec(S::zero_spec()) && !p.is_zero_spec()
}

/// Zero is not negative, nor is an absolute value, nor the larger of two
/// numbers that are not negative.
pub open spec fn magnitude_laws<S: RealScalar>(a: S, b: S) -> bool {
    let zero = S::zero_spec();
    &&& zero.ge_spec(zero)
    &&& a.abs_spec().ge_spec(zero)
    &&& a.ge_spec(zero) && b.ge_spec(zero) ==> a.max_spec(b).ge_spec(zero)
}

/// For positive `p` and `s` that is not negative, `|e / p s| = |e| / p s`.
pub open spec fn scaling_keeps_abs<S: RealScalar>(e: S, p: S, s: S) -> bool {
    is_positive(p) && s.ge_spec(S::zero_spec()) ==> e.div_spec(p).mul_spec(s).abs_spec()
        == e.abs_spec().div_spec(p).mul_spec(s)
}

/// For positive `p` and `s` that is not negative, the larger of `a / p s`
/// and `b / p s` is the larger of `a` and `b`, divided by `p` and multiplied by
/// `s`.
pub open spec fn scaling_keeps_max<S: RealScalar>(a: S, b: S, p: S, s: S) -> bool {
    is_positive(p) && s.ge_spec(S::zero_spec()) ==> a.div_spec(p).mul_spec(s).max_spec(
        b.div_spec(p).mul_spec(s),
    ) == a.max_spec(b).div_spec(p).mul_spec(s)
}

/// The identities of absolute value and maximum in exact arithmetic on
/// which the statement on the largest weight rests. Every ordered field
/// satisfies them.
pub open spec fn exact_order<S: RealScalar>() -> bool {
    &&& forall|a: S, b: S| #[trigger] magnitude_laws(a, b)
    &&& forall|e: S, p: S, s: S| #[trigger] scaling_keeps_abs(e, p, s)
    &&& forall|a: S, b: S, p: S, s: S| #[trigger] scaling_keeps_max(a, b, p, s)
}

/// Each of `values` divided by `peak` and multiplied by `radius`.
pub open spec fn rescaled<S: Scalar>(values: Seq<S>, peak: S, radius: S) -> Seq<S> {
    Seq::new(values.len(), |k: int| values[k].div_spec(peak).mul_spec(radius))
}

/// In exact arithmetic, the largest absolute value among numbers is not
/// negative.
pub proof fn lemma_max_abs_not_negative<S: RealScalar>(values: Seq<S>, n: nat)
    requires
        exact_order::<S>(),
    ensures
        max_abs(values, n).ge_spec(S::zero_spec()),
    decreases n,
{
    if n == 0 {
        assert(magnitude_laws(S::zero_spec(), S::zero_spec()));
    } else {
        lemma_max_abs_not_negative(values, (n - 1) as nat);
        assert(magnitude_laws(values[n - 1], values[n - 1]));
        assert(magnitude_laws(max_abs(values, (n - 1) as nat), values[n - 1].abs_spec()));
    }
}

/// In exact arithmetic, rescaling numbers by a positive divisor and a
/// factor that is not negative rescales their largest absolute value alike.
pub proof fn lemma_max_abs_of_rescaled<S: RealScalar>(values: Seq<S>, p: S, s: S, n: nat)
    requires
        exact_arithmetic::<S>(),
        exact_order::<S>(),
        is_positive(p),
        s.ge_spec(S::zero_spec()),
        n <= values.len(),
    ensures
        max_abs(rescaled(values, p, s), n) == max_abs(values, n).div_spec(p).mul_spec(s),
    decreases n,
{
    if n == 0 {
        assert(quotient_laws(p));
        assert(unit_laws(s));
    } else {
        lemma_max_abs_of_rescaled(values, p, s, (n - 1) as nat);
        assert(rescaled(values, p, s)[n - 1] == values[n - 1].div_spec(p).mul_spec(s));
        assert(scaling_keeps_abs(values[n - 1], p, s));
        assert(scaling_keeps_max(max_abs(values, (n - 1) as nat), values[n - 1].abs_spec(), p, s));
    }
}

/// In exact arithmetic and for a spectral radius that is not negative: where
/// the draws for the recurrent weights are not all zero, the weights of a new
/// reservoir are the rescaled draws, and the largest absolute value among them
/// is the spectral radius.
pub proof fn lemma_largest_weight_is_spectral_radius<S: RealScalar>(
    draws: Seq<S>,
    units: nat,
    radius: S,
)
    requires
        exact_arithmetic::<S>(),
        exact_order::<S>(),
        units * units <= draws.len(),
        radius.ge_spec(S::zero_spec()),
        !max_abs(draws, units * units).is_zero_spec(),
    ensures
        ({
            let weights = rescaled(draws, max_abs(draws, units * units), radius);
            &&& fresh_w(draws, units, radius) == column_major(weights, 0, units, units)
            &&& max_abs(weights, units * units) == radius
        }),
{
    let peak = max_abs(draws, units * units);
    let weights = rescaled(draws, peak, radius);
    lemma_max_abs_not_negative(draws, units * units);
    lemma_max_abs_of_rescaled(draws, peak, radius, units * units);
    assert(quotient_laws(peak));
    assert(unit_laws(radius));
    let built = fresh_w(draws, units, radius);
    let grid = column_major(weights, 0, units, units);
    assert forall|i: int, j: int| 0 <= i < units && 0 <= j < units implies built[i][j]
        == grid[i][j] by {
        lemma_cell_in_block(i, j, units as int, units as int);
    }
    assert(built =~~= grid);
}

} // verus!
