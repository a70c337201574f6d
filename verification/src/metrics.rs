//! Scores of a prediction against the true series.

use crate::scalar::{RealScalar, Scalar};
use vstd::prelude::*;

verus! {

/// The number of places that two sequences share when they are walked
/// side by side.
pub open spec fn paired_len<S>(a: Seq<S>, b: Seq<S>) -> nat {
    if a.len() <= b.len() {
        a.len()
    } else {
        b.len()
    }
}

/// The sum of the squared differences of the first `n` entries of `a` and
/// `b`, accumulated from the left, starting from zero.
pub open spec fn squared_error_upto<S: RealScalar>(a: Seq<S>, b: Seq<S>, n: nat) -> S
    decreases n,
{
    if n == 0 {
        S::zero_spec()
    } else {
        squared_error_upto(a, b, (n - 1) as nat).add_spec(
            a[n - 1].sub_spec(b[n - 1]).powi_spec(2),
        )
    }
}

/// The sum of the squared differences of `a` and `b`, over the places that
/// both have.
pub open spec fn squared_error<S: RealScalar>(a: Seq<S>, b: Seq<S>) -> S {
    squared_error_upto(a, b, paired_len(a, b))
}

/// The sum of the first `n` entries of `a`, accumulated from the left,
/// starting from zero.
pub open spec fn sum_upto<S: Scalar>(a: Seq<S>, n: nat) -> S
    decreases n,
{
    if n == 0 {
        S::zero_spec()
    } else {
        sum_upto(a, (n - 1) as nat).add_spec(a[n - 1])
    }
}

/// The arithmetic mean of `a`.
pub open spec fn mean<S: Scalar>(a: Seq<S>) -> S {
    sum_upto(a, a.len()).div_spec(S::from_usize_spec(a.len() as usize))
}

/// The sum of the squared differences between the first `n` entries of `a`
/// and the number `c`.
pub open spec fn squared_deviation_upto<S: RealScalar>(a: Seq<S>, c: S, n: nat) -> S
    decreases n,
{
    if n == 0 {
        S::zero_spec()
    } else {
        squared_deviation_upto(a, c, (n - 1) as nat).add_spec(a[n - 1].sub_spec(c).powi_spec(2))
    }
}

/// The smallest of the first `n` entries of `a`, and the largest finite
/// number where `n` is zero.
pub open spec fn least_upto<S: RealScalar>(a: Seq<S>, n: nat) -> S
    decreases n,
{
    if n == 0 {
        S::max_value_spec()
    } else {
        least_upto(a, (n - 1) as nat).min_spec(a[n - 1])
    }
}

/// The largest of the first `n` entries of `a`, and the smallest finite
/// number where `n` is zero.
pub open spec fn greatest_upto<S: RealScalar>(a: Seq<S>, n: nat) -> S
    decreases n,
{
    if n == 0 {
        S::min_value_spec()
    } else {
        greatest_upto(a, (n - 1) as nat).max_spec(a[n - 1])
    }
}

/// The mean squared error: the squared error divided by the number of true
/// values.
pub open spec fn mse_spec<S: RealScalar>(y_true: Seq<S>, y_pred: Seq<S>) -> S {
    squared_error(y_true, y_pred).div_spec(S::from_usize_spec(y_true.len() as usize))
}

/// The root of the mean squared error.
pub open spec fn rmse_spec<S: RealScalar>(y_true: Seq<S>, y_pred: Seq<S>) -> S {
    mse_spec(y_true, y_pred).sqrt_spec()
}

/// The root of the mean squared error divided by the range of the true
/// values.
pub open spec fn nrmse_spec<S: RealScalar>(y_true: Seq<S>, y_pred: Seq<S>) -> S {
    rmse_spec(y_true, y_pred).div_spec(
        greatest_upto(y_true, y_true.len()).sub_spec(least_upto(y_true, y_true.len())),
    )
}

/// The coefficient of determination: one less the squared error over the
/// squared deviation of the true values from their mean.
pub open spec fn rsquare_spec<S: RealScalar>(y_true: Seq<S>, y_pred: Seq<S>) -> S {
    S::one_spec().sub_spec(
        squared_error(y_true, y_pred).div_spec(
            squared_deviation_upto(y_true, mean(y_true), y_true.len()),
        ),
    )
}

/// The sum of the squared differences of `a` and `b`, over the places that
/// both have.
fn sum_squared_error<S: RealScalar>(a: &[S], b: &[S]) -> (r: S)
    ensures
        r == squared_error(a@, b@),
{
    let n = if a.len() <= b.len() {
        a.len()
    } else {
        b.len()
    };
    let mut acc = S::zero();
    let mut k: usize = 0;
    while k < n
        invariant
            n == paired_len(a@, b@),
            k <= n,
            acc == squared_error_upto(a@, b@, k as nat),
        decreases n - k,
    {
        acc = acc.add(a[k].sub(b[k]).powi(2));
        k = k + 1;
    }
    acc
}

/// The mean squared error of the predictions `y_pred` against `y_true`.
pub fn mse<S: RealScalar>(y_true: &[S], y_pred: &[S]) -> (r: S)
    ensures
        r == mse_spec(y_true@, y_pred@),
{
    sum_squared_error(y_true, y_pred).div(S::from_usize(y_true.len()))
}

/// The root of the mean squared error.
pub fn rmse<S: RealScalar>(y_true: &[S], y_pred: &[S]) -> (r: S)
    ensures
        r == rmse_spec(y_true@, y_pred@),
{
    mse(y_true, y_pred).sqrt()
}

/// The root of the mean squared error, divided by the range of the true
/// values.
pub fn nrmse<S: RealScalar>(y_true: &[S], y_pred: &[S]) -> (r: S)
    ensures
        r == nrmse_spec(y_true@, y_pred@),
{
    let error = rmse(y_true, y_pred);
    let mut least = S::max_value();
    let mut greatest = S::min_value();
    let mut k: usize = 0;
    while k < y_true.len()
        invariant
            k <= y_true@.len(),
            least == least_upto(y_true@, k as nat),
            greatest == greatest_upto(y_true@, k as nat),
        decreases y_true@.len() - k,
    {
        least = least.min(y_true[k]);
        greatest = greatest.max(y_true[k]);
        k = k + 1;
    }
    error.div(greatest.sub(least))
}

/// The coefficient of determination of the predictions `y_pred` against
/// `y_true`.
pub fn rsquare<S: RealScalar>(y_true: &[S], y_pred: &[S]) -> (r: S)
    ensures
        r == rsquare_spec(y_true@, y_pred@),
{
    let n = y_true.len();
    let mut total = S::zero();
    let mut k: usize = 0;
    while k < n
        invariant
            n == y_true@.len(),
            k <= n,
            total == sum_upto(y_true@, k as nat),
        decreases n - k,
    {
        total = total.add(y_true[k]);
        k = k + 1;
    }
    let center = total.div(S::from_usize(n));
    let mut spread = S::zero();
    let mut j: usize = 0;
    while j < n
        invariant
            n == y_true@.len(),
            j <= n,
            center == mean(y_true@),
            spread == squared_deviation_upto(y_true@, center, j as nat),
        decreases n - j,
    {
        spread = spread.add(y_true[j].sub(center).powi(2));
        j = j + 1;
    }
    let residual = sum_squared_error(y_true, y_pred);
    S::one().sub(residual.div(spread))
}

} // verus!
