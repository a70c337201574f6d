//! Sliding windows that turn a series into training pairs.

use crate::algebra::column;
use crate::matrix::Matrix;
use crate::scalar::Scalar;
use vstd::prelude::*;

verus! {

/// Cuts a series into training pairs: `window` consecutive values as the
/// input, and as the target the value `horizon` places after the first value
/// that follows the window.
pub struct SlidingWindow {
    /// The number of values in each input.
    pub window: usize,
    /// The distance from the end of the window to the target.
    pub horizon: usize,
}

impl SlidingWindow {
    /// The number of pairs that a series of `rows` values gives.
    pub open spec fn count(&self, rows: nat) -> nat {
        (rows - self.window - self.horizon) as nat
    }

    /// Input `i` of the series `s`: the `window` values from position `i`.
    pub open spec fn input_at<S>(&self, s: Seq<S>, i: int) -> Seq<S> {
        s.subrange(i, i + self.window)
    }

    /// Target `i` of the series `s`: the value at position
    /// `i + window + horizon`, as a vector of length one.
    pub open spec fn target_at<S>(&self, s: Seq<S>, i: int) -> Seq<S> {
        seq![s[i + self.window + self.horizon]]
    }

    /// The inputs and targets that the first column of `series` gives, in the
    /// order of their positions. The series has at least one column and at
    /// least `window + horizon` rows.
    pub fn split<S: Scalar>(&self, series: &Matrix<S>) -> (r: (Vec<Vec<S>>, Vec<Vec<S>>))
        requires
            series.wf(),
            series.cols_spec() > 0,
            self.window + self.horizon <= series@.len(),
        ensures
            r.0@.len() == self.count(series@.len()),
            r.1@.len() == self.count(series@.len()),
            forall|i: int|
                0 <= i < self.count(series@.len()) ==> (#[trigger] r.0@[i])@ == self.input_at(
                    column(series@, 0),
                    i,
                ),
            forall|i: int|
                0 <= i < self.count(series@.len()) ==> (#[trigger] r.1@[i])@ == self.target_at(
                    column(series@, 0),
                    i,
                ),
    {
        let values = series.column(0);
        let rows = values.len();
        let count = rows - self.window - self.horizon;
        let mut inputs: Vec<Vec<S>> = Vec::new();
        let mut targets: Vec<Vec<S>> = Vec::new();
        let mut i: usize = 0;
        while i < count
            invariant
                values@ == column(series@, 0),
                rows == values@.len(),
                self.window + self.horizon <= rows,
                count == rows - self.window - self.horizon,
                i <= count,
                inputs@.len() == i,
                targets@.len() == i,
                forall|k: int| 0 <= k < i ==> (#[trigger] inputs@[k])@ == self.input_at(values@, k),
                forall|k: int|
                    0 <= k < i ==> (#[trigger] targets@[k])@ == self.target_at(values@, k),
            decreases count - i,
        {
            let mut x: Vec<S> = Vec::new();
            let mut j: usize = 0;
            while j < self.window
                invariant
                    rows == values@.len(),
                    i + self.window + self.horizon < rows,
                    j <= self.window,
                    x@.len() == j,
                    forall|b: int| 0 <= b < j ==> x@[b] == values@[i + b],
                decreases self.window - j,
            {
                x.push(values[i + j]);
                j = j + 1;
            }
            let mut y: Vec<S> = Vec::new();
            y.push(values[i + self.window + self.horizon]);
            proof {
                assert(x@ =~= self.input_at(values@, i as int));
                assert(y@ =~= self.target_at(values@, i as int));
            }
            inputs.push(x);
            targets.push(y);
            i = i + 1;
        }
        (inputs, targets)
    }
}

} // verus!
