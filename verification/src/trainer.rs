//! The trainer capability and batch ridge regression in closed form.

use crate::algebra::{add_diagonal, inverse, is_grid, mat_mul, rows_view, transpose_mul};
use crate::error::EsnError;
use crate::matrix::{copy_vector, rows_have_len, Matrix};
use crate::readout::{Readout, RidgeReadout};
use crate::reservoir::{DenseReservoir, Reservoir};
use crate::scalar::{RealScalar, Scalar};
use vstd::prelude::*;

verus! {

/// Something that fits the weights of a readout to a training set, driving
/// a reservoir through the inputs.
///
/// Whatever the method, a fit that fails leaves the readout as it was.
pub trait Trainer<R, O, S> where R: Reservoir<S>, O: Readout<S>, S: Scalar {
    /// What a failed fit reports.
    type Error;

    /// Fits `readout` to the pairs of `inputs` and `targets`.
    fn fit(
        &mut self,
        reservoir: &mut R,
        readout: &mut O,
        inputs: &[Vec<S>],
        targets: &[Vec<S>],
    ) -> (r: Result<(), Self::Error>)
        requires
            old(reservoir).wf(),
            old(readout).wf(),
        ensures
            final(reservoir).wf(),
            final(readout).wf(),
            r is Err ==> *final(readout) == *old(readout),
    ;
}

/// The parameters of ridge regression.
pub struct RidgeParams<S: Scalar> {
    /// The weight of the penalty on the size of the weights.
    pub ridge: S,
}

/// Whether a training set has the shape that a fit needs: as many targets
/// as inputs, at least one of each, every input of length `input_dim` and
/// every target of length `output_dim`.
pub open spec fn batch_fits<S>(
    inputs: Seq<Seq<S>>,
    targets: Seq<Seq<S>>,
    input_dim: nat,
    output_dim: nat,
) -> bool {
    &&& inputs.len() == targets.len()
    &&& inputs.len() > 0
    &&& is_grid(inputs, inputs.len(), input_dim)
    &&& is_grid(targets, targets.len(), output_dim)
}

/// The Gram matrix of the states `x`, each of length `d`, with `ridge` added
/// on its diagonal.
pub open spec fn gram<S: Scalar>(x: Seq<Seq<S>>, d: nat, ridge: S) -> Seq<Seq<S>> {
    add_diagonal(transpose_mul(x, x, d, d), ridge)
}

/// The readout weights that ridge regression gives for the states `x`, each
/// of length `d`, and the targets `y`, each of length `m`: the product of the
/// transposed targets with the states, times the inverse of the regularised
/// Gram matrix; `None` where that matrix has no inverse.
pub open spec fn ridge_weights<S: Scalar>(
    x: Seq<Seq<S>>,
    y: Seq<Seq<S>>,
    d: nat,
    m: nat,
    ridge: S,
) -> Option<Seq<Seq<S>>> {
    match inverse(gram(x, d, ridge)) {
        None => None,
        Some(inv) => Some(mat_mul(transpose_mul(y, x, m, d), inv, d)),
    }
}

/// The regularised Gram matrix of the states `x`, which have one row per
/// sample.
pub fn regularized_gram<S: Scalar>(x: &Matrix<S>, ridge: S) -> (r: Matrix<S>)
    requires
        x.wf(),
    ensures
        r.wf(),
        r.cols_spec() == x.cols_spec(),
        r@.len() == x.cols_spec(),
        r@ == gram(x@, x.cols_spec(), ridge),
{
    x.transpose_mul(x).add_diagonal(ridge)
}

/// The readout weights for the states `x` and the targets `y`, given what
/// inverting the regularised Gram matrix gave: the product of the transposed
/// targets with the states, times that inverse. No inverse is a singular
/// matrix; an inverse that is not square of the order of a state does not
/// fit.
pub fn weights_from_inverse<S: Scalar>(
    x: &Matrix<S>,
    y: &Matrix<S>,
    inverse: Option<Matrix<S>>,
) -> (r: Result<Matrix<S>, EsnError>)
    requires
        x.wf(),
        y.wf(),
        x@.len() == y@.len(),
        inverse matches Some(g) ==> g.wf(),
    ensures
        match inverse {
            None => r matches Err(e) && e == EsnError::SingularMatrix,
            Some(g) => if g@.len() == x.cols_spec() && g.cols_spec() == x.cols_spec() {
                r matches Ok(w) && w.wf() && w.cols_spec() == x.cols_spec() && w@ == mat_mul(
                    transpose_mul(y@, x@, y.cols_spec(), x.cols_spec()),
                    g@,
                    x.cols_spec(),
                )
            } else {
                r matches Err(e) && e == EsnError::DimensionMismatch
            },
        },
{
    match inverse {
        None => Err(EsnError::SingularMatrix),
        Some(g) => {
            if g.nrows() != x.ncols() || g.ncols() != x.ncols() {
                return Err(EsnError::DimensionMismatch);
            }
            let cross = y.transpose_mul(x);
            Ok(cross.mul(&g))
        },
    }
}

/// Solves the regularised normal equations for the states `x` and the
/// targets `y`, which have one row per sample.
pub fn solve_ridge<S: Scalar>(x: &Matrix<S>, y: &Matrix<S>, ridge: S) -> (r: Result<
    Matrix<S>,
    EsnError,
>)
    requires
        x.wf(),
        y.wf(),
        x@.len() == y@.len(),
    ensures
        match ridge_weights(x@, y@, x.cols_spec(), y.cols_spec(), ridge) {
            Some(w) => r matches Ok(m) && m.wf() && m@ == w && m.cols_spec() == x.cols_spec(),
            None => r matches Err(e) && e == EsnError::SingularMatrix,
        },
{
    let inverse = regularized_gram(x, ridge).try_inverse();
    weights_from_inverse(x, y, inverse)
}

/// Checks a training set against the reservoir and the readout, then
/// drives the reservoir through the inputs from the state it is in.
///
/// Returns the states that the reservoir showed, one row per input, and the
/// targets as a matrix. Where the training set does not fit, or `ridge` is
/// not at least zero, nothing changes.
pub fn collect_states<S: RealScalar>(
    reservoir: &mut DenseReservoir<S>,
    readout: &RidgeReadout<S>,
    inputs: &[Vec<S>],
    targets: &[Vec<S>],
    ridge: S,
) -> (r: Result<(Matrix<S>, Matrix<S>), EsnError>)
    requires
        old(reservoir).wf(),
        readout.wf(),
    ensures
        final(reservoir).wf(),
        ({
            let before = old(reservoir)@;
            let batch = rows_view(inputs@);
            let wanted = rows_view(targets@);
            if !batch_fits(batch, wanted, before.input_dim, readout.output_len()) {
                &&& r matches Err(e) && e == EsnError::DimensionMismatch
                &&& *final(reservoir) == *old(reservoir)
            } else if !ridge.ge_spec(S::zero_spec()) {
                &&& r matches Err(e) && e == EsnError::Configuration
                &&& *final(reservoir) == *old(reservoir)
            } else {
                &&& final(reservoir)@ == before.run(batch, batch.len())
                &&& r matches Ok((x, y)) && x.wf() && y.wf() && x@ == before.trajectory(batch) && y@
                    == wanted && x.cols_spec() == before.extended.len() && y.cols_spec()
                    == readout.output_len()
            }
        }),
{
    let n = inputs.len();
    if n != targets.len() || n == 0 {
        return Err(EsnError::DimensionMismatch);
    }
    if !rows_have_len(inputs, reservoir.input_dim()) {
        return Err(EsnError::DimensionMismatch);
    }
    let y = match Matrix::from_slice(targets, readout.output_dim()) {
        Ok(y) => y,
        Err(e) => {
            return Err(e);
        },
    };
    if !ridge.ge(S::zero()) {
        return Err(EsnError::Configuration);
    }
    let d = reservoir.dim();
    let ghost start = reservoir@;
    let ghost batch = rows_view(inputs@);
    let mut states: Vec<Vec<S>> = Vec::new();
    let mut i: usize = 0;
    while i < n
        invariant
            n == inputs@.len(),
            batch == rows_view(inputs@),
            is_grid(batch, n as nat, start.input_dim),
            reservoir.wf(),
            reservoir@ == start.run(batch, i as nat),
            reservoir@.input_dim == start.input_dim,
            reservoir@.extended.len() == d,
            i <= n,
            states@.len() == i,
            forall|k: int| 0 <= k < i ==> (#[trigger] states@[k])@.len() == d,
            forall|k: int|
                0 <= k < i ==> (#[trigger] states@[k])@ == start.run(batch, (k + 1) as nat).extended,
        decreases n - i,
    {
        assert(batch[i as int] == inputs@[i as int]@);
        match reservoir.step(&inputs[i]) {
            Ok(state) => {
                states.push(copy_vector(state));
            },
            Err(e) => {
                return Err(e);
            },
        }
        i = i + 1;
    }
    proof {
        assert(rows_view(states@) =~= start.trajectory(batch));
        assert(is_grid(rows_view(states@), states@.len(), d as nat));
    }
    match Matrix::from_rows(states, d) {
        Ok(x) => Ok((x, y)),
        Err(e) => Err(e),
    }
}

/// Batch ridge regression in closed form.
pub struct RidgeTrainer<S: RealScalar> {
    /// The weight of the penalty on the size of the weights; at least zero.
    pub ridge: S,
}

impl<S: RealScalar> Default for RidgeTrainer<S> {
    /// A trainer with the ridge coefficient one millionth.
    fn default() -> (r: Self)
        ensures
            r.ridge == S::one_spec().div_spec(S::from_usize_spec(1_000_000)),
    {
        RidgeTrainer { ridge: S::one().div(S::from_usize(1_000_000)) }
    }
}

impl<S: RealScalar> Trainer<DenseReservoir<S>, RidgeReadout<S>, S> for RidgeTrainer<S> {
    type Error = EsnError;

    /// Drives `reservoir` through `inputs` from the state it is in, without
    /// resetting it, and installs in `readout` the weights that ridge
    /// regression gives for the states it showed and `targets`.
    ///
    /// The shape of the training set and the ridge coefficient are checked
    /// before anything changes.
    fn fit(
        &mut self,
        reservoir: &mut DenseReservoir<S>,
        readout: &mut RidgeReadout<S>,
        inputs: &[Vec<S>],
        targets: &[Vec<S>],
    ) -> (r: Result<(), EsnError>)
        ensures
            final(self).ridge == old(self).ridge,
            ({
                let before = old(reservoir)@;
                let batch = rows_view(inputs@);
                let wanted = rows_view(targets@);
                let ridge = old(self).ridge;
                if !batch_fits(batch, wanted, before.input_dim, old(readout).output_len()) {
                    &&& r matches Err(e) && e == EsnError::DimensionMismatch
                    &&& *final(reservoir) == *old(reservoir)
                } else if !ridge.ge_spec(S::zero_spec()) {
                    &&& r matches Err(e) && e == EsnError::Configuration
                    &&& *final(reservoir) == *old(reservoir)
                } else {
                    &&& final(reservoir)@ == before.run(batch, batch.len())
                    &&& match ridge_weights(
                        before.trajectory(batch),
                        wanted,
                        before.extended.len(),
                        old(readout).output_len(),
                        ridge,
                    ) {
                        Some(w) => r is Ok && final(readout)@ == w && final(readout).state_len()
                            == before.extended.len(),
                        None => r matches Err(e) && e == EsnError::SingularMatrix,
                    }
                }
            }),
    {
        let (x, y) = match collect_states(reservoir, readout, inputs, targets, self.ridge) {
            Ok(pair) => pair,
            Err(e) => {
                return Err(e);
            },
        };
        match solve_ridge(&x, &y, self.ridge) {
            Ok(w) => {
                readout.set_weights(w);
                Ok(())
            },
            Err(e) => Err(e),
        }
    }
}

} // verus!
