//! The readout capability and the linear readout.

use crate::error::EsnError;
use crate::algebra::{column_major, mat_vec};
use crate::matrix::Matrix;
use crate::scalar::{RealScalar, Scalar};
use crate::types::{Output, State};
use vstd::prelude::*;

verus! {

/// A map from the state of a reservoir to an output vector. It has no state
/// of its own: the same state always gives the same output.
pub trait Readout<S: Scalar>: Sized {
    /// Whether the value is consistent.
    open spec fn wf(&self) -> bool {
        arbitrary()
    }

    /// The length of the state vectors that `predict` accepts.
    open spec fn state_len(&self) -> nat {
        arbitrary()
    }

    /// The length of the output vectors.
    open spec fn output_len(&self) -> nat {
        arbitrary()
    }

    /// The output for `state`.
    open spec fn output_for(&self, state: Seq<S>) -> Seq<S> {
        arbitrary()
    }

    /// The output for `state`. A state of the wrong length is rejected.
    fn predict(&self, state: &State<S>) -> (r: Result<Output<S>, EsnError>)
        requires
            self.wf(),
        ensures
            state@.len() == self.state_len() ==> (r matches Ok(y) && y@ == self.output_for(state@)
                && y@.len() == self.output_len()),
            state@.len() != self.state_len() ==> (r matches Err(e) && e
                == EsnError::DimensionMismatch),
    ;

    /// The length of the output vectors.
    fn output_dim(&self) -> (r: usize)
        requires
            self.wf(),
        ensures
            r == self.output_len(),
    ;
}

/// The seed of the stream from which a new readout takes its weights.
pub const INITIAL_WEIGHTS_SEED: u64 = 1234;

/// A linear readout: the output is the weight matrix times the state.
pub struct RidgeReadout<S: RealScalar> {
    w_out: Matrix<S>,
}

impl<S: RealScalar> View for RidgeReadout<S> {
    type V = Seq<Seq<S>>;

    /// The weight matrix by rows: one row per output, one column per entry
    /// of the state.
    closed spec fn view(&self) -> Seq<Seq<S>> {
        self.w_out@
    }
}

impl<S: RealScalar> RidgeReadout<S> {
    /// The number of columns of the weight matrix.
    pub closed spec fn cols_spec(&self) -> nat {
        self.w_out.cols_spec()
    }

    /// The stored matrix is rectangular.
    pub closed spec fn is_rectangular(&self) -> bool {
        self.w_out.wf()
    }

    /// A readout with one output for states of length `dim`. Until it is
    /// trained its weights are the first `dim` draws of a fixed pseudorandom
    /// stream.
    pub fn new(dim: usize) -> (r: Self)
        ensures
            r.wf(),
            r.state_len() == dim,
            r@ == seq![S::uniform_stream_spec(INITIAL_WEIGHTS_SEED, dim as nat)],
    {
        let draws = S::uniform_stream(INITIAL_WEIGHTS_SEED, dim);
        assert(1 * dim == dim) by (nonlinear_arith);
        let w_out = Matrix::from_column_major(&draws, 0, 1, dim);
        proof {
            assert(w_out@[0] =~= draws@) by {
                assert forall|j: int| 0 <= j < dim implies column_major(
                    draws@,
                    0,
                    1,
                    dim as nat,
                )[0][j] == draws@[j] by {
                    assert(0 + j * 1 + 0 == j) by (nonlinear_arith);
                }
            }
            assert(w_out@ =~= seq![draws@]);
        }
        RidgeReadout { w_out }
    }

    /// Replaces the weight matrix.
    pub fn set_weights(&mut self, w: Matrix<S>)
        requires
            w.wf(),
        ensures
            final(self).wf(),
            final(self)@ == w@,
            final(self).state_len() == w.cols_spec(),
    {
        self.w_out = w;
    }

    /// The weight matrix.
    pub fn weights(&self) -> (r: &Matrix<S>)
        requires
            self.wf(),
        ensures
            r.wf(),
            r@ == self@,
            r.cols_spec() == self.state_len(),
    {
        &self.w_out
    }

    /// The length of the state vectors that `predict` accepts.
    pub fn state_dim(&self) -> (r: usize)
        requires
            self.wf(),
        ensures
            r == self.state_len(),
    {
        self.w_out.ncols()
    }
}

impl<S: RealScalar> Readout<S> for RidgeReadout<S> {
    open spec fn wf(&self) -> bool {
        self.is_rectangular()
    }

    open spec fn state_len(&self) -> nat {
        self.cols_spec()
    }

    open spec fn output_len(&self) -> nat {
        self@.len()
    }

    open spec fn output_for(&self, state: Seq<S>) -> Seq<S> {
        mat_vec(self@, state)
    }

    fn predict(&self, state: &State<S>) -> (r: Result<Output<S>, EsnError>) {
        if state.len() != self.w_out.ncols() {
            return Err(EsnError::DimensionMismatch);
        }
        Ok(self.w_out.mul_vec(state))
    }

    fn output_dim(&self) -> (r: usize) {
        self.w_out.nrows()
    }
}

} // verus!
