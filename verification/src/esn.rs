//! The network: one reservoir and one readout, and the builder that makes
//! them.

use crate::algebra::{mat_vec, rows_view};
use crate::error::EsnError;
use crate::readout::{Readout, RidgeReadout, INITIAL_WEIGHTS_SEED};
use crate::reservoir::{fresh_model, valid_shape, DenseReservoir, Reservoir};
use crate::scalar::RealScalar;
use crate::trainer::{batch_fits, ridge_weights, RidgeTrainer, Trainer};
use crate::types::{Input, Output};
use vstd::prelude::*;

verus! {

/// A reservoir together with the readout that is trained on its states.
pub struct EchoStateNetwork<S: RealScalar> {
    /// The reservoir that turns inputs into states.
    pub reservoir: DenseReservoir<S>,
    /// The readout that turns states into outputs.
    pub readout: RidgeReadout<S>,
}

impl<S: RealScalar> EchoStateNetwork<S> {
    /// Both parts are consistent.
    pub open spec fn wf(&self) -> bool {
        self.reservoir.wf() && self.readout.wf()
    }

    /// Whether `predict` accepts `input`: it has the length that the
    /// reservoir takes, and the readout takes states of the length that the
    /// reservoir shows.
    pub open spec fn accepts(&self, input: Seq<S>) -> bool {
        &&& input.len() == self.reservoir@.input_dim
        &&& self.readout.state_len() == self.reservoir@.extended.len()
    }

    /// Advances the reservoir by `input` and returns the readout of the new
    /// state. Where the lengths do not agree nothing changes.
    pub fn predict(&mut self, input: &Input<S>) -> (r: Result<Output<S>, EsnError>)
        requires
            old(self).wf(),
        ensures
            final(self).wf(),
            final(self).readout == old(self).readout,
            ({
                let before = old(self).reservoir@;
                if old(self).accepts(input@) {
                    &&& final(self).reservoir@ == before.step(input@)
                    &&& r matches Ok(y) && y@ == mat_vec(
                        old(self).readout@,
                        before.step(input@).extended,
                    )
                } else {
                    &&& r matches Err(e) && e == EsnError::DimensionMismatch
                    &&& *final(self) == *old(self)
                }
            }),
    {
        if input.len() != self.reservoir.input_dim() || self.readout.state_dim()
            != self.reservoir.dim() {
            return Err(EsnError::DimensionMismatch);
        }
        match self.reservoir.step(input) {
            Ok(state) => self.readout.predict(state),
            Err(e) => Err(e),
        }
    }

    /// Trains the readout by ridge regression with the coefficient `ridge`
    /// on the states that the reservoir shows for `inputs`, starting from the
    /// state it is in.
    pub fn fit(
        &mut self,
        inputs: &[Vec<S>],
        targets: &[Vec<S>],
        ridge: S,
    ) -> (r: Result<(), EsnError>)
        requires
            old(self).wf(),
        ensures
            final(self).wf(),
            r is Err ==> final(self).readout == old(self).readout,
            ({
                let before = old(self).reservoir@;
                let batch = rows_view(inputs@);
                let wanted = rows_view(targets@);
                if !batch_fits(batch, wanted, before.input_dim, old(self).readout.output_len()) {
                    &&& r matches Err(e) && e == EsnError::DimensionMismatch
                    &&& *final(self) == *old(self)
                } else if !ridge.ge_spec(S::zero_spec()) {
                    &&& r matches Err(e) && e == EsnError::Configuration
                    &&& *final(self) == *old(self)
                } else {
                    &&& final(self).reservoir@ == before.run(batch, batch.len())
                    &&& match ridge_weights(
                        before.trajectory(batch),
                        wanted,
                        before.extended.len(),
                        old(self).readout.output_len(),
                        ridge,
                    ) {
                        Some(w) => r is Ok && final(self).readout@ == w
                            && final(self).readout.state_len() == before.extended.len(),
                        None => r matches Err(e) && e == EsnError::SingularMatrix,
                    }
                }
            }),
    {
        let mut trainer = RidgeTrainer { ridge };
        trainer.fit(&mut self.reservoir, &mut self.readout, inputs, targets)
    }

    /// The length of the state that the readout sees: one for the bias, the
    /// inputs, and the units.
    pub fn state_dim(&self) -> (r: usize)
        requires
            self.wf(),
        ensures
            r == self.reservoir@.extended.len(),
    {
        self.reservoir.dim()
    }
}

/// The settings from which a network is built.
pub struct EsnConfig<S> {
    /// The length of an input vector.
    pub input_dim: usize,
    /// The number of units of the reservoir.
    pub units: usize,
    /// The largest absolute value of a recurrent weight.
    pub spectral_radius: S,
    /// The factor on the input weights.
    pub input_scaling: S,
    /// The share of the new activation in each update of a unit.
    pub leaking_rate: S,
    /// The seed of the stream that the weights are drawn from.
    pub seed: u64,
}

/// Collects the settings of a network one by one, then builds it.
pub struct ESNBuilder<S: RealScalar> {
    input_dim: usize,
    units: usize,
    spectral_radius: S,
    input_scaling: S,
    leaking_rate: S,
    seed: u64,
}

impl<S: RealScalar> View for ESNBuilder<S> {
    type V = EsnConfig<S>;

    closed spec fn view(&self) -> EsnConfig<S> {
        EsnConfig {
            input_dim: self.input_dim,
            units: self.units,
            spectral_radius: self.spectral_radius,
            input_scaling: self.input_scaling,
            leaking_rate: self.leaking_rate,
            seed: self.seed,
        }
    }
}

impl<S: RealScalar> ESNBuilder<S> {
    /// The settings for inputs of length `input_dim`, with 100 units,
    /// spectral radius, input scaling and leaking rate one, and seed 42.
    pub fn new(input_dim: usize) -> (r: Self)
        ensures
            r@ == (EsnConfig {
                input_dim,
                units: 100,
                spectral_radius: S::one_spec(),
                input_scaling: S::one_spec(),
                leaking_rate: S::one_spec(),
                seed: 42,
            }),
    {
        ESNBuilder {
            input_dim,
            units: 100,
            spectral_radius: S::one(),
            input_scaling: S::one(),
            leaking_rate: S::one(),
            seed: 42,
        }
    }

    /// Sets the number of units.
    pub fn units(self, n: usize) -> (r: Self)
        ensures
            r@ == (EsnConfig { units: n, ..self@ }),
    {
        ESNBuilder { units: n, ..self }
    }

    /// Sets the largest absolute value of a recurrent weight.
    pub fn spectral_radius(self, r: S) -> (b: Self)
        ensures
            b@ == (EsnConfig { spectral_radius: r, ..self@ }),
    {
        ESNBuilder { spectral_radius: r, ..self }
    }

    /// Sets the factor on the input weights.
    pub fn input_scaling(self, s: S) -> (r: Self)
        ensures
            r@ == (EsnConfig { input_scaling: s, ..self@ }),
    {
        ESNBuilder { input_scaling: s, ..self }
    }

    /// Sets the leaking rate.
    pub fn leaking_rate(self, a: S) -> (r: Self)
        ensures
            r@ == (EsnConfig { leaking_rate: a, ..self@ }),
    {
        ESNBuilder { leaking_rate: a, ..self }
    }

    /// Sets the seed of the stream that the weights are drawn from.
    pub fn seed(self, s: u64) -> (r: Self)
        ensures
            r@ == (EsnConfig { seed: s, ..self@ }),
    {
        ESNBuilder { seed: s, ..self }
    }

    /// Builds the network: a new reservoir with these settings, and an
    /// untrained readout with one output for its states. Fails with
    /// `Configuration` where the reservoir cannot be built.
    pub fn build(self) -> (r: Result<EchoStateNetwork<S>, EsnError>)
        ensures
            valid_shape(self@.input_dim as nat, self@.units as nat) ==> (r matches Ok(net)
                && net.wf() && net.reservoir@ == fresh_model(
                self@.input_dim as nat,
                self@.units as nat,
                self@.spectral_radius,
                self@.input_scaling,
                self@.leaking_rate,
                self@.seed,
            ) && net.readout@ == seq![
                S::uniform_stream_spec(
                    INITIAL_WEIGHTS_SEED,
                    (1 + self@.input_dim + self@.units) as nat,
                ),
            ] && net.readout.state_len() == 1 + self@.input_dim + self@.units),
            !valid_shape(self@.input_dim as nat, self@.units as nat) ==> (r matches Err(e) && e
                == EsnError::Configuration),
    {
        let reservoir = match DenseReservoir::new(
            self.input_dim,
            self.units,
            self.spectral_radius,
            self.input_scaling,
            self.leaking_rate,
            self.seed,
        ) {
            Ok(reservoir) => reservoir,
            Err(e) => {
                return Err(e);
            },
        };
        let readout = RidgeReadout::new(reservoir.dim());
        Ok(EchoStateNetwork { reservoir, readout })
    }
}

} // verus!
