//! The reservoir capability and the dense leaky-integrator reservoir.

use crate::algebra::{column_major, divide, dot, is_grid, mat_vec, scale, zeros};
use crate::error::EsnError;
use crate::matrix::{zero_vector, Matrix};
use crate::scalar::{RealScalar, Scalar};
use crate::types::{Input, State};
use vstd::prelude::*;

verus! {

/// A stateful unit that is driven one input vector at a time and shows a
/// state vector of fixed length.
pub trait Reservoir<S: Scalar>: Sized {
    /// Whether the value is consistent; every operation keeps it so.
    open spec fn wf(&self) -> bool {
        arbitrary()
    }

    /// The length of the input vectors that `step` accepts.
    open spec fn input_len(&self) -> nat {
        arbitrary()
    }

    /// The current state vector.
    open spec fn state_seq(&self) -> Seq<S> {
        arbitrary()
    }

    /// Sets every entry of the state to zero.
    fn reset(&mut self)
        requires
            old(self).wf(),
        ensures
            final(self).wf(),
            final(self).input_len() == old(self).input_len(),
            final(self).state_seq() == zeros::<S>(old(self).state_seq().len()),
    ;

    /// Advances the state by one input and returns the new state. An input
    /// of the wrong length is rejected and changes nothing.
    fn step(&mut self, input: &Input<S>) -> (r: Result<&State<S>, EsnError>)
        requires
            old(self).wf(),
        ensures
            final(self).wf(),
            final(self).input_len() == old(self).input_len(),
            final(self).state_seq().len() == old(self).state_seq().len(),
            input@.len() == old(self).input_len() ==> (r matches Ok(s)
                && s@ == final(self).state_seq()),
            input@.len() != old(self).input_len() ==> (r matches Err(e) && e
                == EsnError::DimensionMismatch && *final(self) == *old(self)),
    ;

    /// The length of the state vector, which never changes.
    fn dim(&self) -> (r: usize)
        requires
            self.wf(),
        ensures
            r == self.state_seq().len(),
    ;

    /// The current state vector.
    fn state(&self) -> (r: &State<S>)
        requires
            self.wf(),
        ensures
            r@ == self.state_seq(),
    ;
}

/// What a dense leaky-integrator reservoir holds: its two weight matrices by
/// rows, its leaking rate, the activations of its units, and the extended
/// state that a readout sees.
pub struct DenseModel<S> {
    /// The recurrent weights, `units` by `units`.
    pub w: Seq<Seq<S>>,
    /// The input weights, `units` by `input_dim`.
    pub w_in: Seq<Seq<S>>,
    /// The share of the new activation in each update.
    pub leaking_rate: S,
    /// The length of an input vector.
    pub input_dim: nat,
    /// The activations of the units.
    pub units: Seq<S>,
    /// The extended state: bias, last input, activations.
    pub extended: Seq<S>,
}

/// The largest absolute value among the first `n` entries of `values`, and
/// zero where `n` is zero.
pub open spec fn max_abs<S: RealScalar>(values: Seq<S>, n: nat) -> S
    decreases n,
{
    if n == 0 {
        S::zero_spec()
    } else {
        max_abs(values, (n - 1) as nat).max_spec(values[n - 1].abs_spec())
    }
}

/// The extended state for the given input and activations: the bias one,
/// then the input, then the activations.
pub open spec fn extend<S: Scalar>(input: Seq<S>, units: Seq<S>) -> Seq<S> {
    seq![S::one_spec()] + input + units
}

/// The activation of unit `i` after the reservoir `m` has taken `input`.
pub open spec fn next_unit<S: RealScalar>(m: DenseModel<S>, input: Seq<S>, i: int) -> S {
    let pre = dot(m.w[i], m.units).add_spec(dot(m.w_in[i], input));
    m.units[i].mul_spec(S::one_spec().sub_spec(m.leaking_rate)).add_spec(
        pre.tanh_spec().mul_spec(m.leaking_rate),
    )
}

impl<S: RealScalar> DenseModel<S> {
    /// The shapes agree: square recurrent weights, one row of input weights
    /// per unit, and an extended state of length `1 + input_dim + units`.
    pub open spec fn wf(self) -> bool {
        &&& self.input_dim > 0
        &&& self.units.len() > 0
        &&& is_grid(self.w, self.units.len(), self.units.len())
        &&& is_grid(self.w_in, self.units.len(), self.input_dim)
        &&& self.extended.len() == 1 + self.input_dim + self.units.len()
    }

    /// The reservoir after one leaky-integrator update with `input`.
    pub open spec fn step(self, input: Seq<S>) -> DenseModel<S> {
        let units = Seq::new(self.units.len(), |i: int| next_unit(self, input, i));
        DenseModel { units, extended: extend(input, units), ..self }
    }

    /// The reservoir with all activations and the extended state at zero.
    pub open spec fn reset(self) -> DenseModel<S> {
        DenseModel {
            units: zeros(self.units.len()),
            extended: zeros(self.extended.len()),
            ..self
        }
    }

    /// The reservoir after the first `n` of `inputs`, taken in order.
    pub open spec fn run(self, inputs: Seq<Seq<S>>, n: nat) -> DenseModel<S>
        decreases n,
    {
        if n == 0 {
            self
        } else {
            self.run(inputs, (n - 1) as nat).step(inputs[n - 1])
        }
    }

    /// The extended states that the reservoir shows while it takes `inputs`
    /// one after another: row `k` is the state after input `k`.
    pub open spec fn trajectory(self, inputs: Seq<Seq<S>>) -> Seq<Seq<S>> {
        Seq::new(inputs.len(), |k: int| self.run(inputs, (k + 1) as nat).extended)
    }
}

/// Whether a reservoir of this shape can be built: both sizes positive, and
/// the weights and the extended state small enough to be addressed.
pub open spec fn valid_shape(input_dim: nat, units: nat) -> bool {
    &&& input_dim > 0
    &&& units > 0
    &&& units * units + units * input_dim <= usize::MAX
    &&& 1 + input_dim + units <= usize::MAX
}

/// The recurrent weights of a new reservoir: the first `units * units` draws
/// taken column by column and, unless they are all zero, divided by their
/// largest absolute value and multiplied by `spectral_radius`.
pub open spec fn fresh_w<S: RealScalar>(draws: Seq<S>, units: nat, spectral_radius: S) -> Seq<
    Seq<S>,
> {
    let raw = column_major(draws, 0, units, units);
    let peak = max_abs(draws, units * units);
    if peak.is_zero_spec() {
        raw
    } else {
        scale(divide(raw, peak), spectral_radius)
    }
}

/// The reservoir that `DenseReservoir::new` builds from these parameters.
pub open spec fn fresh_model<S: RealScalar>(
    input_dim: nat,
    units: nat,
    spectral_radius: S,
    input_scaling: S,
    leaking_rate: S,
    seed: u64,
) -> DenseModel<S> {
    let draws = S::uniform_stream_spec(seed, units * units + units * input_dim);
    DenseModel {
        w: fresh_w(draws, units, spectral_radius),
        w_in: scale(column_major(draws, units * units, units, input_dim), input_scaling),
        leaking_rate,
        input_dim,
        units: zeros(units),
        extended: zeros(1 + input_dim + units),
    }
}

/// A reservoir with dense random weights and leaky-integrator units.
pub struct DenseReservoir<S: RealScalar> {
    w_in: Matrix<S>,
    w: Matrix<S>,
    leaking_rate: S,
    input_dim: usize,
    res_state: Vec<S>,
    ext_state: Vec<S>,
}

impl<S: RealScalar> View for DenseReservoir<S> {
    type V = DenseModel<S>;

    closed spec fn view(&self) -> DenseModel<S> {
        DenseModel {
            w: self.w@,
            w_in: self.w_in@,
            leaking_rate: self.leaking_rate,
            input_dim: self.input_dim as nat,
            units: self.res_state@,
            extended: self.ext_state@,
        }
    }
}

/// The largest absolute value among the first `n` entries of `values`.
fn largest_magnitude<S: RealScalar>(values: &Vec<S>, n: usize) -> (r: S)
    requires
        n <= values@.len(),
    ensures
        r == max_abs(values@, n as nat),
{
    let mut peak = S::zero();
    let mut k: usize = 0;
    while k < n
        invariant
            n <= values@.len(),
            k <= n,
            peak == max_abs(values@, k as nat),
        decreases n - k,
    {
        peak = peak.max(values[k].abs());
        k = k + 1;
    }
    peak
}

/// The extended state for the given input and activations.
fn extended_state<S: Scalar>(input: &Vec<S>, units: &Vec<S>) -> (r: Vec<S>)
    ensures
        r@ == extend(input@, units@),
{
    let mut out: Vec<S> = Vec::new();
    out.push(S::one());
    let mut j: usize = 0;
    while j < input.len()
        invariant
            j <= input@.len(),
            out@ == seq![S::one_spec()] + input@.take(j as int),
        decreases input@.len() - j,
    {
        out.push(input[j]);
        proof {
            assert(out@ =~= seq![S::one_spec()] + input@.take(j + 1));
        }
        j = j + 1;
    }
    assert(input@.take(input@.len() as int) =~= input@);
    let mut k: usize = 0;
    while k < units.len()
        invariant
            k <= units@.len(),
            out@ == seq![S::one_spec()] + input@ + units@.take(k as int),
        decreases units@.len() - k,
    {
        out.push(units[k]);
        proof {
            assert(out@ =~= seq![S::one_spec()] + input@ + units@.take(k + 1));
        }
        k = k + 1;
    }
    proof {
        assert(units@.take(units@.len() as int) =~= units@);
        assert(seq![S::one_spec()] + input@ + units@.take(0) =~= seq![S::one_spec()] + input@);
    }
    out
}

impl<S: RealScalar> DenseReservoir<S> {
    /// The stored matrices have the shapes that the model has.
    pub closed spec fn shapes_agree(&self) -> bool {
        &&& self.w.wf()
        &&& self.w_in.wf()
        &&& self.w.cols_spec() == self.res_state@.len()
        &&& self.w_in.cols_spec() == self.input_dim
    }

    /// A reservoir of `units` units for inputs of length `input_dim`, with
    /// weights drawn from the pseudorandom stream that `seed` selects.
    ///
    /// The draws for the recurrent weights are divided by their largest
    /// absolute value, unless that is zero, and multiplied by
    /// `spectral_radius`; those for the input weights are multiplied by
    /// `input_scaling`. Fails with `Configuration` where a size is zero or the
    /// reservoir would be too large to address.
    pub fn new(
        input_dim: usize,
        units: usize,
        spectral_radius: S,
        input_scaling: S,
        leaking_rate: S,
        seed: u64,
    ) -> (r: Result<Self, EsnError>)
        ensures
            valid_shape(input_dim as nat, units as nat) ==> (r matches Ok(res) && res.wf() && res@
                == fresh_model(
                input_dim as nat,
                units as nat,
                spectral_radius,
                input_scaling,
                leaking_rate,
                seed,
            )),
            !valid_shape(input_dim as nat, units as nat) ==> (r matches Err(e) && e
                == EsnError::Configuration),
    {
        if input_dim == 0 || units == 0 {
            return Err(EsnError::Configuration);
        }
        let square = match units.checked_mul(units) {
            Some(x) => x,
            None => {
                return Err(EsnError::Configuration);
            },
        };
        let wide = match units.checked_mul(input_dim) {
            Some(x) => x,
            None => {
                return Err(EsnError::Configuration);
            },
        };
        let total = match square.checked_add(wide) {
            Some(x) => x,
            None => {
                return Err(EsnError::Configuration);
            },
        };
        let dim = match input_dim.checked_add(units) {
            Some(x) => match x.checked_add(1) {
                Some(y) => y,
                None => {
                    return Err(EsnError::Configuration);
                },
            },
            None => {
                return Err(EsnError::Configuration);
            },
        };
        let draws = S::uniform_stream(seed, total);
        let raw = Matrix::from_column_major(&draws, 0, units, units);
        let peak = largest_magnitude(&draws, square);
        let w = if peak.is_zero() {
            raw
        } else {
            raw.divided(peak).scaled(spectral_radius)
        };
        let w_in = Matrix::from_column_major(&draws, square, units, input_dim).scaled(
            input_scaling,
        );
        let res = DenseReservoir {
            w_in,
            w,
            leaking_rate,
            input_dim,
            res_state: zero_vector(units),
            ext_state: zero_vector(dim),
        };
        Ok(res)
    }

    /// The length of the input vectors that `step` accepts.
    pub fn input_dim(&self) -> (r: usize)
        requires
            self.wf(),
        ensures
            r == self@.input_dim,
    {
        self.input_dim
    }

    /// The recurrent weight matrix.
    pub fn recurrent_weights(&self) -> (r: &Matrix<S>)
        requires
            self.wf(),
        ensures
            r.wf(),
            r@ == self@.w,
            r.cols_spec() == self@.units.len(),
    {
        &self.w
    }

    /// The input weight matrix.
    pub fn input_weights(&self) -> (r: &Matrix<S>)
        requires
            self.wf(),
        ensures
            r.wf(),
            r@ == self@.w_in,
            r.cols_spec() == self@.input_dim,
    {
        &self.w_in
    }
}

impl<S: RealScalar> Reservoir<S> for DenseReservoir<S> {
    open spec fn wf(&self) -> bool {
        self.shapes_agree() && self@.wf()
    }

    open spec fn input_len(&self) -> nat {
        self@.input_dim
    }

    open spec fn state_seq(&self) -> Seq<S> {
        self@.extended
    }

    fn reset(&mut self)
        ensures
            final(self)@ == old(self)@.reset(),
    {
        self.res_state = zero_vector(self.res_state.len());
        self.ext_state = zero_vector(self.ext_state.len());
    }

    fn step(&mut self, input: &Input<S>) -> (r: Result<&State<S>, EsnError>)
        ensures
            input@.len() == old(self)@.input_dim ==> final(self)@ == old(self)@.step(input@),
    {
        if input.len() != self.input_dim {
            return Err(EsnError::DimensionMismatch);
        }
        let recurrent = self.w.mul_vec(&self.res_state);
        let driven = self.w_in.mul_vec(input);
        let keep = S::one().sub(self.leaking_rate);
        let n = self.res_state.len();
        let ghost before = self@;
        let mut next: Vec<S> = Vec::new();
        let mut i: usize = 0;
        while i < n
            invariant
                self@ == before,
                self.shapes_agree(),
                before.wf(),
                n == before.units.len(),
                input@.len() == before.input_dim,
                recurrent@ == mat_vec(before.w, before.units),
                driven@ == mat_vec(before.w_in, input@),
                keep == S::one_spec().sub_spec(before.leaking_rate),
                i <= n,
                next@.len() == i,
                forall|k: int| 0 <= k < i ==> next@[k] == next_unit(before, input@, k),
            decreases n - i,
        {
            let pre = recurrent[i].add(driven[i]);
            let kept = self.res_state[i].mul(keep);
            next.push(kept.add(pre.tanh().mul(self.leaking_rate)));
            i = i + 1;
        }
        proof {
            assert(next@ =~= Seq::new(before.units.len(), |k: int| next_unit(before, input@, k)));
        }
        self.ext_state = extended_state(input, &next);
        self.res_state = next;
        Ok(&self.ext_state)
    }

    fn dim(&self) -> (r: usize) {
        self.ext_state.len()
    }

    fn state(&self) -> (r: &State<S>) {
        &self.ext_state
    }
}

/// Driving a reservoir changes neither its weights nor its leaking rate nor
/// the lengths of its vectors, as long as every input has the length that
/// the reservoir takes.
pub proof fn lemma_run_keeps_shape<S: RealScalar>(m: DenseModel<S>, inputs: Seq<Seq<S>>, n: nat)
    requires
        m.wf(),
        n <= inputs.len(),
        is_grid(inputs, inputs.len(), m.input_dim),
    ensures
        m.run(inputs, n).wf(),
        m.run(inputs, n).w == m.w,
        m.run(inputs, n).w_in == m.w_in,
        m.run(inputs, n).leaking_rate == m.leaking_rate,
        m.run(inputs, n).input_dim == m.input_dim,
        m.run(inputs, n).units.len() == m.units.len(),
        m.run(inputs, n).extended.len() == m.extended.len(),
    decreases n,
{
    if n > 0 {
        lemma_run_keeps_shape(m, inputs, (n - 1) as nat);
        assert(inputs[n - 1].len() == m.input_dim);
    }
}

/// Reservoirs built from the same parameters show the same states for the
/// same inputs: what a reservoir holds after any number of steps is
/// determined by the parameters it was built from and the inputs it was given.
pub proof fn lemma_same_parameters_same_states<S: RealScalar>(
    a: DenseReservoir<S>,
    b: DenseReservoir<S>,
    input_dim: nat,
    units: nat,
    spectral_radius: S,
    input_scaling: S,
    leaking_rate: S,
    seed: u64,
    inputs: Seq<Seq<S>>,
)
    requires
        a@ == fresh_model(input_dim, units, spectral_radius, input_scaling, leaking_rate, seed),
        b@ == fresh_model(input_dim, units, spectral_radius, input_scaling, leaking_rate, seed),
    ensures
        a@.trajectory(inputs) == b@.trajectory(inputs),
        forall|n: nat| a@.run(inputs, n) == b@.run(inputs, n),
{
}

/// Resetting a reservoir that has been driven by any inputs gives back the
/// reservoir as it was when new, so the next step gives the state that the
/// new reservoir would give for the same input.
pub proof fn lemma_reset_restores_new<S: RealScalar>(
    input_dim: nat,
    units: nat,
    spectral_radius: S,
    input_scaling: S,
    leaking_rate: S,
    seed: u64,
    inputs: Seq<Seq<S>>,
    x: Seq<S>,
)
    requires
        valid_shape(input_dim, units),
        is_grid(inputs, inputs.len(), input_dim),
    ensures
        ({
            let new = fresh_model(
                input_dim,
                units,
                spectral_radius,
                input_scaling,
                leaking_rate,
                seed,
            );
            &&& new.run(inputs, inputs.len()).reset() == new
            &&& new.run(inputs, inputs.len()).reset().step(x) == new.step(x)
        }),
{
    let new = fresh_model(input_dim, units, spectral_radius, input_scaling, leaking_rate, seed);
    lemma_new_is_wf(input_dim, units, spectral_radius, input_scaling, leaking_rate, seed);
    lemma_run_keeps_shape(new, inputs, inputs.len());
    let used = new.run(inputs, inputs.len());
    assert(used.reset().units =~= new.units);
    assert(used.reset().extended =~= new.extended);
}

/// The model of a new reservoir of a valid shape is well formed.
pub proof fn lemma_new_is_wf<S: RealScalar>(
    input_dim: nat,
    units: nat,
    spectral_radius: S,
    input_scaling: S,
    leaking_rate: S,
    seed: u64,
)
    requires
        valid_shape(input_dim, units),
    ensures
        fresh_model(input_dim, units, spectral_radius, input_scaling, leaking_rate, seed).wf(),
{
}

} // verus!
