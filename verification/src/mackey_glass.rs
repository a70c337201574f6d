//! The Mackey-Glass series, a chaotic series for exercising a network.

use crate::scalar::{RealScalar, Scalar};
use std::collections::VecDeque;
use vstd::prelude::*;

verus! {

/// The parameters of a Mackey-Glass series: the delay-differential equation
/// `x'(t) = -b x(t) + a x(t - tau) / (1 + x(t - tau)^n)`, integrated with the
/// step `h`.
pub struct MackeyGlassParams<S> {
    /// The weight of the delayed feedback.
    pub a: S,
    /// The rate of decay.
    pub b: S,
    /// The exponent of the feedback.
    pub n: u32,
    /// The delay.
    pub tau: usize,
    /// The value at which the series starts.
    pub x0: S,
    /// The step of the integration.
    pub h: S,
    /// The number of values that `generate` gives.
    pub steps: usize,
    /// The seed of the stream that a random history is drawn from.
    pub seed: Option<u64>,
    /// The values before the start, oldest first; drawn at random where
    /// there is none.
    pub history: Option<Vec<S>>,
}

/// The right-hand side of the equation at the value `x` and the delayed
/// value `x_tau`.
pub open spec fn slope<S: RealScalar>(x: S, x_tau: S, a: S, b: S, n: u32) -> S {
    b.neg_spec().mul_spec(x).add_spec(
        a.mul_spec(x_tau).div_spec(S::one_spec().add_spec(x_tau.powi_spec(n as i32))),
    )
}

/// The value one step of length `h` after `x`, by the classical
/// Runge-Kutta method of order four with the delayed value held at `x_tau`.
pub open spec fn runge_kutta<S: RealScalar>(x: S, x_tau: S, a: S, b: S, n: u32, h: S) -> S {
    let two = S::from_usize_spec(2);
    let half = S::one_spec().div_spec(two);
    let k1 = h.mul_spec(slope(x, x_tau, a, b, n));
    let k2 = h.mul_spec(slope(x.add_spec(half.mul_spec(k1)), x_tau, a, b, n));
    let k3 = h.mul_spec(slope(x.add_spec(half.mul_spec(k2)), x_tau, a, b, n));
    let k4 = h.mul_spec(slope(x.add_spec(k3), x_tau, a, b, n));
    x.add_spec(
        k1.add_spec(two.mul_spec(k2)).add_spec(two.mul_spec(k3)).add_spec(k4).div_spec(
            S::from_usize_spec(6),
        ),
    )
}

/// The number of past values that the delay `tau` spans at the step `h`:
/// `tau / h`, rounded up.
pub open spec fn history_len<S: RealScalar>(tau: usize, h: S) -> usize {
    S::from_usize_spec(tau).div_spec(h).ceil_to_usize_spec()
}

/// The random history of length `len` around `x0`: each value is `x0` plus a
/// tenth of a draw of the unit stream that `seed` selects.
pub open spec fn random_history<S: RealScalar>(x0: S, seed: u64, len: nat) -> Seq<S> {
    Seq::new(
        len,
        |i: int|
            x0.add_spec(
                S::unit_stream_spec(seed, len)[i].mul_spec(
                    S::one_spec().div_spec(S::from_usize_spec(10)),
                ),
            ),
    )
}

/// What a generator holds: the coefficients, the past values that the delay
/// spans, oldest first, and the current value.
pub struct MackeyGlassModel<S> {
    /// The weight of the delayed feedback.
    pub a: S,
    /// The rate of decay.
    pub b: S,
    /// The exponent of the feedback.
    pub n: u32,
    /// The step of the integration.
    pub h: S,
    /// The number of values that `generate` gives.
    pub steps: usize,
    /// The past values, oldest first.
    pub history: Seq<S>,
    /// The current value.
    pub current: S,
}

impl<S: RealScalar> MackeyGlassModel<S> {
    /// The value that the next step gives.
    pub open spec fn next_value(self) -> S {
        runge_kutta(self.current, self.history[0], self.a, self.b, self.n, self.h)
    }

    /// The generator after one step: the oldest past value is dropped and
    /// the new value is both the newest past value and the current one.
    pub open spec fn step(self) -> MackeyGlassModel<S> {
        MackeyGlassModel {
            history: self.history.subrange(1, self.history.len() as int).push(self.next_value()),
            current: self.next_value(),
            ..self
        }
    }

    /// The generator after `k` steps.
    pub open spec fn run(self, k: nat) -> MackeyGlassModel<S>
        decreases k,
    {
        if k == 0 {
            self
        } else {
            self.run((k - 1) as nat).step()
        }
    }

    /// The first `k` values of the series from here on.
    pub open spec fn series(self, k: nat) -> Seq<S> {
        Seq::new(k, |i: int| self.run((i + 1) as nat).current)
    }
}

/// A generator of a Mackey-Glass series.
pub struct MackeyGlass<S: RealScalar> {
    params: MackeyGlassParams<S>,
    history: VecDeque<S>,
    current_x: S,
}

impl<S: RealScalar> View for MackeyGlass<S> {
    type V = MackeyGlassModel<S>;

    closed spec fn view(&self) -> MackeyGlassModel<S> {
        MackeyGlassModel {
            a: self.params.a,
            b: self.params.b,
            n: self.params.n,
            h: self.params.h,
            steps: self.params.steps,
            history: self.history@,
            current: self.current_x,
        }
    }
}

/// The value one step of length `h` after `x`.
fn advance<S: RealScalar>(x: S, x_tau: S, a: S, b: S, n: u32, h: S) -> (r: S)
    ensures
        r == runge_kutta(x, x_tau, a, b, n, h),
{
    let two = S::from_usize(2);
    let half = S::one().div(two);
    let k1 = h.mul(rate(x, x_tau, a, b, n));
    let k2 = h.mul(rate(x.add(half.mul(k1)), x_tau, a, b, n));
    let k3 = h.mul(rate(x.add(half.mul(k2)), x_tau, a, b, n));
    let k4 = h.mul(rate(x.add(k3), x_tau, a, b, n));
    x.add(k1.add(two.mul(k2)).add(two.mul(k3)).add(k4).div(S::from_usize(6)))
}

/// The right-hand side of the equation.
fn rate<S: RealScalar>(x: S, x_tau: S, a: S, b: S, n: u32) -> (r: S)
    ensures
        r == slope(x, x_tau, a, b, n),
{
    let exponent = #[verifier::truncate]
    (n as i32);
    b.neg().mul(x).add(a.mul(x_tau).div(S::one().add(x_tau.powi(exponent))))
}

impl<S: RealScalar> MackeyGlassParams<S> {
    /// The number of past values that the delay spans.
    pub fn history_len(&self) -> (r: usize)
        ensures
            r == history_len(self.tau, self.h),
    {
        S::from_usize(self.tau).div(self.h).ceil_to_usize()
    }
}

impl<S: RealScalar> MackeyGlass<S> {
    /// What a new generator holds: the coefficients of `params`, the start
    /// value as the current one, and as past values the last ones of the given
    /// history, as many as the delay spans, or else a random history.
    pub open spec fn initial(params: MackeyGlassParams<S>, fallback_seed: u64) -> MackeyGlassModel<
        S,
    > {
        let len = history_len(params.tau, params.h);
        MackeyGlassModel {
            a: params.a,
            b: params.b,
            n: params.n,
            h: params.h,
            steps: params.steps,
            history: match params.history {
                Some(past) => past@.subrange(past@.len() - len, past@.len() as int),
                None => random_history(
                    params.x0,
                    match params.seed {
                        Some(seed) => seed,
                        None => fallback_seed,
                    },
                    len as nat,
                ),
            },
            current: params.x0,
        }
    }

    /// A generator at the start of its series. Its past values are the last
    /// ones of the given history, which has at least as many as the delay
    /// spans; where none is given they are drawn from the stream of the
    /// parameters' seed, or of `fallback_seed` where the parameters name no
    /// seed.
    pub fn new(params: MackeyGlassParams<S>, fallback_seed: u64) -> (r: Self)
        requires
            params.history matches Some(past) ==> past@.len() >= history_len(params.tau, params.h),
        ensures
            r@ == Self::initial(params, fallback_seed),
    {
        let len = params.history_len();
        let mut history: VecDeque<S> = VecDeque::with_capacity(len);
        match &params.history {
            Some(past) => {
                let total = past.len();
                let skip = total - len;
                let mut i: usize = 0;
                while i < len
                    invariant
                        total == past@.len(),
                        skip + len == total,
                        i <= len,
                        history@ == past@.subrange(skip as int, skip + i),
                    decreases len - i,
                {
                    history.push_back(past[skip + i]);
                    proof {
                        assert(history@ =~= past@.subrange(skip as int, skip + i + 1));
                    }
                    i = i + 1;
                }
            },
            None => {
                let seed = match params.seed {
                    Some(seed) => seed,
                    None => fallback_seed,
                };
                let noise = S::unit_stream(seed, len);
                let tenth = S::one().div(S::from_usize(10));
                let mut i: usize = 0;
                while i < len
                    invariant
                        noise@ == S::unit_stream_spec(seed, len as nat),
                        noise@.len() == len,
                        tenth == S::one_spec().div_spec(S::from_usize_spec(10)),
                        i <= len,
                        history@.len() == i,
                        forall|k: int|
                            0 <= k < i ==> history@[k] == random_history(
                                params.x0,
                                seed,
                                len as nat,
                            )[k],
                    decreases len - i,
                {
                    history.push_back(params.x0.add(noise[i].mul(tenth)));
                    i = i + 1;
                }
                proof {
                    assert(history@ =~= random_history(params.x0, seed, len as nat));
                }
            },
        }
        let current_x = params.x0;
        MackeyGlass { params, history, current_x }
    }

    /// A generator at the start of its series, as `new` builds it, or `None`
    /// where a history is given that has fewer values than the delay spans.
    pub fn try_new(params: MackeyGlassParams<S>, fallback_seed: u64) -> (r: Option<Self>)
        ensures
            match params.history {
                Some(past) if past@.len() < history_len(params.tau, params.h) => r is None,
                _ => r matches Some(series) && series@ == Self::initial(params, fallback_seed),
            },
    {
        let enough = match &params.history {
            Some(past) => past.len() >= params.history_len(),
            None => true,
        };
        if enough {
            Some(MackeyGlass::new(params, fallback_seed))
        } else {
            None
        }
    }

    /// The number of past values that the generator holds.
    pub fn history_len(&self) -> (r: usize)
        ensures
            r == self@.history.len(),
    {
        self.history.len()
    }

    /// The number of values that `generate` gives.
    pub fn steps(&self) -> (r: usize)
        ensures
            r == self@.steps,
    {
        self.params.steps
    }

    /// The current value of the series.
    pub fn current(&self) -> (r: S)
        ensures
            r == self@.current,
    {
        self.current_x
    }

    /// Advances the series by one step and returns the new value. The
    /// generator holds at least one past value.
    pub fn step(&mut self) -> (r: S)
        requires
            old(self)@.history.len() > 0,
        ensures
            final(self)@ == old(self)@.step(),
            r == old(self)@.next_value(),
    {
        match self.history.pop_front() {
            Some(x_tau) => {
                let x = advance(
                    self.current_x,
                    x_tau,
                    self.params.a,
                    self.params.b,
                    self.params.n,
                    self.params.h,
                );
                self.history.push_back(x);
                self.current_x = x;
                x
            },
            None => self.current_x,
        }
    }

    /// The next `steps` values of the series, where `steps` is the number
    /// that the parameters give. The generator holds at least one past value
    /// unless that number is zero.
    pub fn generate(&mut self) -> (r: Vec<S>)
        requires
            old(self)@.steps > 0 ==> old(self)@.history.len() > 0,
        ensures
            final(self)@ == old(self)@.run(old(self)@.steps as nat),
            r@ == old(self)@.series(old(self)@.steps as nat),
    {
        let ghost start = self@;
        let count = self.params.steps;
        let mut out: Vec<S> = Vec::new();
        let mut i: usize = 0;
        while i < count
            invariant
                count == start.steps,
                count > 0 ==> start.history.len() > 0,
                i <= count,
                self@ == start.run(i as nat),
                self@.history.len() == start.history.len(),
                out@.len() == i,
                forall|k: int| 0 <= k < i ==> out@[k] == start.run((k + 1) as nat).current,
            decreases count - i,
        {
            let x = self.step();
            out.push(x);
            i = i + 1;
        }
        proof {
            assert(out@ =~= start.series(count as nat));
        }
        out
    }
}

} // verus!
