use echo_state::matrix::{copy_vector, dot_product, rows_have_len, zero_vector};
use echo_state::trainer::{collect_states, regularized_gram, solve_ridge, weights_from_inverse};
use echo_state::{
    mse, nrmse, rmse, rsquare, DenseReservoir, ESNBuilder, EchoStateNetwork, EsnError,
    MackeyGlass, MackeyGlassParams, Matrix, Readout, RealScalar, Reservoir, RidgeParams,
    RidgeReadout, RidgeTrainer, Scalar, SlidingWindow, Trainer,
};
use nalgebra::DMatrix;
use rand::distributions::Uniform;
use rand::rngs::StdRng;
use rand::{Rng, SeedableRng};

/// Double precision as the number type of the network.
#[derive(Clone, Copy, Debug, PartialEq, PartialOrd)]
struct R(f64);

impl Scalar for R {
    fn zero() -> Self {
        R(0.0)
    }
    fn one() -> Self {
        R(1.0)
    }
    fn from_usize(n: usize) -> Self {
        R(n as f64)
    }
    fn add(self, rhs: Self) -> Self {
        R(self.0 + rhs.0)
    }
    fn sub(self, rhs: Self) -> Self {
        R(self.0 - rhs.0)
    }
    fn mul(self, rhs: Self) -> Self {
        R(self.0 * rhs.0)
    }
    fn div(self, rhs: Self) -> Self {
        R(self.0 / rhs.0)
    }
    fn neg(self) -> Self {
        R(-self.0)
    }
    fn is_zero(self) -> bool {
        self.0 == 0.0
    }
    fn ge(self, rhs: Self) -> bool {
        self.0 >= rhs.0
    }
}

impl RealScalar for R {
    fn abs(self) -> Self {
        R(self.0.abs())
    }
    fn max(self, rhs: Self) -> Self {
        R(self.0.max(rhs.0))
    }
    fn min(self, rhs: Self) -> Self {
        R(self.0.min(rhs.0))
    }
    fn max_value() -> Self {
        R(f64::MAX)
    }
    fn min_value() -> Self {
        R(f64::MIN)
    }
    fn tanh(self) -> Self {
        R(self.0.tanh())
    }
    fn sqrt(self) -> Self {
        R(self.0.sqrt())
    }
    fn powi(self, n: i32) -> Self {
        R(self.0.powi(n))
    }
    fn ceil_to_usize(self) -> usize {
        self.0.ceil() as usize
    }
    fn uniform_stream(seed: u64, count: usize) -> Vec<Self> {
        let mut rng = StdRng::seed_from_u64(seed);
        let dist = Uniform::new(-0.5f64, 0.5f64);
        (0..count).map(|_| R(rng.sample(&dist))).collect()
    }
    fn unit_stream(seed: u64, count: usize) -> Vec<Self> {
        let mut rng = StdRng::seed_from_u64(seed);
        (0..count).map(|_| R(rng.gen::<f64>())).collect()
    }
}

/// Double precision whose random streams are all zero.
#[derive(Clone, Copy, Debug, PartialEq)]
struct Flat(R);

impl Scalar for Flat {
    fn zero() -> Self {
        Flat(R::zero())
    }
    fn one() -> Self {
        Flat(R::one())
    }
    fn from_usize(n: usize) -> Self {
        Flat(R::from_usize(n))
    }
    fn add(self, rhs: Self) -> Self {
        Flat(self.0.add(rhs.0))
    }
    fn sub(self, rhs: Self) -> Self {
        Flat(self.0.sub(rhs.0))
    }
    fn mul(self, rhs: Self) -> Self {
        Flat(self.0.mul(rhs.0))
    }
    fn div(self, rhs: Self) -> Self {
        Flat(self.0.div(rhs.0))
    }
    fn neg(self) -> Self {
        Flat(self.0.neg())
    }
    fn is_zero(self) -> bool {
        self.0.is_zero()
    }
    fn ge(self, rhs: Self) -> bool {
        self.0.ge(rhs.0)
    }
}

impl RealScalar for Flat {
    fn abs(self) -> Self {
        Flat(self.0.abs())
    }
    fn max(self, rhs: Self) -> Self {
        Flat(self.0.max(rhs.0))
    }
    fn min(self, rhs: Self) -> Self {
        Flat(self.0.min(rhs.0))
    }
    fn max_value() -> Self {
        Flat(R::max_value())
    }
    fn min_value() -> Self {
        Flat(R::min_value())
    }
    fn tanh(self) -> Self {
        Flat(self.0.tanh())
    }
    fn sqrt(self) -> Self {
        Flat(self.0.sqrt())
    }
    fn powi(self, n: i32) -> Self {
        Flat(self.0.powi(n))
    }
    fn ceil_to_usize(self) -> usize {
        self.0.ceil_to_usize()
    }
    fn uniform_stream(_seed: u64, count: usize) -> Vec<Self> {
        vec![Flat(R(0.0)); count]
    }
    fn unit_stream(_seed: u64, count: usize) -> Vec<Self> {
        vec![Flat(R(0.0)); count]
    }
}

fn reals(values: &[f64]) -> Vec<R> {
    values.iter().map(|&v| R(v)).collect()
}

fn plain(values: &[R]) -> Vec<f64> {
    values.iter().map(|v| v.0).collect()
}

fn matrix(rows: &[&[f64]]) -> Matrix<R> {
    let cols = if rows.is_empty() { 0 } else { rows[0].len() };
    Matrix::from_rows(rows.iter().map(|r| reals(r)).collect(), cols).unwrap()
}

fn entries(m: &Matrix<R>) -> Vec<Vec<f64>> {
    (0..m.nrows()).map(|i| plain(m.row(i))).collect()
}

fn close(a: f64, b: f64, tol: f64) -> bool {
    (a - b).abs() <= tol
}

fn reservoir(input_dim: usize, units: usize, radius: f64, scaling: f64, leak: f64, seed: u64) -> DenseReservoir<R> {
    DenseReservoir::new(input_dim, units, R(radius), R(scaling), R(leak), seed).unwrap()
}

fn sine_task() -> (Vec<Vec<R>>, Vec<Vec<R>>) {
    let series: Vec<f64> = (0..201).map(|t| (0.05 * t as f64).sin()).collect();
    let inputs = (0..200).map(|t| vec![R(series[t])]).collect();
    let targets = (0..200).map(|t| vec![R(series[t + 1])]).collect();
    (inputs, targets)
}

fn weight_norm(readout: &RidgeReadout<R>) -> f64 {
    entries(readout.weights()).iter().flatten().map(|w| w * w).sum::<f64>().sqrt()
}

// ---- vectors and matrices ----

#[test]
fn dot_product_accumulates_from_the_left() {
    let a = reals(&[1.0, 2.0, 3.0]);
    let b = reals(&[4.0, -5.0, 0.5]);
    assert_eq!(dot_product(&a, &b), R(((0.0 + 1.0 * 4.0) + 2.0 * -5.0) + 3.0 * 0.5));
    assert_eq!(dot_product(&a, &b), R(-4.5));
    assert_eq!(dot_product(&reals(&[]), &reals(&[])), R(0.0));
}

#[test]
fn zero_vector_and_copy() {
    assert_eq!(zero_vector::<R>(3), reals(&[0.0, 0.0, 0.0]));
    assert_eq!(zero_vector::<R>(0), reals(&[]));
    let v = reals(&[1.5, -2.0]);
    assert_eq!(copy_vector(&v), v);
}

#[test]
fn from_rows_checks_every_row() {
    let ok = Matrix::from_rows(vec![reals(&[1.0, 2.0]), reals(&[3.0, 4.0])], 2).unwrap();
    assert_eq!(ok.nrows(), 2);
    assert_eq!(ok.ncols(), 2);
    assert_eq!(ok.get(1, 0), R(3.0));
    assert_eq!(ok.row(0), &reals(&[1.0, 2.0]));
    let ragged = Matrix::from_rows(vec![reals(&[1.0, 2.0]), reals(&[3.0])], 2);
    assert_eq!(ragged.err(), Some(EsnError::DimensionMismatch));
    let wrong = Matrix::from_rows(vec![reals(&[1.0, 2.0])], 3);
    assert_eq!(wrong.err(), Some(EsnError::DimensionMismatch));
    let empty = Matrix::<R>::from_rows(Vec::new(), 4).unwrap();
    assert_eq!(empty.nrows(), 0);
    assert_eq!(empty.ncols(), 4);
}

#[test]
fn from_slice_copies_rows() {
    let rows = vec![reals(&[1.0, 2.0]), reals(&[3.0, 4.0])];
    let m = Matrix::from_slice(&rows, 2).unwrap();
    assert_eq!(entries(&m), vec![vec![1.0, 2.0], vec![3.0, 4.0]]);
    assert_eq!(Matrix::from_slice(&rows, 1).err(), Some(EsnError::DimensionMismatch));
    assert!(rows_have_len(&rows, 2));
    assert!(!rows_have_len(&rows, 3));
    assert!(rows_have_len::<R>(&[], 3));
}

#[test]
fn from_column_major_reads_columns() {
    let data = reals(&[9.0, 1.0, 2.0, 3.0, 4.0, 5.0, 6.0]);
    let m = Matrix::from_column_major(&data, 1, 2, 3);
    assert_eq!(entries(&m), vec![vec![1.0, 3.0, 5.0], vec![2.0, 4.0, 6.0]]);
    assert_eq!(m.column(1), reals(&[3.0, 4.0]));
}

#[test]
fn identity_matrix() {
    assert_eq!(
        entries(&Matrix::<R>::identity(3)),
        vec![vec![1.0, 0.0, 0.0], vec![0.0, 1.0, 0.0], vec![0.0, 0.0, 1.0]]
    );
    assert_eq!(Matrix::<R>::identity(0).nrows(), 0);
}

#[test]
fn matrix_times_vector() {
    let m = matrix(&[&[1.0, 2.0, 3.0], &[0.0, -1.0, 0.5]]);
    assert_eq!(m.mul_vec(&reals(&[1.0, 1.0, 2.0])), reals(&[9.0, 0.0]));
}

#[test]
fn matrix_products() {
    let a = matrix(&[&[1.0, 2.0], &[3.0, 4.0], &[5.0, 6.0]]);
    let b = matrix(&[&[1.0, 0.0], &[0.0, 1.0], &[2.0, -1.0]]);
    // transpose(a) * b
    assert_eq!(entries(&a.transpose_mul(&b)), vec![vec![11.0, -2.0], vec![14.0, -2.0]]);
    let c = matrix(&[&[1.0, 2.0], &[0.0, 1.0]]);
    assert_eq!(
        entries(&a.mul(&c)),
        vec![vec![1.0, 4.0], vec![3.0, 10.0], vec![5.0, 16.0]]
    );
}

#[test]
fn diagonal_and_scaling() {
    let a = matrix(&[&[1.0, 2.0], &[3.0, 4.0]]);
    assert_eq!(entries(&a.add_diagonal(R(0.5))), vec![vec![1.5, 2.0], vec![3.0, 4.5]]);
    assert_eq!(entries(&a.scaled(R(2.0))), vec![vec![2.0, 4.0], vec![6.0, 8.0]]);
    assert_eq!(entries(&a.divided(R(2.0))), vec![vec![0.5, 1.0], vec![1.5, 2.0]]);
}

#[test]
fn inverse_of_a_diagonal_matrix() {
    let a = matrix(&[&[2.0, 0.0], &[0.0, 4.0]]);
    let inv = a.try_inverse().unwrap();
    assert_eq!(entries(&inv), vec![vec![0.5, 0.0], vec![0.0, 0.25]]);
}

#[test]
fn inverse_by_elimination() {
    let a = matrix(&[&[4.0, 3.0], &[6.0, 3.0]]);
    let inv = entries(&a.try_inverse().unwrap());
    assert_eq!(inv[0], vec![-0.5, 0.5]);
    assert_eq!(inv[1][0], 1.0);
    assert!(close(inv[1][1], -2.0 / 3.0, 1e-15));
}

#[test]
fn inverse_times_matrix_is_identity() {
    let a = matrix(&[&[4.0, 1.0, 0.5], &[1.0, 3.0, 0.25], &[0.5, 0.25, 2.0]]);
    let inv = a.try_inverse().unwrap();
    let product = entries(&a.mul(&inv));
    for i in 0..3 {
        for j in 0..3 {
            let want = if i == j { 1.0 } else { 0.0 };
            assert!(close(product[i][j], want, 1e-12));
        }
    }
}

#[test]
fn inverse_agrees_with_lu_inverse() {
    let rows: Vec<Vec<f64>> = vec![
        vec![5.0, 1.0, 0.5, 0.1],
        vec![1.0, 4.0, 0.3, 0.2],
        vec![0.5, 0.3, 3.0, 0.4],
        vec![0.1, 0.2, 0.4, 2.0],
    ];
    let a = Matrix::from_rows(rows.iter().map(|r| reals(r)).collect(), 4).unwrap();
    let ours = entries(&a.try_inverse().unwrap());
    let theirs = DMatrix::from_fn(4, 4, |i, j| rows[i][j]).try_inverse().unwrap();
    for i in 0..4 {
        for j in 0..4 {
            assert!(close(ours[i][j], theirs[(i, j)], 1e-12));
        }
    }
}

#[test]
fn zero_pivot_has_no_inverse() {
    assert!(matrix(&[&[1.0, 2.0], &[2.0, 4.0]]).try_inverse().is_none());
    assert!(matrix(&[&[0.0, 1.0], &[1.0, 0.0]]).try_inverse().is_none());
    assert!(matrix(&[&[0.0]]).try_inverse().is_none());
    assert_eq!(Matrix::<R>::identity(0).try_inverse().unwrap().nrows(), 0);
}

// ---- the reservoir ----

#[test]
fn new_rejects_empty_shapes() {
    let no_units = DenseReservoir::new(1, 0, R(1.0), R(1.0), R(1.0), 0);
    assert_eq!(no_units.err(), Some(EsnError::Configuration));
    let no_inputs = DenseReservoir::new(0, 5, R(1.0), R(1.0), R(1.0), 0);
    assert_eq!(no_inputs.err(), Some(EsnError::Configuration));
    let too_large = DenseReservoir::new(1, usize::MAX, R(1.0), R(1.0), R(1.0), 0);
    assert_eq!(too_large.err(), Some(EsnError::Configuration));
}

#[test]
fn new_reservoir_is_at_rest() {
    let r = reservoir(2, 5, 0.9, 1.0, 1.0, 7);
    assert_eq!(r.dim(), 8);
    assert_eq!(r.input_dim(), 2);
    assert_eq!(r.state(), &reals(&[0.0; 8]));
    assert_eq!(r.recurrent_weights().nrows(), 5);
    assert_eq!(r.recurrent_weights().ncols(), 5);
    assert_eq!(r.input_weights().nrows(), 5);
    assert_eq!(r.input_weights().ncols(), 2);
}

#[test]
fn weights_follow_the_seeded_stream() {
    let units = 4;
    let input_dim = 3;
    let r = reservoir(input_dim, units, 0.9, 0.5, 1.0, 11);
    let mut rng = StdRng::seed_from_u64(11);
    let dist = Uniform::new(-0.5f64, 0.5f64);
    let mut w = DMatrix::from_fn(units, units, |_, _| rng.sample(&dist));
    let max_abs = w.iter().fold(0.0f64, |m, &v| m.max(v.abs()));
    w /= max_abs;
    w *= 0.9;
    let w_in = DMatrix::from_fn(units, input_dim, |_, _| rng.sample(&dist)) * 0.5;
    for i in 0..units {
        for j in 0..units {
            assert_eq!(r.recurrent_weights().get(i, j).0, w[(i, j)]);
        }
        for j in 0..input_dim {
            assert_eq!(r.input_weights().get(i, j).0, w_in[(i, j)]);
        }
    }
}

#[test]
fn largest_recurrent_weight_is_the_spectral_radius() {
    for &(radius, seed) in &[(0.9, 0u64), (1.25, 1), (0.1, 42)] {
        let r = reservoir(1, 30, radius, 1.0, 1.0, seed);
        let largest = entries(r.recurrent_weights())
            .iter()
            .flatten()
            .fold(0.0f64, |m, v| m.max(v.abs()));
        assert!(close(largest, radius, 1e-12));
    }
}

#[test]
fn zero_weights_are_not_rescaled() {
    let mut r =
        DenseReservoir::<Flat>::new(1, 3, Flat(R(0.9)), Flat(R(1.0)), Flat(R(1.0)), 0).unwrap();
    for i in 0..3 {
        for j in 0..3 {
            assert_eq!(r.recurrent_weights().get(i, j), Flat(R(0.0)));
        }
        assert_eq!(r.input_weights().get(i, 0), Flat(R(0.0)));
    }
    let state = r.step(&vec![Flat(R(0.5))]).unwrap().clone();
    let want: Vec<Flat> = [1.0, 0.5, 0.0, 0.0, 0.0].iter().map(|&v| Flat(R(v))).collect();
    assert_eq!(state, want);
}

#[test]
fn input_weights_are_scaled() {
    let plain_weights = entries(reservoir(2, 6, 0.9, 1.0, 1.0, 3).input_weights());
    let scaled = entries(reservoir(2, 6, 0.9, 3.0, 1.0, 3).input_weights());
    for i in 0..6 {
        for j in 0..2 {
            assert!(plain_weights[i][j] >= -0.5 && plain_weights[i][j] < 0.5);
            assert_eq!(scaled[i][j], plain_weights[i][j] * 3.0);
        }
    }
}

#[test]
fn step_is_a_leaky_update() {
    let units = 3;
    let leak = 0.3;
    let mut r = reservoir(2, units, 0.8, 1.0, leak, 5);
    let w = entries(r.recurrent_weights());
    let w_in = entries(r.input_weights());
    let mut state = vec![0.0f64; units];
    for input in [[0.25, -1.0], [0.5, 0.75], [-0.125, 0.0]] {
        let mut next = vec![0.0f64; units];
        for i in 0..units {
            let mut rec = 0.0;
            for k in 0..units {
                rec = rec + w[i][k] * state[k];
            }
            let mut drv = 0.0;
            for k in 0..2 {
                drv = drv + w_in[i][k] * input[k];
            }
            next[i] = state[i] * (1.0 - leak) + (rec + drv).tanh() * leak;
        }
        state = next;
        let shown = plain(r.step(&reals(&input)).unwrap());
        let mut want = vec![1.0, input[0], input[1]];
        want.extend(state.iter());
        assert_eq!(shown, want);
        assert_eq!(plain(r.state()), want);
    }
}

#[test]
fn step_agrees_with_matrix_arithmetic() {
    let units = 8;
    let mut r = reservoir(1, units, 0.9, 1.0, 0.8, 2);
    let w = DMatrix::from_fn(units, units, |i, j| r.recurrent_weights().get(i, j).0);
    let w_in = DMatrix::from_fn(units, 1, |i, j| r.input_weights().get(i, j).0);
    let mut state = nalgebra::DVector::<f64>::zeros(units);
    for t in 0..20 {
        let u = nalgebra::DVector::from_vec(vec![(0.3 * t as f64).cos()]);
        let pre = &w * &state + &w_in * &u;
        state = &state * (1.0 - 0.8) + pre.map(|x| x.tanh()) * 0.8;
        let shown = plain(r.step(&reals(&[u[0]])).unwrap());
        assert_eq!(shown[0], 1.0);
        assert_eq!(shown[1], u[0]);
        for i in 0..units {
            assert!(close(shown[2 + i], state[i], 1e-12));
        }
    }
}

#[test]
fn same_parameters_give_same_states() {
    let mut a = reservoir(2, 20, 0.9, 0.7, 0.6, 99);
    let mut b = reservoir(2, 20, 0.9, 0.7, 0.6, 99);
    assert_eq!(entries(a.recurrent_weights()), entries(b.recurrent_weights()));
    assert_eq!(entries(a.input_weights()), entries(b.input_weights()));
    for t in 0..50 {
        let input = reals(&[(0.1 * t as f64).sin(), (0.07 * t as f64).cos()]);
        let sa = a.step(&input).unwrap().clone();
        let sb = b.step(&input).unwrap().clone();
        assert_eq!(sa, sb);
    }
}

#[test]
fn another_seed_gives_other_weights() {
    let a = reservoir(1, 10, 0.9, 1.0, 1.0, 1);
    let b = reservoir(1, 10, 0.9, 1.0, 1.0, 2);
    assert_ne!(entries(a.recurrent_weights()), entries(b.recurrent_weights()));
}

#[test]
fn reset_then_step_is_a_first_step() {
    let mut used = reservoir(1, 15, 0.9, 1.0, 0.5, 8);
    for t in 0..30 {
        used.step(&reals(&[(0.2 * t as f64).sin()])).unwrap();
    }
    used.reset();
    assert_eq!(used.state(), &reals(&[0.0; 17]));
    assert_eq!(used.dim(), 17);
    let mut new = reservoir(1, 15, 0.9, 1.0, 0.5, 8);
    let x = reals(&[0.375]);
    assert_eq!(used.step(&x).unwrap().clone(), new.step(&x).unwrap().clone());
}

#[test]
fn step_rejects_a_wrong_length() {
    let mut r = reservoir(2, 5, 0.9, 1.0, 1.0, 4);
    r.step(&reals(&[0.5, -0.5])).unwrap();
    let before = r.state().clone();
    assert_eq!(r.step(&reals(&[0.5])).err(), Some(EsnError::DimensionMismatch));
    assert_eq!(r.step(&reals(&[0.5, 0.25, 1.0])).err(), Some(EsnError::DimensionMismatch));
    assert_eq!(r.step(&reals(&[])).err(), Some(EsnError::DimensionMismatch));
    assert_eq!(r.state(), &before);
    assert_eq!(r.dim(), 8);
    // The hidden activations are unchanged too: the next step is the one
    // that a reservoir without the rejected calls takes.
    let mut twin = reservoir(2, 5, 0.9, 1.0, 1.0, 4);
    twin.step(&reals(&[0.5, -0.5])).unwrap();
    let x = reals(&[0.125, 0.25]);
    assert_eq!(r.step(&x).unwrap().clone(), twin.step(&x).unwrap().clone());
}

// ---- the readout ----

#[test]
fn new_readout_has_one_output() {
    let readout = RidgeReadout::<R>::new(6);
    assert_eq!(readout.output_dim(), 1);
    assert_eq!(readout.state_dim(), 6);
    let mut rng = StdRng::seed_from_u64(1234);
    let dist = Uniform::new(-0.5f64, 0.5f64);
    let want: Vec<f64> = (0..6).map(|_| rng.sample(&dist)).collect();
    assert_eq!(entries(readout.weights()), vec![want]);
}

#[test]
fn predict_is_weights_times_state() {
    let mut readout = RidgeReadout::<R>::new(3);
    readout.set_weights(matrix(&[&[1.0, 2.0, 3.0], &[0.5, 0.0, -1.0]]));
    assert_eq!(readout.output_dim(), 2);
    assert_eq!(readout.state_dim(), 3);
    assert_eq!(readout.predict(&reals(&[1.0, 1.0, 1.0])).unwrap(), reals(&[6.0, -0.5]));
    assert_eq!(readout.predict(&reals(&[2.0, 0.0, 1.0])).unwrap(), reals(&[5.0, 0.0]));
}

#[test]
fn predict_rejects_a_wrong_length() {
    let mut readout = RidgeReadout::<R>::new(3);
    readout.set_weights(matrix(&[&[1.0, 2.0, 3.0]]));
    assert_eq!(readout.predict(&reals(&[1.0, 1.0])).err(), Some(EsnError::DimensionMismatch));
    assert_eq!(
        readout.predict(&reals(&[1.0, 1.0, 1.0, 1.0])).err(),
        Some(EsnError::DimensionMismatch)
    );
    assert_eq!(entries(readout.weights()), vec![vec![1.0, 2.0, 3.0]]);
}

// ---- training ----

#[test]
fn default_ridge_is_one_millionth() {
    assert_eq!(RidgeTrainer::<R>::default().ridge, R(1e-6));
    assert_eq!(RidgeParams { ridge: R(0.5) }.ridge, R(0.5));
}

#[test]
fn solve_ridge_on_a_small_system() {
    // One feature, three samples: w = (sum x*y) / (sum x*x + ridge).
    let x = matrix(&[&[1.0], &[2.0], &[3.0]]);
    let y = matrix(&[&[2.0], &[4.0], &[6.0]]);
    let w = solve_ridge(&x, &y, R(0.0)).unwrap();
    assert_eq!(entries(&w), vec![vec![28.0 * (1.0 / 14.0)]]);
    let w = solve_ridge(&x, &y, R(14.0)).unwrap();
    assert_eq!(entries(&w), vec![vec![28.0 * (1.0 / 28.0)]]);
    let flat = matrix(&[&[0.0], &[0.0], &[0.0]]);
    assert_eq!(
        solve_ridge(&flat, &y, R(0.0)).err(),
        Some(EsnError::SingularMatrix)
    );
}

#[test]
fn fit_recovers_a_linear_map_of_the_state() {
    // With leaking rate one and no recurrent weights the state is a function
    // of the current input alone.
    let mut r = reservoir(1, 2, 0.0, 6.0, 1.0, 21);
    assert!(entries(r.recurrent_weights()).iter().flatten().all(|&w| w == 0.0));
    let truth = [0.3, -1.2, 0.8, 2.0];
    let inputs: Vec<Vec<R>> = (0..200).map(|t| vec![R(-1.0 + 0.01 * t as f64)]).collect();
    let mut probe = reservoir(1, 2, 0.0, 6.0, 1.0, 21);
    let targets: Vec<Vec<R>> = inputs
        .iter()
        .map(|u| {
            let s = plain(probe.step(u).unwrap());
            vec![R(s.iter().zip(truth.iter()).map(|(a, b)| a * b).sum())]
        })
        .collect();
    let mut readout = RidgeReadout::<R>::new(r.dim());
    let mut trainer = RidgeTrainer { ridge: R(1e-10) };
    trainer.fit(&mut r, &mut readout, &inputs, &targets).unwrap();
    let learned = entries(readout.weights());
    assert_eq!(learned.len(), 1);
    for k in 0..4 {
        assert!(close(learned[0][k], truth[k], 1e-4));
    }
}

#[test]
fn larger_ridge_gives_smaller_weights() {
    let (inputs, targets) = sine_task();
    let mut last = f64::INFINITY;
    for ridge in [1e-6, 1e-4, 1e-2, 1.0, 100.0] {
        let mut r = reservoir(1, 12, 0.9, 1.0, 1.0, 6);
        let mut readout = RidgeReadout::<R>::new(r.dim());
        let mut trainer = RidgeTrainer { ridge: R(ridge) };
        trainer.fit(&mut r, &mut readout, &inputs, &targets).unwrap();
        let norm = weight_norm(&readout);
        assert!(norm <= last);
        last = norm;
    }
}

#[test]
fn fit_rejects_mismatched_batches() {
    let mut r = reservoir(1, 4, 0.9, 1.0, 1.0, 6);
    r.step(&reals(&[0.5])).unwrap();
    let state = r.state().clone();
    let mut readout = RidgeReadout::<R>::new(r.dim());
    let weights = entries(readout.weights());
    let mut trainer = RidgeTrainer { ridge: R(1e-6) };
    let one = vec![reals(&[0.1])];
    let two = vec![reals(&[0.1]), reals(&[0.2])];
    let wide = vec![reals(&[0.1, 0.2]), reals(&[0.3, 0.4])];
    let ragged = vec![reals(&[0.1]), reals(&[])];
    // fewer targets than inputs
    assert_eq!(trainer.fit(&mut r, &mut readout, &two, &one).err(), Some(EsnError::DimensionMismatch));
    // inputs of the wrong length
    assert_eq!(trainer.fit(&mut r, &mut readout, &wide, &two).err(), Some(EsnError::DimensionMismatch));
    assert_eq!(trainer.fit(&mut r, &mut readout, &ragged, &two).err(), Some(EsnError::DimensionMismatch));
    // targets of the wrong length
    assert_eq!(trainer.fit(&mut r, &mut readout, &two, &wide).err(), Some(EsnError::DimensionMismatch));
    assert_eq!(r.state(), &state);
    assert_eq!(entries(readout.weights()), weights);
    let mut twin = reservoir(1, 4, 0.9, 1.0, 1.0, 6);
    twin.step(&reals(&[0.5])).unwrap();
    let x = reals(&[0.25]);
    assert_eq!(r.step(&x).unwrap().clone(), twin.step(&x).unwrap().clone());
}

#[test]
fn fit_rejects_an_empty_batch() {
    let mut r = reservoir(1, 4, 0.9, 1.0, 1.0, 6);
    let mut readout = RidgeReadout::<R>::new(r.dim());
    let weights = entries(readout.weights());
    let mut trainer = RidgeTrainer { ridge: R(1e-6) };
    let none: Vec<Vec<R>> = Vec::new();
    assert_eq!(trainer.fit(&mut r, &mut readout, &none, &none).err(), Some(EsnError::DimensionMismatch));
    assert_eq!(entries(readout.weights()), weights);
    assert_eq!(r.state(), &reals(&[0.0; 6]));
}

#[test]
fn fit_rejects_a_negative_ridge() {
    let (inputs, targets) = sine_task();
    let mut r = reservoir(1, 4, 0.9, 1.0, 1.0, 6);
    let mut readout = RidgeReadout::<R>::new(r.dim());
    let weights = entries(readout.weights());
    let mut trainer = RidgeTrainer { ridge: R(-1e-3) };
    assert_eq!(trainer.fit(&mut r, &mut readout, &inputs, &targets).err(), Some(EsnError::Configuration));
    let mut trainer = RidgeTrainer { ridge: R(f64::NAN) };
    assert_eq!(trainer.fit(&mut r, &mut readout, &inputs, &targets).err(), Some(EsnError::Configuration));
    assert_eq!(entries(readout.weights()), weights);
    assert_eq!(r.state(), &reals(&[0.0; 6]));
}

#[test]
fn singular_gram_matrix_leaves_the_readout() {
    let mut r = reservoir(1, 3, 0.9, 1.0, 1.0, 6);
    let mut readout = RidgeReadout::<R>::new(r.dim());
    let weights = entries(readout.weights());
    // Zero inputs keep every state at (1, 0, 0, ...): the Gram matrix has
    // rank one.
    let inputs = vec![reals(&[0.0]); 5];
    let targets = vec![reals(&[1.0]); 5];
    let mut trainer = RidgeTrainer { ridge: R(0.0) };
    assert_eq!(trainer.fit(&mut r, &mut readout, &inputs, &targets).err(), Some(EsnError::SingularMatrix));
    assert_eq!(entries(readout.weights()), weights);
    // A positive ridge makes the same system solvable.
    let mut trainer = RidgeTrainer { ridge: R(0.5) };
    assert!(trainer.fit(&mut r, &mut readout, &inputs, &targets).is_ok());
    let learned = entries(readout.weights());
    assert_eq!(learned[0][0], 5.0 * (1.0 / 5.5));
    assert_eq!(learned[0][1..], [0.0; 4]);
}

#[test]
fn fit_drives_the_reservoir_without_resetting() {
    let (inputs, targets) = sine_task();
    let mut r = reservoir(1, 6, 0.9, 1.0, 0.7, 6);
    r.step(&reals(&[0.9])).unwrap();
    let mut twin = reservoir(1, 6, 0.9, 1.0, 0.7, 6);
    twin.step(&reals(&[0.9])).unwrap();
    let mut readout = RidgeReadout::<R>::new(r.dim());
    let mut trainer = RidgeTrainer { ridge: R(1e-6) };
    trainer.fit(&mut r, &mut readout, &inputs, &targets).unwrap();
    for u in &inputs {
        twin.step(u).unwrap();
    }
    assert_eq!(r.state(), twin.state());
    assert_eq!(readout.state_dim(), 8);
    assert_eq!(readout.output_dim(), 1);
}

#[test]
fn fit_with_two_outputs() {
    let (inputs, targets) = sine_task();
    let pairs: Vec<Vec<R>> = targets.iter().map(|t| vec![t[0], R(-2.0 * t[0].0)]).collect();
    let mut r = reservoir(1, 10, 0.9, 1.0, 1.0, 6);
    let mut readout = RidgeReadout::<R>::new(r.dim());
    readout.set_weights(Matrix::from_rows(vec![reals(&[0.0; 12]); 2], 12).unwrap());
    let mut trainer = RidgeTrainer { ridge: R(1e-6) };
    trainer.fit(&mut r, &mut readout, &inputs, &pairs).unwrap();
    let learned = entries(readout.weights());
    assert_eq!(learned.len(), 2);
    for k in 0..r.dim() {
        assert!(close(learned[1][k], -2.0 * learned[0][k], 1e-6 * (1.0 + learned[0][k].abs())));
    }
    // A single target per sample no longer fits this readout.
    assert_eq!(
        trainer.fit(&mut r, &mut readout, &inputs, &targets).err(),
        Some(EsnError::DimensionMismatch)
    );
}

/// A trainer that takes the inverse of the Gram matrix from an LU
/// decomposition.
struct LuTrainer {
    ridge: f64,
}

impl Trainer<DenseReservoir<R>, RidgeReadout<R>, R> for LuTrainer {
    type Error = EsnError;

    fn fit(
        &mut self,
        reservoir: &mut DenseReservoir<R>,
        readout: &mut RidgeReadout<R>,
        inputs: &[Vec<R>],
        targets: &[Vec<R>],
    ) -> Result<(), EsnError> {
        let (x, y) = collect_states(reservoir, readout, inputs, targets, R(self.ridge))?;
        let gram = regularized_gram(&x, R(self.ridge));
        let d = gram.nrows();
        let inverse = DMatrix::from_fn(d, d, |i, j| gram.get(i, j).0).try_inverse().map(|inv| {
            let rows = (0..d).map(|i| (0..d).map(|j| R(inv[(i, j)])).collect()).collect();
            Matrix::from_rows(rows, d).unwrap()
        });
        readout.set_weights(weights_from_inverse(&x, &y, inverse)?);
        Ok(())
    }
}

fn train<T>(trainer: &mut T, seed: u64) -> Result<(DenseReservoir<R>, RidgeReadout<R>), EsnError>
where
    T: Trainer<DenseReservoir<R>, RidgeReadout<R>, R, Error = EsnError>,
{
    let (inputs, targets) = sine_task();
    let mut r = reservoir(1, 10, 0.9, 1.0, 1.0, seed);
    let mut readout = RidgeReadout::<R>::new(r.dim());
    trainer.fit(&mut r, &mut readout, &inputs, &targets)?;
    Ok((r, readout))
}

#[test]
fn trainers_are_interchangeable() {
    let (ra, a) = train(&mut RidgeTrainer { ridge: R(1e-3) }, 6).unwrap();
    let (rb, b) = train(&mut LuTrainer { ridge: 1e-3 }, 6).unwrap();
    assert_eq!(ra.state(), rb.state());
    let ours = entries(a.weights());
    let theirs = entries(b.weights());
    for k in 0..12 {
        assert!(close(ours[0][k], theirs[0][k], 1e-6 * (1.0 + theirs[0][k].abs())));
    }
    assert_eq!(train(&mut LuTrainer { ridge: -1.0 }, 6).err(), Some(EsnError::Configuration));
}

#[test]
fn collect_states_gives_the_design_matrix() {
    let (inputs, targets) = sine_task();
    let mut r = reservoir(1, 4, 0.9, 1.0, 1.0, 6);
    let mut twin = reservoir(1, 4, 0.9, 1.0, 1.0, 6);
    let readout = RidgeReadout::<R>::new(r.dim());
    let (x, y) = collect_states(&mut r, &readout, &inputs, &targets, R(0.0)).unwrap();
    assert_eq!(x.nrows(), 200);
    assert_eq!(x.ncols(), 6);
    assert_eq!(y.nrows(), 200);
    assert_eq!(y.ncols(), 1);
    for (k, u) in inputs.iter().enumerate() {
        assert_eq!(x.row(k), twin.step(u).unwrap());
        assert_eq!(y.row(k), &targets[k]);
    }
    assert_eq!(
        collect_states(&mut r, &readout, &inputs[..3], &targets[..2], R(0.0)).err(),
        Some(EsnError::DimensionMismatch)
    );
    assert_eq!(
        collect_states(&mut r, &readout, &inputs, &targets, R(-0.5)).err(),
        Some(EsnError::Configuration)
    );
    assert_eq!(r.state(), twin.state());
}

#[test]
fn gram_matrix_is_regularised_on_the_diagonal() {
    let x = matrix(&[&[1.0, 2.0], &[3.0, 4.0]]);
    let g = regularized_gram(&x, R(0.5));
    assert_eq!(entries(&g), vec![vec![10.5, 14.0], vec![14.0, 20.5]]);
}

#[test]
fn weights_need_a_fitting_inverse() {
    let x = matrix(&[&[1.0, 0.0], &[0.0, 2.0], &[1.0, 1.0]]);
    let y = matrix(&[&[1.0], &[2.0], &[3.0]]);
    assert_eq!(weights_from_inverse(&x, &y, None).err(), Some(EsnError::SingularMatrix));
    let small = Matrix::<R>::identity(1);
    assert_eq!(
        weights_from_inverse(&x, &y, Some(small)).err(),
        Some(EsnError::DimensionMismatch)
    );
    let wide = matrix(&[&[1.0, 0.0, 0.0], &[0.0, 1.0, 0.0]]);
    assert_eq!(
        weights_from_inverse(&x, &y, Some(wide)).err(),
        Some(EsnError::DimensionMismatch)
    );
    // With the identity in place of the inverse the weights are the
    // transposed targets times the states.
    let w = weights_from_inverse(&x, &y, Some(Matrix::identity(2))).unwrap();
    assert_eq!(entries(&w), vec![vec![4.0, 7.0]]);
}

// ---- the network ----

#[test]
fn builder_defaults() {
    let net: EchoStateNetwork<R> = ESNBuilder::new(1).build().unwrap();
    assert_eq!(net.state_dim(), 102);
    assert_eq!(net.reservoir.input_dim(), 1);
    assert_eq!(net.readout.output_dim(), 1);
    assert_eq!(net.readout.state_dim(), 102);
    let same = reservoir(1, 100, 1.0, 1.0, 1.0, 42);
    assert_eq!(entries(net.reservoir.recurrent_weights()), entries(same.recurrent_weights()));
    assert_eq!(entries(net.reservoir.input_weights()), entries(same.input_weights()));
}

#[test]
fn builder_settings_reach_the_reservoir() {
    let mut net: EchoStateNetwork<R> = ESNBuilder::new(2)
        .units(7)
        .spectral_radius(R(0.5))
        .input_scaling(R(2.0))
        .leaking_rate(R(0.25))
        .seed(77)
        .build()
        .unwrap();
    let mut same = reservoir(2, 7, 0.5, 2.0, 0.25, 77);
    assert_eq!(net.state_dim(), 10);
    let x = reals(&[0.5, -0.25]);
    net.predict(&x).unwrap();
    same.step(&x).unwrap();
    assert_eq!(net.reservoir.state(), same.state());
}

#[test]
fn builder_rejects_empty_shapes() {
    assert_eq!(ESNBuilder::<R>::new(1).units(0).build().err(), Some(EsnError::Configuration));
    assert_eq!(ESNBuilder::<R>::new(0).build().err(), Some(EsnError::Configuration));
}

#[test]
fn network_predict_is_readout_of_the_step() {
    let mut net: EchoStateNetwork<R> = ESNBuilder::new(1).units(5).seed(3).build().unwrap();
    let mut same = reservoir(1, 5, 1.0, 1.0, 1.0, 3);
    let x = reals(&[0.5]);
    let y = net.predict(&x).unwrap();
    let state = same.step(&x).unwrap().clone();
    assert_eq!(y, vec![dot_product(net.readout.weights().row(0), &state)]);
    assert_eq!(net.reservoir.state(), &state);
}

#[test]
fn network_predict_rejects_a_wrong_length() {
    let mut net: EchoStateNetwork<R> = ESNBuilder::new(2).units(5).build().unwrap();
    net.predict(&reals(&[0.5, 0.5])).unwrap();
    let state = net.reservoir.state().clone();
    assert_eq!(net.predict(&reals(&[0.5])).err(), Some(EsnError::DimensionMismatch));
    assert_eq!(net.reservoir.state(), &state);
    // A readout for states of another length is rejected before the
    // reservoir moves.
    net.readout.set_weights(matrix(&[&[1.0, 2.0]]));
    assert_eq!(net.predict(&reals(&[0.5, 0.5])).err(), Some(EsnError::DimensionMismatch));
    assert_eq!(net.reservoir.state(), &state);
}

#[test]
fn network_learns_a_one_step_delay_of_a_sine() {
    let (inputs, targets) = sine_task();
    let mut net: EchoStateNetwork<R> =
        ESNBuilder::new(1).units(50).spectral_radius(R(0.9)).seed(0).build().unwrap();
    net.fit(&inputs, &targets, R(1e-6)).unwrap();
    net.reservoir.reset();
    let mut sum = 0.0;
    for (u, t) in inputs.iter().zip(targets.iter()) {
        let y = net.predict(u).unwrap();
        assert_eq!(y.len(), 1);
        sum += (y[0].0 - t[0].0) * (y[0].0 - t[0].0);
    }
    let rmse = (sum / inputs.len() as f64).sqrt();
    assert!(rmse < 0.05);
}

#[test]
fn network_fit_reports_errors() {
    let (inputs, targets) = sine_task();
    let mut net: EchoStateNetwork<R> = ESNBuilder::new(1).units(5).build().unwrap();
    let weights = entries(net.readout.weights());
    assert_eq!(net.fit(&inputs, &targets[..10], R(1e-6)).err(), Some(EsnError::DimensionMismatch));
    assert_eq!(net.fit(&[], &[], R(1e-6)).err(), Some(EsnError::DimensionMismatch));
    assert_eq!(net.fit(&inputs, &targets, R(-1.0)).err(), Some(EsnError::Configuration));
    let zeros = vec![reals(&[0.0]); 4];
    assert_eq!(net.fit(&zeros, &zeros, R(0.0)).err(), Some(EsnError::SingularMatrix));
    assert_eq!(entries(net.readout.weights()), weights);
}

// ---- errors and windows ----

#[test]
fn error_messages() {
    assert_eq!(EsnError::Configuration.message(), "invalid configuration");
    assert_eq!(EsnError::DimensionMismatch.message(), "dimension mismatch");
    assert_eq!(EsnError::SingularMatrix.message(), "singular matrix");
}

#[test]
fn sliding_window_pairs() {
    let series = matrix(&[&[0.0, 9.0], &[1.0, 9.0], &[2.0, 9.0], &[3.0, 9.0], &[4.0, 9.0], &[5.0, 9.0]]);
    let (inputs, targets) = SlidingWindow { window: 2, horizon: 1 }.split(&series);
    assert_eq!(inputs, vec![reals(&[0.0, 1.0]), reals(&[1.0, 2.0]), reals(&[2.0, 3.0])]);
    assert_eq!(targets, vec![reals(&[3.0]), reals(&[4.0]), reals(&[5.0])]);
    let (inputs, targets) = SlidingWindow { window: 3, horizon: 3 }.split(&series);
    assert!(inputs.is_empty());
    assert!(targets.is_empty());
    let (inputs, targets) = SlidingWindow { window: 1, horizon: 0 }.split(&series);
    assert_eq!(inputs.len(), 5);
    assert_eq!(inputs[4], reals(&[4.0]));
    assert_eq!(targets[4], reals(&[5.0]));
}

// ---- metrics ----

#[test]
fn metrics_on_a_small_series() {
    let truth = reals(&[1.0, 2.0, 3.0]);
    let guess = reals(&[1.0, 2.0, 5.0]);
    assert_eq!(mse(&truth, &guess), R(4.0 / 3.0));
    assert_eq!(rmse(&truth, &guess), R((4.0f64 / 3.0).sqrt()));
    assert_eq!(nrmse(&truth, &guess), R((4.0f64 / 3.0).sqrt() / 2.0));
    assert_eq!(rsquare(&truth, &guess), R(-1.0));
}

#[test]
fn metrics_of_a_perfect_prediction() {
    let truth = reals(&[0.5, -1.5, 2.0, 4.0]);
    assert_eq!(mse(&truth, &truth), R(0.0));
    assert_eq!(rmse(&truth, &truth), R(0.0));
    assert_eq!(nrmse(&truth, &truth), R(0.0));
    assert_eq!(rsquare(&truth, &truth), R(1.0));
}

#[test]
fn metrics_pair_values_up_to_the_shorter_series() {
    let truth = reals(&[1.0, 2.0, 3.0, 4.0]);
    let guess = reals(&[2.0, 2.0]);
    // One squared error of one over four true values.
    assert_eq!(mse(&truth, &guess), R(0.25));
    assert_eq!(rmse(&truth, &guess), R(0.5));
    assert_eq!(nrmse(&truth, &guess), R(0.5 / 3.0));
    assert_eq!(rsquare(&truth, &guess), R(1.0 - 1.0 / 5.0));
}

// ---- the Mackey-Glass series ----

fn mackey_glass(history: Option<Vec<R>>, seed: Option<u64>, steps: usize) -> MackeyGlassParams<R> {
    MackeyGlassParams {
        a: R(0.2),
        b: R(0.1),
        n: 10,
        tau: 17,
        x0: R(1.2),
        h: R(1.0),
        steps,
        seed,
        history,
    }
}

fn runge_kutta_by_hand(xt: f64, xtau: f64) -> f64 {
    let f = |x: f64, x_tau: f64| -0.1 * x + 0.2 * x_tau / (1. + x_tau.powi(10));
    let h = 1.0;
    let k1 = h * f(xt, xtau);
    let k2 = h * f(xt + 0.5 * k1, xtau);
    let k3 = h * f(xt + 0.5 * k2, xtau);
    let k4 = h * f(xt + k3, xtau);
    xt + (k1 + 2. * k2 + 2. * k3 + k4) / 6.
}

#[test]
fn history_spans_the_delay() {
    assert_eq!(mackey_glass(None, Some(1), 0).history_len(), 17);
    let mut fine = mackey_glass(None, Some(1), 0);
    fine.h = R(0.5);
    assert_eq!(fine.history_len(), 34);
    fine.h = R(3.0);
    assert_eq!(fine.history_len(), 6);
    fine.tau = 0;
    assert_eq!(fine.history_len(), 0);
}

#[test]
fn series_follows_the_runge_kutta_step() {
    let past: Vec<f64> = (0..20).map(|k| 1.0 + 0.01 * k as f64).collect();
    let mut series = MackeyGlass::new(mackey_glass(Some(reals(&past)), None, 0), 0);
    // The last seventeen values are the history, oldest first.
    let mut window: Vec<f64> = past[3..].to_vec();
    let mut x = 1.2;
    for _ in 0..40 {
        let next = runge_kutta_by_hand(x, window[0]);
        window.remove(0);
        window.push(next);
        x = next;
        assert_eq!(series.step(), R(next));
    }
}

#[test]
fn generate_gives_the_steps_in_order() {
    let past = reals(&[1.1; 17]);
    let mut whole = MackeyGlass::new(mackey_glass(Some(past.clone()), None, 25), 0);
    let mut single = MackeyGlass::new(mackey_glass(Some(past), None, 25), 0);
    let values = whole.generate();
    assert_eq!(values.len(), 25);
    for v in &values {
        assert_eq!(*v, single.step());
    }
    // The generator goes on from where `generate` stopped.
    assert_eq!(whole.step(), single.step());
    let mut none = MackeyGlass::new(mackey_glass(None, Some(3), 0), 0);
    assert!(none.generate().is_empty());
}

#[test]
fn random_history_comes_from_the_seed() {
    let mut rng = StdRng::seed_from_u64(42);
    let past: Vec<R> = (0..17).map(|_| R(1.2 + rng.gen::<f64>() * 0.1)).collect();
    let mut seeded = MackeyGlass::new(mackey_glass(None, Some(42), 30), 7);
    let mut given = MackeyGlass::new(mackey_glass(Some(past), None, 30), 7);
    assert_eq!(seeded.generate(), given.generate());
    // Without a seed of its own the generator takes the fallback.
    let mut fallback = MackeyGlass::new(mackey_glass(None, None, 30), 42);
    let mut again = MackeyGlass::new(mackey_glass(None, Some(42), 30), 0);
    assert_eq!(fallback.generate(), again.generate());
    let mut other = MackeyGlass::new(mackey_glass(None, None, 30), 43);
    let mut base = MackeyGlass::new(mackey_glass(None, Some(42), 30), 0);
    assert_ne!(other.generate(), base.generate());
}

#[test]
fn series_stays_bounded() {
    let mut series = MackeyGlass::new(mackey_glass(None, Some(42), 2000), 0);
    let values = series.generate();
    assert_eq!(values.len(), 2000);
    assert!(values.iter().all(|v| v.0 > 0.1 && v.0 < 1.6));
}

#[test]
fn short_history_gives_no_generator() {
    assert!(MackeyGlass::try_new(mackey_glass(Some(reals(&[1.0; 16])), None, 5), 0).is_none());
    let mut exact = MackeyGlass::try_new(mackey_glass(Some(reals(&[1.0; 17])), None, 5), 0).unwrap();
    assert_eq!(exact.history_len(), 17);
    assert_eq!(exact.steps(), 5);
    assert_eq!(exact.current(), R(1.2));
    assert_eq!(exact.step(), R(runge_kutta_by_hand(1.2, 1.0)));
    assert_eq!(exact.current(), R(runge_kutta_by_hand(1.2, 1.0)));
    assert_eq!(exact.history_len(), 17);
    let drawn = MackeyGlass::try_new(mackey_glass(None, None, 5), 9).unwrap();
    assert_eq!(drawn.history_len(), 17);
}

// ---- exact arithmetic ----

/// A fraction of two integers in lowest terms, with a positive denominator.
#[derive(Clone, Copy, Debug, PartialEq)]
struct Q {
    num: i128,
    den: i128,
}

fn gcd(a: i128, b: i128) -> i128 {
    if b == 0 {
        a.abs()
    } else {
        gcd(b, a % b)
    }
}

fn q(num: i128, den: i128) -> Q {
    assert!(den != 0);
    let g = gcd(num, den) * den.signum();
    Q { num: num / g, den: den / g }
}

impl Scalar for Q {
    fn zero() -> Self {
        q(0, 1)
    }
    fn one() -> Self {
        q(1, 1)
    }
    fn from_usize(n: usize) -> Self {
        q(n as i128, 1)
    }
    fn add(self, rhs: Self) -> Self {
        q(self.num * rhs.den + rhs.num * self.den, self.den * rhs.den)
    }
    fn sub(self, rhs: Self) -> Self {
        q(self.num * rhs.den - rhs.num * self.den, self.den * rhs.den)
    }
    fn mul(self, rhs: Self) -> Self {
        q(self.num * rhs.num, self.den * rhs.den)
    }
    fn div(self, rhs: Self) -> Self {
        q(self.num * rhs.den, self.den * rhs.num)
    }
    fn neg(self) -> Self {
        q(-self.num, self.den)
    }
    fn is_zero(self) -> bool {
        self.num == 0
    }
    fn ge(self, rhs: Self) -> bool {
        self.num * rhs.den >= rhs.num * self.den
    }
}

fn fractions(rows: &[&[i128]]) -> Matrix<Q> {
    let cols = if rows.is_empty() { 0 } else { rows[0].len() };
    Matrix::from_rows(rows.iter().map(|r| r.iter().map(|&v| q(v, 1)).collect()).collect(), cols)
        .unwrap()
}

fn same(a: &Matrix<Q>, b: &Matrix<Q>) -> bool {
    a.nrows() == b.nrows() && a.ncols() == b.ncols() && (0..a.nrows()).all(|i| a.row(i) == b.row(i))
}

#[test]
fn exact_inverse_is_an_inverse_from_both_sides() {
    let a = fractions(&[&[2, 1, 1], &[1, 3, 2], &[1, 0, 0]]);
    let inv = a.try_inverse().unwrap();
    assert!(same(&inv.mul(&a), &Matrix::identity(3)));
    assert!(same(&a.mul(&inv), &Matrix::identity(3)));
    assert_eq!(inv.row(0), &vec![q(0, 1), q(0, 1), q(1, 1)]);
    assert_eq!(inv.row(1), &vec![q(-2, 1), q(1, 1), q(3, 1)]);
    assert_eq!(inv.row(2), &vec![q(3, 1), q(-1, 1), q(-5, 1)]);
}

#[test]
fn exact_weights_solve_the_normal_equations() {
    let x = fractions(&[&[1, 2], &[3, 1], &[0, 1], &[2, 2]]);
    let y = fractions(&[&[1, 0], &[2, 1], &[-1, 3], &[0, 5]]);
    for ridge in [q(0, 1), q(1, 2), q(7, 1)] {
        let w = solve_ridge(&x, &y, ridge).unwrap();
        let gram = regularized_gram(&x, ridge);
        assert!(same(&w.mul(&gram), &y.transpose_mul(&x)));
    }
}

#[test]
fn exact_regression_recovers_a_linear_map() {
    let x = fractions(&[&[1, 2, 0], &[3, 1, 1], &[0, 1, 4], &[2, 2, 1], &[5, 0, 2]]);
    let w0 = Matrix::from_rows(
        vec![vec![q(1, 2), q(-3, 1), q(2, 7)], vec![q(0, 1), q(5, 3), q(-1, 1)]],
        3,
    )
    .unwrap();
    let rows = (0..5).map(|k| w0.mul_vec(x.row(k))).collect();
    let y = Matrix::from_rows(rows, 2).unwrap();
    let w = solve_ridge(&x, &y, Scalar::zero()).unwrap();
    assert!(same(&w, &w0));
    // With a penalty the weights are no longer those of the map.
    let shrunk = solve_ridge(&x, &y, q(1, 1)).unwrap();
    assert!(!same(&shrunk, &w0));
}

#[test]
fn exact_gram_of_dependent_states_is_singular() {
    let x = fractions(&[&[1, 2], &[2, 4], &[3, 6]]);
    let y = fractions(&[&[1], &[2], &[3]]);
    assert_eq!(solve_ridge(&x, &y, q(0, 1)).err(), Some(EsnError::SingularMatrix));
    assert!(solve_ridge(&x, &y, q(1, 10)).is_ok());
}
