//! Echo state networks: a fixed random recurrent reservoir, a linear readout
//! on its state, and a ridge-regression trainer for the readout.
//!
//! The library is written over an abstract number type, [`Scalar`], and is
//! verified for every such type: each contract states what a function
//! returns in terms of the arithmetic of that type, whatever its precision.
//!
//! * [`scalar`] has the number type, [`algebra`] the vectors and matrices as
//!   mathematical objects, [`matrix`] the dense matrix that computes with them.
//! * [`reservoir`], [`readout`] and [`trainer`] have the three capabilities
//!   and their dense, linear and ridge implementations; [`esn`] puts them
//!   together.
//! * [`exact`] states what the algorithms achieve where the arithmetic is
//!   exact.
//! * [`window`], [`metrics`] and [`mackey_glass`] prepare, score and
//!   generate series.

pub mod algebra;
pub mod error;
pub mod esn;
pub mod exact;
pub mod mackey_glass;
pub mod matrix;
pub mod metrics;
pub mod readout;
pub mod reservoir;
pub mod scalar;
pub mod trainer;
pub mod types;
pub mod window;

pub use error::EsnError;
pub use esn::{ESNBuilder, EchoStateNetwork};
pub use mackey_glass::{MackeyGlass, MackeyGlassParams};
pub use matrix::Matrix;
pub use metrics::{mse, nrmse, rmse, rsquare};
pub use readout::{Readout, RidgeReadout};
pub use reservoir::{DenseReservoir, Reservoir};
pub use scalar::{RealScalar, Scalar};
pub use trainer::{RidgeParams, RidgeTrainer, Trainer};
pub use types::{Input, Output, State};
pub use window::SlidingWindow;
