//! A small numerical toolkit: exact arithmetic on integer vectors, and the
//! control logic of two iterative scalar root finders.
//!
//! Integer vectors are modelled as `Seq<int>`; every vector operation states
//! its result over that model. The root finders work on scalars carried as
//! IEEE-754 binary64 bit patterns, so that the stepping rules (budget,
//! sentinel, convergence) are verified while the arithmetic on the scalars is
//! supplied by the caller.

pub mod congruence;
pub mod error;
pub mod laws;
pub mod solver;
pub mod vector;

pub use error::{CrossError, DotError, NewtonError};
pub use solver::{newton, secant};
pub use vector::{add, cross, dot, negate, squared_magnitude, subtract};
