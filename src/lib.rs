//! Savitzky–Golay smoothing: least-squares convolution windows and edge handling.
use vstd::prelude::*;

pub mod falling;
pub mod filter;

pub use falling::generalized_factorial;
pub use filter::{Filter, Plan, Window};

verus! {

} // verus!
