use vstd::prelude::*;

verus! {

/// Rectified linear unit: `max(x, 0)`, with derivative 1 above zero and 0 elsewhere.
#[derive(Debug, Clone, Copy)]
pub struct ReLU;

/// Logistic sigmoid: `1 / (1 + exp(-x))`, with derivative `s * (1 - s)`.
#[derive(Debug, Clone, Copy)]
pub struct Sigmoid;

} // verus!
