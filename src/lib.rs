//! The integer side of a small feed-forward image classifier: row-major
//! matrices and batch slicing, datasets with one-hot labels, the binary image
//! record format, layer-width chaining, and the first-maximum argmax with the
//! match count behind accuracy.
use vstd::prelude::*;

pub mod activation;
pub mod matrix;
pub mod accuracy;
pub mod topology;
pub mod dataset;
pub mod cifar;

verus! {

} // verus!
