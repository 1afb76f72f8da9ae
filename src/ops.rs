//! Operators: the kernels that graph nodes dispatch to.
use vstd::prelude::*;

pub mod error;
pub mod attrs;
pub mod relu;
pub mod add;
pub mod conv;
pub mod registry;

verus! {

} // verus!
