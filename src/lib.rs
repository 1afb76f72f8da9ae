//! A small inference engine for decoded neural-network graphs.
//!
//! A decoded model ([`model`]) becomes a [`graph::Graph`]: its constant tensors are
//! decoded ([`decode`]) and its nodes kept in execution order. An
//! [`runtime::InferenceSession`] validates the runtime inputs against the declared
//! ones and runs the nodes in order, dispatching each to an operator ([`ops`]).
//!
//! The engine is generic over its element type: every element value is produced by
//! a caller-supplied [`tensor::ScalarOps`], whose operations are named by spec
//! functions. The contracts state every element the engine produces in terms of
//! those names (a convolution output as the sum over its kernel taps in loop order,
//! a run's outputs as the result of running the nodes in order), together with
//! shapes, the decoding of payloads, padding and output sizes, that every index the
//! kernels read lies inside its buffer, and which run fails with which error.
use vstd::prelude::*;

pub mod shape;
pub mod tensor;
pub mod model;
pub mod decode;
pub mod table;
pub mod ops;
pub mod graph;
pub mod runtime;

verus! {

} // verus!
