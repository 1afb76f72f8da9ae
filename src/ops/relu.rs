//! Rectified linear unit.
use vstd::prelude::*;
use crate::tensor::{Tensor, ScalarOps};
use crate::shape::copy_slice;
use crate::model::NodeProto;
use crate::ops::error::OpError;

verus! {

/// `max(0, x)` elementwise.
pub struct Relu;

impl Relu {
    /// Applies `max(0, x)` to every element of the first input; the shape is kept.
    pub fn run<T: Copy, A: ScalarOps<T>>(&self, ops: &A, inputs: &[&Tensor<T>], _node: &NodeProto) -> (r: Result<Tensor<T>, OpError>)
        ensures
            inputs@.len() == 0 <==> r is Err,
            r matches Err(e) ==> e == (OpError::MissingOperand { needed: 1, got: 0 }),
            r matches Ok(t) ==> t.dims() == inputs@[0].dims() && t.elems().len() == inputs@[0].elems().len()
                && forall|i: int| 0 <= i < t.elems().len() ==> t.elems()[i] == ops.relu_spec(inputs@[0].elems()[i]),
    {
        if inputs.len() == 0 {
            return Err(OpError::MissingOperand { needed: 1, got: 0 });
        }
        let x = inputs[0];
        let xs = x.data();
        let mut out: Vec<T> = Vec::with_capacity(xs.len());
        let mut i: usize = 0;
        while i < xs.len()
            invariant
                i <= xs@.len(),
                out@.len() == i,
                xs@ == x.elems(),
                forall|j: int| 0 <= j < i ==> out@[j] == ops.relu_spec(xs@[j]),
            decreases xs@.len() - i,
        {
            out.push(ops.relu(xs[i]));
            i = i + 1;
        }
        match Tensor::new(out, copy_slice(x.shape())) {
            Ok(t) => Ok(t),
            Err(_) => Err(OpError::TooLarge),
        }
    }
}

} // verus!
