//! Elementwise addition with scalar broadcasting.
use vstd::prelude::*;
use crate::tensor::{Tensor, ScalarOps};
use crate::shape::{product, copy_slice, same_shape, scalar_shape, is_scalar_shape, lemma_scalar_product};
use crate::model::NodeProto;
use crate::ops::error::OpError;

verus! {

/// Elementwise sum of two tensors.
pub struct Add;

/// The shape of `a + b`: `a`'s where the shapes agree or `b` is a scalar, else `b`'s
/// where `a` is a scalar; none for any other pair.
pub open spec fn add_shape(a: Seq<usize>, b: Seq<usize>) -> Option<Seq<usize>> {
    if a == b || is_scalar_shape(b) {
        Some(a)
    } else if is_scalar_shape(a) {
        Some(b)
    } else {
        None
    }
}

/// Element `i` of `a + b`: the sum of the elements at `i` where the shapes agree,
/// else the sum of the larger operand's element and the scalar's value.
pub open spec fn add_elem<T, A: ScalarOps<T>>(ops: &A, a: &Tensor<T>, b: &Tensor<T>, i: int) -> T {
    if a.dims() == b.dims() {
        ops.sum_spec(a.elems()[i], b.elems()[i])
    } else if is_scalar_shape(b.dims()) {
        ops.sum_spec(a.elems()[i], b.elems()[0])
    } else {
        ops.sum_spec(b.elems()[i], a.elems()[0])
    }
}

/// Adds `scalar` to every element of `x`.
fn add_scalar<T: Copy, A: ScalarOps<T>>(ops: &A, x: &Tensor<T>, scalar: T) -> (r: Result<Tensor<T>, OpError>)
    ensures
        r matches Ok(t) && t.dims() == x.dims() && t.elems().len() == x.elems().len()
            && forall|i: int| 0 <= i < t.elems().len() ==> t.elems()[i] == ops.sum_spec(x.elems()[i], scalar),
{
    let xs = x.data();
    let mut out: Vec<T> = Vec::with_capacity(xs.len());
    let mut i: usize = 0;
    while i < xs.len()
        invariant
            i <= xs@.len(),
            out@.len() == i,
            xs@ == x.elems(),
            forall|j: int| 0 <= j < i ==> out@[j] == ops.sum_spec(xs@[j], scalar),
        decreases xs@.len() - i,
    {
        out.push(ops.sum(xs[i], scalar));
        i = i + 1;
    }
    match Tensor::new(out, copy_slice(x.shape())) {
        Ok(t) => Ok(t),
        Err(_) => Err(OpError::TooLarge),
    }
}

impl Add {
    /// Sums the first two inputs elementwise where their shapes agree; where one of
    /// them is a scalar (`[]` or `[1]`) its value is added to every element of the
    /// other. Any other pair of shapes is refused.
    pub fn run<T: Copy, A: ScalarOps<T>>(&self, ops: &A, inputs: &[&Tensor<T>], _node: &NodeProto) -> (r: Result<Tensor<T>, OpError>)
        ensures
            inputs@.len() < 2 ==> r == Err::<Tensor<T>, OpError>(
                OpError::MissingOperand { needed: 2, got: inputs@.len() as usize },
            ),
            inputs@.len() >= 2 ==> match add_shape(inputs@[0].dims(), inputs@[1].dims()) {
                Some(s) => r matches Ok(t) && t.dims() == s && t.elems().len() == product(s) && forall|i: int|
                    0 <= i < t.elems().len() ==> t.elems()[i] == add_elem(ops, inputs@[0], inputs@[1], i),
                None => r matches Err(e) && e matches OpError::ShapeMismatch { left, right }
                    && left@ == inputs@[0].dims() && right@ == inputs@[1].dims(),
            },
    {
        if inputs.len() < 2 {
            return Err(OpError::MissingOperand { needed: 2, got: inputs.len() });
        }
        let a = inputs[0];
        let b = inputs[1];
        let ad = a.data();
        let bd = b.data();
        if !same_shape(a.shape(), b.shape()) {
            if scalar_shape(b.shape()) {
                proof { lemma_scalar_product(b.dims()); }
                return add_scalar(ops, a, bd[0]);
            }
            if scalar_shape(a.shape()) {
                proof { lemma_scalar_product(a.dims()); }
                return add_scalar(ops, b, ad[0]);
            }
            return Err(OpError::ShapeMismatch { left: copy_slice(a.shape()), right: copy_slice(b.shape()) });
        }
        let mut out: Vec<T> = Vec::with_capacity(ad.len());
        let mut i: usize = 0;
        while i < ad.len()
            invariant
                ad@.len() == bd@.len(),
                i <= ad@.len(),
                out@.len() == i,
                ad@ == a.elems(),
                bd@ == b.elems(),
                forall|j: int| 0 <= j < i ==> out@[j] == ops.sum_spec(ad@[j], bd@[j]),
            decreases ad@.len() - i,
        {
            out.push(ops.sum(ad[i], bd[i]));
            i = i + 1;
        }
        match Tensor::new(out, copy_slice(a.shape())) {
            Ok(t) => Ok(t),
            Err(_) => Err(OpError::TooLarge),
        }
    }
}

} // verus!
