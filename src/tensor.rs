//! Dense row-major tensors over an element type chosen by the caller.
use vstd::prelude::*;
use crate::shape::{product, element_count, copy_slice};

verus! {

/// The element arithmetic that the kernels need.
///
/// The engine never inspects element values itself: every value it produces comes
/// from one of these methods, so a caller picks the numeric type (32-bit floats
/// in the usual case) by implementing this trait on a type of its own. Each method
/// is a function of its arguments, named by its spec function, and the kernels'
/// contracts state every element they produce in terms of those names.
pub trait ScalarOps<T> {
    /// The additive identity.
    spec fn zero_spec(&self) -> T;

    /// `a + b`.
    spec fn sum_spec(&self, a: T, b: T) -> T;

    /// `a * b`.
    spec fn mul_spec(&self, a: T, b: T) -> T;

    /// `max(0, x)`.
    spec fn relu_spec(&self, x: T) -> T;

    /// The element for an IEEE-754 single-precision value given by its bits.
    spec fn from_f32_bits_spec(&self, bits: u32) -> T;

    /// The element for an IEEE-754 double-precision value given by its bits.
    spec fn from_f64_bits_spec(&self, bits: u64) -> T;

    /// The element for a 32-bit signed integer.
    spec fn from_i32_spec(&self, v: i32) -> T;

    /// The element for a 64-bit signed integer.
    spec fn from_i64_spec(&self, v: i64) -> T;

    fn zero(&self) -> (r: T)
        ensures
            r == self.zero_spec(),
    ;

    fn sum(&self, a: T, b: T) -> (r: T)
        ensures
            r == self.sum_spec(a, b),
    ;

    fn mul(&self, a: T, b: T) -> (r: T)
        ensures
            r == self.mul_spec(a, b),
    ;

    fn relu(&self, x: T) -> (r: T)
        ensures
            r == self.relu_spec(x),
    ;

    fn from_f32_bits(&self, bits: u32) -> (r: T)
        ensures
            r == self.from_f32_bits_spec(bits),
    ;

    fn from_f64_bits(&self, bits: u64) -> (r: T)
        ensures
            r == self.from_f64_bits_spec(bits),
    ;

    fn from_i32(&self, v: i32) -> (r: T)
        ensures
            r == self.from_i32_spec(v),
    ;

    fn from_i64(&self, v: i64) -> (r: T)
        ensures
            r == self.from_i64_spec(v),
    ;
}

/// Why a tensor could not be built.
#[derive(Debug, PartialEq, Eq)]
pub enum TensorError {
    /// The buffer holds `len` elements where the shape describes another count.
    LengthMismatch { len: usize, shape: Vec<usize> },
    /// The shape describes more elements than a buffer can hold.
    TooLarge { shape: Vec<usize> },
}

/// A dense row-major array with a shape; its buffer always holds exactly
/// `product(shape)` elements.
pub struct Tensor<T> {
    shape: Vec<usize>,
    data: Vec<T>,
}

impl<T> Tensor<T> {
    #[verifier::type_invariant]
    spec fn inv(&self) -> bool {
        self.data@.len() == product(self.shape@)
    }

    /// The shape.
    pub closed spec fn dims(&self) -> Seq<usize> {
        self.shape@
    }

    /// The elements in row-major order.
    pub closed spec fn elems(&self) -> Seq<T> {
        self.data@
    }

    /// Builds a tensor from a buffer and a shape; fails where the buffer's length is
    /// not the number of elements that the shape describes.
    pub fn new(data: Vec<T>, shape: Vec<usize>) -> (r: Result<Tensor<T>, TensorError>)
        ensures
            r is Ok <==> data@.len() == product(shape@),
            r matches Ok(t) ==> t.dims() == shape@ && t.elems() == data@,
            r matches Err(e) ==> e == (TensorError::LengthMismatch { len: data.len(), shape }),
    {
        match element_count(shape.as_slice()) {
            Some(n) => {
                if n == data.len() {
                    Ok(Tensor { shape, data })
                } else {
                    Err(TensorError::LengthMismatch { len: data.len(), shape })
                }
            },
            None => Err(TensorError::LengthMismatch { len: data.len(), shape }),
        }
    }

    /// The shape.
    pub fn shape(&self) -> (r: &[usize])
        ensures
            r@ == self.dims(),
            self.elems().len() == product(self.dims()),
    {
        proof { use_type_invariant(self); }
        self.shape.as_slice()
    }

    /// The elements in row-major order.
    pub fn data(&self) -> (r: &[T])
        ensures
            r@ == self.elems(),
            self.elems().len() == product(self.dims()),
    {
        proof { use_type_invariant(self); }
        self.data.as_slice()
    }
}

impl<T: Copy> Tensor<T> {
    /// A tensor of the given shape with every element `value`; fails where the shape
    /// describes more elements than a buffer can hold.
    pub fn filled(shape: &[usize], value: T) -> (r: Result<Tensor<T>, TensorError>)
        ensures
            r is Ok <==> product(shape@) <= usize::MAX,
            r matches Ok(t) ==> t.dims() == shape@ && t.elems().len() == product(shape@) && forall|i: int|
                0 <= i < t.elems().len() ==> t.elems()[i] == value,
            r matches Err(e) ==> (e matches TensorError::TooLarge { shape: s } && s@ == shape@),
    {
        match element_count(shape) {
            Some(n) => {
                let mut data: Vec<T> = Vec::with_capacity(n);
                let mut i: usize = 0;
                while i < n
                    invariant
                        i <= n,
                        data@.len() == i,
                        forall|j: int| 0 <= j < i ==> data@[j] == value,
                    decreases n - i,
                {
                    data.push(value);
                    i = i + 1;
                }
                Ok(Tensor { shape: copy_slice(shape), data })
            },
            None => Err(TensorError::TooLarge { shape: copy_slice(shape) }),
        }
    }

    /// A tensor of the given shape filled with the element arithmetic's zero.
    pub fn zeros<A: ScalarOps<T>>(ops: &A, shape: &[usize]) -> (r: Result<Tensor<T>, TensorError>)
        ensures
            r is Ok <==> product(shape@) <= usize::MAX,
            r matches Ok(t) ==> t.dims() == shape@ && t.elems().len() == product(shape@)
                && forall|i: int| 0 <= i < t.elems().len() ==> t.elems()[i] == ops.zero_spec(),
            r matches Err(e) ==> (e matches TensorError::TooLarge { shape: s } && s@ == shape@),
    {
        let z = ops.zero();
        Self::filled(shape, z)
    }

    /// An independent tensor with the same shape and elements.
    pub fn duplicate(&self) -> (r: Tensor<T>)
        ensures
            r.dims() == self.dims(),
            r.elems() == self.elems(),
    {
        proof { use_type_invariant(self); }
        Tensor { shape: copy_slice(self.shape.as_slice()), data: copy_slice(self.data.as_slice()) }
    }
}

} // verus!
