//! Shapes of dense row-major tensors.
use vstd::prelude::*;

verus! {

/// Number of elements described by a shape: the product of its dimensions.
pub open spec fn product(shape: Seq<usize>) -> nat
    decreases shape.len(),
{
    if shape.len() == 0 {
        1
    } else {
        product(shape.drop_last()) * (shape.last() as nat)
    }
}

/// A shape with a zero dimension describes no elements.
pub proof fn lemma_product_zero(shape: Seq<usize>, k: int)
    requires
        0 <= k < shape.len(),
        shape[k] == 0,
    ensures
        product(shape) == 0,
    decreases shape.len(),
{
    if k < shape.len() - 1 {
        lemma_product_zero(shape.drop_last(), k);
        assert(0 * (shape.last() as nat) == 0);
    } else {
        assert(product(shape.drop_last()) * 0 == 0);
    }
}

/// Without zero dimensions, the product never shrinks as dimensions are appended.
pub proof fn lemma_product_prefix_le(shape: Seq<usize>, i: int)
    requires
        0 <= i <= shape.len(),
        forall|k: int| 0 <= k < shape.len() ==> shape[k] > 0,
    ensures
        product(shape.subrange(0, i)) <= product(shape),
    decreases shape.len(),
{
    if i < shape.len() {
        let init = shape.drop_last();
        assert(shape.subrange(0, i) == init.subrange(0, i));
        lemma_product_prefix_le(init, i);
        assert(product(init) <= product(init) * (shape.last() as nat)) by (nonlinear_arith)
            requires shape.last() > 0;
    } else {
        assert(shape.subrange(0, i) == shape);
    }
}

/// The element count of `shape`, or `None` where it does not fit in `usize`.
pub fn element_count(shape: &[usize]) -> (r: Option<usize>)
    ensures
        match r {
            Some(n) => n as nat == product(shape@),
            None => product(shape@) > usize::MAX,
        },
{
    let mut z: usize = 0;
    while z < shape.len()
        invariant
            z <= shape.len(),
            forall|k: int| 0 <= k < z ==> shape@[k] > 0,
        decreases shape.len() - z,
    {
        if shape[z] == 0 {
            proof { lemma_product_zero(shape@, z as int); }
            return Some(0);
        }
        z = z + 1;
    }
    let mut acc: usize = 1;
    let mut i: usize = 0;
    while i < shape.len()
        invariant
            i <= shape.len(),
            forall|k: int| 0 <= k < shape.len() ==> shape@[k] > 0,
            acc as nat == product(shape@.subrange(0, i as int)),
        decreases shape.len() - i,
    {
        assert(shape@.subrange(0, i as int + 1).drop_last() == shape@.subrange(0, i as int));
        let d = shape[i];
        match acc.checked_mul(d) {
            Some(m) => {
                acc = m;
            },
            None => {
                proof { lemma_product_prefix_le(shape@, i as int + 1); }
                return None;
            },
        }
        i = i + 1;
    }
    assert(shape@.subrange(0, i as int) == shape@);
    Some(acc)
}

/// An owned copy of a slice.
pub fn copy_slice<T: Copy>(s: &[T]) -> (r: Vec<T>)
    ensures
        r@ == s@,
{
    let mut r: Vec<T> = Vec::with_capacity(s.len());
    let mut i: usize = 0;
    while i < s.len()
        invariant
            i <= s@.len(),
            r@ == s@.subrange(0, i as int),
        decreases s@.len() - i,
    {
        r.push(s[i]);
        i = i + 1;
    }
    assert(r@ == s@);
    r
}

/// Whether two shapes are equal.
pub fn same_shape(a: &[usize], b: &[usize]) -> (r: bool)
    ensures
        r == (a@ == b@),
{
    if a.len() != b.len() {
        return false;
    }
    let mut i: usize = 0;
    while i < a.len()
        invariant
            a@.len() == b@.len(),
            i <= a@.len(),
            forall|j: int| 0 <= j < i ==> a@[j] == b@[j],
        decreases a@.len() - i,
    {
        if a[i] != b[i] {
            return false;
        }
        i = i + 1;
    }
    assert(a@ =~= b@);
    true
}

/// A shape that holds a single value used as a scalar: `[]` or `[1]`.
pub open spec fn is_scalar_shape(s: Seq<usize>) -> bool {
    s.len() == 0 || (s.len() == 1 && s[0] == 1)
}

/// A scalar shape describes exactly one element.
pub proof fn lemma_scalar_product(s: Seq<usize>)
    requires
        is_scalar_shape(s),
    ensures
        product(s) == 1,
{
    if s.len() == 1 {
        assert(s.drop_last().len() == 0);
        assert(product(s.drop_last()) == 1);
    }
}

/// Whether a shape is `[]` or `[1]`.
pub fn scalar_shape(s: &[usize]) -> (r: bool)
    ensures
        r == is_scalar_shape(s@),
{
    s.len() == 0 || (s.len() == 1 && s[0] == 1)
}

} // verus!
