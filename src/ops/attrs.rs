//! Looking up node attributes by name.
use vstd::prelude::*;
use vstd::string::StringExecFns;
use crate::model::{AttributeProto, NodeProto};

verus! {

/// `i` is the position of the first attribute called `name`.
pub open spec fn is_first_named(attrs: Seq<AttributeProto>, name: Seq<char>, i: int) -> bool {
    &&& 0 <= i < attrs.len()
    &&& attrs[i].name@ == name
    &&& forall|j: int| 0 <= j < i ==> attrs[j].name@ != name
}

/// Some attribute is called `name`.
pub open spec fn has_attr(attrs: Seq<AttributeProto>, name: Seq<char>) -> bool {
    exists|i: int| 0 <= i < attrs.len() && attrs[i].name@ == name
}

/// The attribute that a lookup by `name` finds: the first one so called.
pub open spec fn named_attr(attrs: Seq<AttributeProto>, name: Seq<char>) -> Option<AttributeProto> {
    if has_attr(attrs, name) {
        Some(attrs[choose|i: int| is_first_named(attrs, name, i)])
    } else {
        None
    }
}

/// The first attribute with a name has a unique position.
pub proof fn lemma_first_named_unique(attrs: Seq<AttributeProto>, name: Seq<char>, i: int, k: int)
    requires
        is_first_named(attrs, name, i),
        is_first_named(attrs, name, k),
    ensures
        i == k,
{
}

/// Finds the position of the first attribute of `node` called `name`.
pub fn find_attribute(node: &NodeProto, name: &str) -> (r: Option<usize>)
    ensures
        r is Some <==> has_attr(node.attribute@, name@),
        r matches Some(i) ==> is_first_named(node.attribute@, name@, i as int)
            && named_attr(node.attribute@, name@) == Some(node.attribute@[i as int]),
        r is None ==> named_attr(node.attribute@, name@) is None,
{
    let key = String::from_str(name);
    let mut i: usize = 0;
    while i < node.attribute.len()
        invariant
            key@ == name@,
            i <= node.attribute@.len(),
            forall|j: int| 0 <= j < i ==> node.attribute@[j].name@ != name@,
        decreases node.attribute@.len() - i,
    {
        if node.attribute[i].name == key {
            proof {
                let attrs = node.attribute@;
                assert(is_first_named(attrs, name@, i as int));
                let k = choose|k: int| is_first_named(attrs, name@, k);
                lemma_first_named_unique(attrs, name@, i as int, k);
            }
            return Some(i);
        }
        i = i + 1;
    }
    None
}

} // verus!
