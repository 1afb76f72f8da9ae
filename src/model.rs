//! Decoded model descriptors: the plain values that a schema decoder hands over.
use vstd::prelude::*;
use crate::shape::copy_slice;

verus! {

/// A named attribute of a node; the field that matters depends on the attribute.
pub struct AttributeProto {
    pub name: String,
    pub i: i64,
    pub ints: Vec<i64>,
    pub s: Vec<u8>,
}

/// One operation of a graph.
pub struct NodeProto {
    pub op_type: String,
    pub name: String,
    pub input: Vec<String>,
    pub output: Vec<String>,
    pub attribute: Vec<AttributeProto>,
}

/// One dimension of a declared tensor shape.
pub enum Dimension {
    /// A concrete size.
    Value(i64),
    /// A symbolic size, such as "batch".
    Param(String),
    /// Nothing recorded.
    Unset,
}

/// A declared graph input or output: its name and, where recorded, its shape.
pub struct ValueInfoProto {
    pub name: String,
    pub shape: Option<Vec<Dimension>>,
}

/// A constant tensor: its dimensions, element type code and payload, given either as
/// little-endian bytes or as a typed list (floating-point values by their bits).
pub struct TensorProto {
    pub name: String,
    pub dims: Vec<i64>,
    pub data_type: i32,
    pub raw_data: Vec<u8>,
    pub float_data: Vec<u32>,
    pub double_data: Vec<u64>,
    pub int32_data: Vec<i32>,
    pub int64_data: Vec<i64>,
}

/// The graph section of a model.
pub struct GraphProto {
    pub node: Vec<NodeProto>,
    pub initializer: Vec<TensorProto>,
    pub input: Vec<ValueInfoProto>,
    pub output: Vec<ValueInfoProto>,
}

/// A decoded model.
pub struct ModelProto {
    pub graph: Option<GraphProto>,
}

/// A model as loaded for execution.
pub struct ModelLoader {
    pub model: ModelProto,
}

/// Element type code of 32-bit floats.
pub const FLOAT: i32 = 1;

/// Element type code of 32-bit signed integers.
pub const INT32: i32 = 6;

/// Element type code of 64-bit signed integers.
pub const INT64: i32 = 7;

/// Element type code of 64-bit floats.
pub const DOUBLE: i32 = 11;

/// An owned copy of a list of strings.
pub fn copy_strings(v: &Vec<String>) -> (r: Vec<String>)
    ensures
        r@ == v@,
{
    let mut r: Vec<String> = Vec::with_capacity(v.len());
    let mut i: usize = 0;
    while i < v.len()
        invariant
            i <= v@.len(),
            r@ == v@.subrange(0, i as int),
        decreases v@.len() - i,
    {
        r.push(v[i].clone());
        i = i + 1;
    }
    assert(r@ == v@);
    r
}

impl AttributeProto {
    /// Two attributes hold the same name and values.
    pub open spec fn same(&self, o: &AttributeProto) -> bool {
        self.name == o.name && self.i == o.i && self.ints@ == o.ints@ && self.s@ == o.s@
    }

    /// An independent copy.
    pub fn duplicate(&self) -> (r: AttributeProto)
        ensures
            r.same(self),
    {
        let r = AttributeProto {
            name: self.name.clone(),
            i: self.i,
            ints: copy_slice(self.ints.as_slice()),
            s: copy_slice(self.s.as_slice()),
        };
        r
    }
}

impl NodeProto {
    /// Two nodes hold the same operator, names and attributes.
    pub open spec fn same(&self, o: &NodeProto) -> bool {
        &&& self.op_type == o.op_type
        &&& self.name == o.name
        &&& self.input@ == o.input@
        &&& self.output@ == o.output@
        &&& self.attribute@.len() == o.attribute@.len()
        &&& forall|k: int| 0 <= k < self.attribute@.len() ==> (#[trigger] self.attribute@[k]).same(&o.attribute@[k])
    }

    /// An independent copy.
    pub fn duplicate(&self) -> (r: NodeProto)
        ensures
            r.same(self),
    {
        let mut attrs: Vec<AttributeProto> = Vec::with_capacity(self.attribute.len());
        let mut i: usize = 0;
        while i < self.attribute.len()
            invariant
                i <= self.attribute@.len(),
                attrs@.len() == i,
                forall|k: int| 0 <= k < i ==> (#[trigger] attrs@[k]).same(&self.attribute@[k]),
            decreases self.attribute@.len() - i,
        {
            attrs.push(self.attribute[i].duplicate());
            i = i + 1;
        }
        let r = NodeProto {
            op_type: self.op_type.clone(),
            name: self.name.clone(),
            input: copy_strings(&self.input),
            output: copy_strings(&self.output),
            attribute: attrs,
        };
        r
    }
}

} // verus!
