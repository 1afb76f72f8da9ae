//! The executable graph built from a decoded model.
use vstd::prelude::*;
use crate::tensor::{Tensor, ScalarOps};
use crate::model::{ModelLoader, NodeProto, ValueInfoProto, Dimension, TensorProto};
use crate::decode::{DecodeError, decodable, dims_of, elements_of, payload_of, reports_decode_failure};
use crate::table::Table;

verus! {

/// A declared graph input or output: its name and, where declared, its shape, each
/// dimension either bound to a size or left open.
pub struct DeclaredValue {
    pub name: String,
    pub shape: Option<Vec<Option<usize>>>,
}

/// The computation graph: nodes in execution order, named constant tensors, and the
/// declared inputs and outputs.
pub struct Graph<T> {
    pub nodes: Vec<NodeProto>,
    pub initializers: Table<Tensor<T>>,
    pub inputs: Vec<DeclaredValue>,
    pub outputs: Vec<DeclaredValue>,
}

/// Why a graph could not be built.
#[derive(Debug)]
pub enum GraphError {
    /// The model has no graph section.
    NoGraph,
    /// The initializer called `name` does not decode.
    Decode { name: String, error: DecodeError },
}

/// One declared dimension: its size where it is concrete, else open.
pub open spec fn dim_constraint(d: Dimension) -> Option<usize> {
    match d {
        Dimension::Value(v) => Some(v as usize),
        _ => None,
    }
}

/// The shape constraint that a declaration carries.
pub open spec fn constraint_of(vi: ValueInfoProto) -> Option<Seq<Option<usize>>> {
    match vi.shape {
        Some(d) => Some(d@.map_values(|x: Dimension| dim_constraint(x))),
        None => None,
    }
}

/// A declared value as the graph keeps it.
pub open spec fn declares(d: DeclaredValue, vi: ValueInfoProto) -> bool {
    &&& d.name == vi.name
    &&& match (d.shape, constraint_of(vi)) {
        (Some(s), Some(c)) => s@ == c,
        (None, None) => true,
        _ => false,
    }
}

/// The decoded initializers by name, as shape and elements, a later one replacing an
/// earlier one of the same name.
pub open spec fn initializer_values<T, A: ScalarOps<T>>(ops: &A, inits: Seq<TensorProto>) -> Map<Seq<char>, (Seq<usize>, Seq<T>)>
    decreases inits.len(),
{
    if inits.len() == 0 {
        Map::empty()
    } else {
        initializer_values(ops, inits.drop_last()).insert(
            inits.last().name@,
            (dims_of(inits.last()), elements_of(ops, payload_of(inits.last())->Some_0)),
        )
    }
}

/// The tensors of a table have the given shapes and elements, by name.
pub open spec fn tensors_match<T>(t: Map<Seq<char>, Tensor<T>>, s: Map<Seq<char>, (Seq<usize>, Seq<T>)>) -> bool {
    &&& t.dom() == s.dom()
    &&& forall|k: Seq<char>| #[trigger] t.contains_key(k) ==> t[k].dims() == s[k].0 && t[k].elems() == s[k].1
}

/// The tensors of a table have the given shapes, by name.
pub open spec fn shapes_match<T>(t: Map<Seq<char>, Tensor<T>>, s: Map<Seq<char>, Seq<usize>>) -> bool {
    &&& t.dom() == s.dom()
    &&& forall|k: Seq<char>| #[trigger] t.contains_key(k) ==> t[k].dims() == s[k]
}

fn declared_value(vi: &ValueInfoProto) -> (r: DeclaredValue)
    ensures
        declares(r, *vi),
{
    let shape = match &vi.shape {
        Some(dims) => {
            let mut s: Vec<Option<usize>> = Vec::with_capacity(dims.len());
            let mut i: usize = 0;
            while i < dims.len()
                invariant
                    i <= dims@.len(),
                    s@ == dims@.map_values(|x: Dimension| dim_constraint(x)).subrange(0, i as int),
                decreases dims@.len() - i,
            {
                let c = match &dims[i] {
                    Dimension::Value(v) => Some(*v as usize),
                    _ => None,
                };
                s.push(c);
                i = i + 1;
            }
            assert(s@ == dims@.map_values(|x: Dimension| dim_constraint(x)));
            Some(s)
        },
        None => None,
    };
    DeclaredValue { name: vi.name.clone(), shape }
}

fn declared_values(vis: &Vec<ValueInfoProto>) -> (r: Vec<DeclaredValue>)
    ensures
        r@.len() == vis@.len(),
        forall|i: int| 0 <= i < vis@.len() ==> declares(#[trigger] r@[i], vis@[i]),
{
    let mut r: Vec<DeclaredValue> = Vec::with_capacity(vis.len());
    let mut i: usize = 0;
    while i < vis.len()
        invariant
            i <= vis@.len(),
            r@.len() == i,
            forall|j: int| 0 <= j < i ==> declares(#[trigger] r@[j], vis@[j]),
        decreases vis@.len() - i,
    {
        r.push(declared_value(&vis[i]));
        i = i + 1;
    }
    r
}

impl<T> Graph<T> {
    /// Builds the graph of a model: decodes every initializer (a later one replacing
    /// an earlier one of the same name), keeps the declared inputs and outputs in
    /// order, and copies the nodes in order.
    pub fn from_model<A: ScalarOps<T>>(model: &ModelLoader, ops: &A) -> (r: Result<Graph<T>, GraphError>)
        ensures
            model.model.graph is None ==> r matches Err(GraphError::NoGraph),
            model.model.graph matches Some(g) ==> (r is Ok <==> forall|i: int|
                0 <= i < g.initializer@.len() ==> decodable(#[trigger] g.initializer@[i])),
            model.model.graph matches Some(g) ==> (r matches Err(e) ==> exists|i: int|
                0 <= i < g.initializer@.len() && !decodable(#[trigger] g.initializer@[i]) && (
                e matches GraphError::Decode { name, error } && name == g.initializer@[i].name
                && reports_decode_failure(error, g.initializer@[i]))),
            model.model.graph matches Some(g) ==> (r matches Ok(gr) ==> {
                &&& tensors_match(gr.initializers@, initializer_values(ops, g.initializer@))
                &&& gr.nodes@.len() == g.node@.len()
                &&& forall|i: int| 0 <= i < g.node@.len() ==> (#[trigger] gr.nodes@[i]).same(&g.node@[i])
                &&& gr.inputs@.len() == g.input@.len()
                &&& forall|i: int| 0 <= i < g.input@.len() ==> declares(#[trigger] gr.inputs@[i], g.input@[i])
                &&& gr.outputs@.len() == g.output@.len()
                &&& forall|i: int| 0 <= i < g.output@.len() ==> declares(#[trigger] gr.outputs@[i], g.output@[i])
            }),
    {
        let g = match &model.model.graph {
            Some(g) => g,
            None => {
                return Err(GraphError::NoGraph);
            },
        };
        let mut inits: Table<Tensor<T>> = Table::new();
        let mut i: usize = 0;
        while i < g.initializer.len()
            invariant
                model.model.graph == Some(*g),
                i <= g.initializer@.len(),
                forall|j: int| 0 <= j < i ==> decodable(#[trigger] g.initializer@[j]),
                tensors_match(inits@, initializer_values(ops, g.initializer@.subrange(0, i as int))),
            decreases g.initializer@.len() - i,
        {
            let init = &g.initializer[i];
            match Tensor::from_proto(ops, init) {
                Ok(t) => {
                    proof {
                        let pre = g.initializer@.subrange(0, i as int + 1);
                        assert(pre.drop_last() == g.initializer@.subrange(0, i as int));
                    }
                    inits.insert(init.name.clone(), t);
                    assert(inits@.dom() =~= initializer_values(ops, g.initializer@.subrange(0, i as int + 1)).dom());
                },
                Err(error) => {
                    assert(!decodable(g.initializer@[i as int]));
                    assert(model.model.graph matches Some(gg) && gg.initializer@ == g.initializer@);
                    return Err(GraphError::Decode { name: init.name.clone(), error });
                },
            }
            i = i + 1;
        }
        assert(g.initializer@.subrange(0, i as int) == g.initializer@);
        let inputs = declared_values(&g.input);
        let outputs = declared_values(&g.output);
        let mut nodes: Vec<NodeProto> = Vec::with_capacity(g.node.len());
        let mut k: usize = 0;
        while k < g.node.len()
            invariant
                k <= g.node@.len(),
                nodes@.len() == k,
                forall|j: int| 0 <= j < k ==> (#[trigger] nodes@[j]).same(&g.node@[j]),
            decreases g.node@.len() - k,
        {
            nodes.push(g.node[k].duplicate());
            k = k + 1;
        }
        Ok(Graph { nodes, initializers: inits, inputs, outputs })
    }
}

} // verus!
