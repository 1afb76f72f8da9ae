//! The table from operator type names to operators.
use vstd::prelude::*;
use vstd::string::StringExecFns;
use crate::tensor::{Tensor, ScalarOps};
use crate::model::NodeProto;
use crate::table::Table;
use crate::ops::error::OpError;
use crate::ops::add::{Add, add_shape, add_elem};
use crate::ops::relu::Relu;
use crate::ops::conv::{Conv, ConvGeometry, conv_accepts, conv_out_shape, bias_dims, bias_values, conv_error_cause, conv_output_at, assembled, lemma_geometry_unique};
use crate::shape::{product, is_scalar_shape};

verus! {

/// The built-in operators.
#[derive(Clone, Copy, Debug, PartialEq, Eq, Structural)]
pub enum OpKind {
    Add,
    Relu,
    Conv,
}

/// The shape of an operator's result on operands of the given shapes, or none where
/// the operator refuses them.
pub open spec fn op_outcome(kind: OpKind, dims: Seq<Seq<usize>>, node: NodeProto) -> Option<Seq<usize>> {
    match kind {
        OpKind::Add => if dims.len() >= 2 {
            add_shape(dims[0], dims[1])
        } else {
            None
        },
        OpKind::Relu => if dims.len() >= 1 {
            Some(dims[0])
        } else {
            None
        },
        OpKind::Conv => {
            let bias = if dims.len() >= 3 {
                Some(dims[2])
            } else {
                None
            };
            if dims.len() >= 2 && conv_accepts(dims[0], dims[1], bias, node) {
                Some(conv_out_shape(dims[0], dims[1], node))
            } else {
                None
            }
        },
    }
}

/// The condition under which an operator reports the error `e` on operands of the
/// given shapes.
pub open spec fn op_error_cause(kind: OpKind, e: OpError, dims: Seq<Seq<usize>>, node: NodeProto) -> bool {
    match kind {
        OpKind::Add => if dims.len() < 2 {
            e == OpError::MissingOperand { needed: 2, got: dims.len() as usize }
        } else {
            e matches OpError::ShapeMismatch { left, right } && left@ == dims[0] && right@ == dims[1]
        },
        OpKind::Relu => e == OpError::MissingOperand { needed: 1, got: 0 },
        OpKind::Conv => if dims.len() < 2 {
            e == OpError::MissingOperand { needed: 2, got: dims.len() as usize }
        } else if dims[0].len() != 4 || dims[1].len() != 4 {
            e matches OpError::NotFourDimensional { input, weight } && input@ == dims[0] && weight@ == dims[1]
        } else {
            conv_error_cause(e, dims[0], dims[1], if dims.len() >= 3 {
                Some(dims[2])
            } else {
                None
            }, node)
        },
    }
}

/// The elements an operator produces on operands with the given shapes and elements,
/// where it accepts them.
pub open spec fn op_elems<T, A: ScalarOps<T>>(kind: OpKind, ops: &A, args: Seq<(Seq<usize>, Seq<T>)>, node: NodeProto) -> Seq<T> {
    match kind {
        OpKind::Add => {
            let (a, b) = (args[0], args[1]);
            let s = add_shape(a.0, b.0)->Some_0;
            Seq::new(product(s), |i: int| if a.0 == b.0 {
                ops.sum_spec(a.1[i], b.1[i])
            } else if is_scalar_shape(b.0) {
                ops.sum_spec(a.1[i], b.1[0])
            } else {
                ops.sum_spec(b.1[i], a.1[0])
            })
        },
        OpKind::Relu => args[0].1.map_values(|x: T| ops.relu_spec(x)),
        OpKind::Conv => {
            let g = choose|g: ConvGeometry| g.describes(args[0].0, args[1].0, node);
            let s = conv_out_shape(args[0].0, args[1].0, node);
            let bias = if args.len() >= 3 {
                Some(args[2].1)
            } else {
                None
            };
            Seq::new(product(s), |j: int| conv_output_at(ops, g, args[0].1, args[1].1, bias, j))
        },
    }
}

/// The shapes and elements of a list of tensors.
pub open spec fn views_of_all<T>(inputs: Seq<&Tensor<T>>) -> Seq<(Seq<usize>, Seq<T>)> {
    inputs.map_values(|t: &Tensor<T>| (t.dims(), t.elems()))
}

/// The shapes of a list of tensors.
pub open spec fn dims_of_all<T>(inputs: Seq<&Tensor<T>>) -> Seq<Seq<usize>> {
    inputs.map_values(|t: &Tensor<T>| t.dims())
}

impl OpKind {
    /// Runs the operator.
    pub fn run<T: Copy, A: ScalarOps<T>>(&self, ops: &A, inputs: &[&Tensor<T>], node: &NodeProto) -> (r: Result<Tensor<T>, OpError>)
        ensures
            r is Ok <==> op_outcome(*self, dims_of_all(inputs@), *node) is Some,
            r matches Ok(t) ==> Some(t.dims()) == op_outcome(*self, dims_of_all(inputs@), *node),
            r matches Err(e) ==> op_error_cause(*self, e, dims_of_all(inputs@), *node),
            r matches Ok(t) ==> t.elems() == op_elems(*self, ops, views_of_all(inputs@), *node),
    {
        match self {
            OpKind::Add => {
                let r = Add.run(ops, inputs, node);
                if let Ok(t) = &r {
                    assert(t.elems() =~= op_elems(*self, ops, views_of_all(inputs@), *node));
                }
                r
            },
            OpKind::Relu => {
                let r = Relu.run(ops, inputs, node);
                if let Ok(t) = &r {
                    assert(t.elems() =~= op_elems(*self, ops, views_of_all(inputs@), *node));
                }
                r
            },
            OpKind::Conv => {
                let r = Conv.run(ops, inputs, node);
                assert(bias_dims(inputs@) == (if inputs@.len() >= 3 {
                    Some(dims_of_all(inputs@)[2])
                } else {
                    None
                }));
                if let Ok(t) = &r {
                    let ghost x = inputs@[0].dims();
                    let ghost w = inputs@[1].dims();
                    proof {
                        let g0 = choose|g: ConvGeometry| #[trigger] g.describes(x, w, *node)
                            && assembled(ops, g, inputs@[0].elems(), inputs@[1].elems(), bias_values(inputs@), t.elems());
                        let g1 = choose|g: ConvGeometry| g.describes(x, w, *node);
                        lemma_geometry_unique(g0, g1, x, w, *node);
                    }
                    assert(t.elems() =~= op_elems(*self, ops, views_of_all(inputs@), *node));
                }
                r
            },
        }
    }
}

/// Operators by type name.
pub struct OpRegistry {
    ops: Table<OpKind>,
}

impl OpRegistry {
    /// The built-in operators by name.
    pub open spec fn new_spec() -> Map<Seq<char>, OpKind> {
        map!["Add"@ => OpKind::Add, "Relu"@ => OpKind::Relu, "Conv"@ => OpKind::Conv]
    }

    /// The operators by name.
    pub closed spec fn view(&self) -> Map<Seq<char>, OpKind> {
        self.ops@
    }

    /// A registry holding the built-in operators "Add", "Relu" and "Conv".
    pub fn new() -> (r: OpRegistry)
        ensures
            r@ == Self::new_spec(),
    {
        let mut registry = OpRegistry { ops: Table::new() };
        registry.register("Add", OpKind::Add);
        registry.register("Relu", OpKind::Relu);
        registry.register("Conv", OpKind::Conv);
        proof {
            reveal_strlit("Add");
            reveal_strlit("Relu");
            reveal_strlit("Conv");
        }
        assert(registry@ =~= map!["Add"@ => OpKind::Add, "Relu"@ => OpKind::Relu, "Conv"@ => OpKind::Conv]);
        registry
    }

    /// Binds `name` to `op`, replacing any earlier binding of the name.
    pub fn register(&mut self, name: &str, op: OpKind)
        ensures
            final(self)@ == old(self)@.insert(name@, op),
    {
        self.ops.insert(String::from_str(name), op);
    }

    /// The operator bound to `name`, if any.
    pub fn get(&self, name: &str) -> (r: Option<OpKind>)
        ensures
            r == (if self@.contains_key(name@) {
                Some(self@[name@])
            } else {
                None
            }),
    {
        match self.ops.get(name) {
            Some(k) => Some(*k),
            None => None,
        }
    }
}

} // verus!
