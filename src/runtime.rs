//! Inference sessions: input validation and graph execution.
use vstd::prelude::*;
use crate::tensor::{Tensor, ScalarOps};
use crate::model::NodeProto;
use crate::graph::{Graph, DeclaredValue, shapes_match, tensors_match};
use crate::table::Table;
use crate::ops::error::OpError;
use crate::ops::registry::{OpRegistry, OpKind, op_outcome, op_elems, op_error_cause, dims_of_all, views_of_all};

verus! {

/// Why a session could not be created or a run failed.
#[derive(Debug)]
pub enum SessionError {
    /// The graph declares `count` runtime inputs where exactly one is supported.
    UnsupportedInputCount { count: usize },
    /// No runtime tensor was given for the input slot `index`.
    MissingInput { index: usize },
    /// The tensor for input `name` has `actual` dimensions where `expected` are declared.
    RankMismatch { name: String, expected: usize, actual: usize },
    /// Dimension `dim` of the tensor for input `name` is `actual` where `expected` is declared.
    DimensionMismatch { name: String, dim: usize, expected: usize, actual: usize },
    /// Node `node` reads `value`, which no input, earlier node or initializer provides.
    MissingValue { value: String, node: String },
    /// No operator is registered for `op_type`.
    UnsupportedOperator { op_type: String },
    /// An operator refused its operands.
    Operator(OpError),
    /// No node produced the declared output `name`.
    OutputNotProduced { name: String },
}

/// The first failure of a run, in terms of names and positions.
pub enum Failure {
    MissingInput(nat),
    Rank(Seq<char>, nat, nat),
    Dim(Seq<char>, nat, nat, nat),
    MissingValue(Seq<char>, Seq<char>),
    Unsupported(Seq<char>),
    /// The operator of `node` refused operands of these shapes.
    OpFailed(OpKind, Seq<Seq<usize>>, NodeProto),
    MissingOutput(Seq<char>),
}

/// `e` reports the failure `f`.
pub open spec fn reports(e: SessionError, f: Failure) -> bool {
    match (e, f) {
        (SessionError::MissingInput { index }, Failure::MissingInput(i)) => index == i,
        (SessionError::RankMismatch { name, expected, actual }, Failure::Rank(n, x, a)) => name@
            == n && expected == x && actual == a,
        (SessionError::DimensionMismatch { name, dim, expected, actual }, Failure::Dim(n, d, x, a)) => name@
            == n && dim == d && expected == x && actual == a,
        (SessionError::MissingValue { value, node }, Failure::MissingValue(v, n)) => value@ == v
            && node@ == n,
        (SessionError::UnsupportedOperator { op_type }, Failure::Unsupported(o)) => op_type@ == o,
        (SessionError::Operator(inner), Failure::OpFailed(kind, dims, node)) => op_error_cause(
            kind,
            inner,
            dims,
            node,
        ),
        (SessionError::OutputNotProduced { name }, Failure::MissingOutput(n)) => name@ == n,
        _ => false,
    }
}

/// Number of declared inputs that are not initializers.
pub open spec fn runtime_input_count(decl: Seq<DeclaredValue>, weights: Set<Seq<char>>) -> nat
    decreases decl.len(),
{
    if decl.len() == 0 {
        0
    } else {
        runtime_input_count(decl.drop_last(), weights) + if weights.contains(decl.last().name@) {
            0nat
        } else {
            1nat
        }
    }
}

/// The first dimension at which a runtime shape breaks a declared constraint of the same rank.
pub open spec fn first_bad_dim(c: Seq<Option<usize>>, s: Seq<usize>) -> Option<nat>
    decreases c.len(),
{
    if c.len() == 0 {
        None
    } else {
        match first_bad_dim(c.drop_last(), s) {
            Some(j) => Some(j),
            None => if c.last() matches Some(v) && v != s[c.len() - 1] {
                Some((c.len() - 1) as nat)
            } else {
                None
            },
        }
    }
}

proof fn lemma_first_bad_dim_prefix(c: Seq<Option<usize>>, s: Seq<usize>, k: int)
    requires
        0 <= k <= c.len(),
        first_bad_dim(c.subrange(0, k), s) is Some,
    ensures
        first_bad_dim(c, s) == first_bad_dim(c.subrange(0, k), s),
    decreases c.len(),
{
    if k < c.len() {
        assert(c.drop_last().subrange(0, k) == c.subrange(0, k));
        lemma_first_bad_dim_prefix(c.drop_last(), s, k);
    } else {
        assert(c.subrange(0, k) == c);
    }
}

/// How a runtime shape fails the declaration `d`, if it does.
pub open spec fn shape_failure(d: DeclaredValue, s: Seq<usize>) -> Option<Failure> {
    match d.shape {
        None => None,
        Some(c) => if c@.len() != s.len() {
            Some(Failure::Rank(d.name@, c@.len(), s.len()))
        } else {
            match first_bad_dim(c@, s) {
                Some(j) => Some(Failure::Dim(d.name@, j, c@[j as int]->Some_0 as nat, s[j as int] as nat)),
                None => None,
            }
        },
    }
}

/// Validation of runtime input shapes against the declared inputs: the slots used and
/// either the shapes bound by name or the first failure. Declared inputs that are
/// initializers take no slot.
pub open spec fn validation(decl: Seq<DeclaredValue>, weights: Set<Seq<char>>, shapes: Seq<Seq<usize>>) -> (nat, Result<Map<Seq<char>, Seq<usize>>, Failure>)
    decreases decl.len(),
{
    if decl.len() == 0 {
        (0, Ok(Map::empty()))
    } else {
        let (used, prev) = validation(decl.drop_last(), weights, shapes);
        let d = decl.last();
        match prev {
            Err(f) => (used, Err(f)),
            Ok(env) => if weights.contains(d.name@) {
                (used, Ok(env))
            } else if used >= shapes.len() {
                (used, Err(Failure::MissingInput(used)))
            } else {
                match shape_failure(d, shapes[used as int]) {
                    Some(f) => (used + 1, Err(f)),
                    None => (used + 1, Ok(env.insert(d.name@, shapes[used as int]))),
                }
            },
        }
    }
}

/// A tensor as the run model sees it: its shape and its elements.
pub type TensorView<T> = (Seq<usize>, Seq<T>);

/// The shapes and elements of a list of tensors.
pub open spec fn views_of<T>(ts: Seq<Tensor<T>>) -> Seq<TensorView<T>> {
    ts.map_values(|t: Tensor<T>| (t.dims(), t.elems()))
}

/// A node's inputs, looked up first among the computed values and then among the
/// initializers, or the first name found in neither.
pub open spec fn resolve<T>(env: Map<Seq<char>, TensorView<T>>, weights: Map<Seq<char>, TensorView<T>>, names: Seq<String>) -> Result<Seq<TensorView<T>>, Seq<char>>
    decreases names.len(),
{
    if names.len() == 0 {
        Ok(Seq::empty())
    } else {
        match resolve(env, weights, names.drop_last()) {
            Err(n) => Err(n),
            Ok(ds) => {
                let n = names.last()@;
                if env.contains_key(n) {
                    Ok(ds.push(env[n]))
                } else if weights.contains_key(n) {
                    Ok(ds.push(weights[n]))
                } else {
                    Err(n)
                }
            },
        }
    }
}

/// One node's effect on the computed values: its operator runs on the resolved
/// inputs and the result is bound to the node's first output name.
pub open spec fn step<T, A: ScalarOps<T>>(ops: &A, env: Map<Seq<char>, TensorView<T>>, weights: Map<Seq<char>, TensorView<T>>, reg: Map<Seq<char>, OpKind>, node: NodeProto) -> Result<Map<Seq<char>, TensorView<T>>, Failure> {
    match resolve(env, weights, node.input@) {
        Err(n) => Err(Failure::MissingValue(n, node.name@)),
        Ok(vs) => if !reg.contains_key(node.op_type@) {
            Err(Failure::Unsupported(node.op_type@))
        } else {
            let kind = reg[node.op_type@];
            let ds = vs.map_values(|v: TensorView<T>| v.0);
            match op_outcome(kind, ds, node) {
                None => Err(Failure::OpFailed(kind, ds, node)),
                Some(s) => Ok(if node.output@.len() > 0 {
                    env.insert(node.output@[0]@, (s, op_elems(kind, ops, vs, node)))
                } else {
                    env
                }),
            }
        },
    }
}

/// The runtime slot that each declared input takes, by name: the declared inputs that
/// are not initializers take slots 0, 1, ... in order; also the number of slots taken.
pub open spec fn input_slots(decl: Seq<DeclaredValue>, weights: Set<Seq<char>>) -> (nat, Map<Seq<char>, nat>)
    decreases decl.len(),
{
    if decl.len() == 0 {
        (0, Map::empty())
    } else {
        let (used, m) = input_slots(decl.drop_last(), weights);
        if weights.contains(decl.last().name@) {
            (used, m)
        } else {
            (used + 1, m.insert(decl.last().name@, used))
        }
    }
}

/// Each name of `env` is bound to a copy of the runtime tensor in its slot.
pub open spec fn bound_to_slots<T>(env: Map<Seq<char>, Tensor<T>>, slots: Map<Seq<char>, nat>, inputs: Seq<Tensor<T>>) -> bool {
    &&& env.dom() == slots.dom()
    &&& forall|k: Seq<char>| #[trigger] env.contains_key(k) ==> slots[k] < inputs.len() && env[k].dims()
        == inputs[slots[k] as int].dims() && env[k].elems() == inputs[slots[k] as int].elems()
}

/// Once validation has failed on a prefix of the declarations, the failure stands.
proof fn lemma_validation_stops(decl: Seq<DeclaredValue>, weights: Set<Seq<char>>, shapes: Seq<Seq<usize>>, k: int)
    requires
        0 <= k <= decl.len(),
        validation(decl.subrange(0, k), weights, shapes).1 is Err,
    ensures
        validation(decl, weights, shapes).1 == validation(decl.subrange(0, k), weights, shapes).1,
    decreases decl.len(),
{
    if k < decl.len() {
        assert(decl.drop_last().subrange(0, k) == decl.subrange(0, k));
        lemma_validation_stops(decl.drop_last(), weights, shapes, k);
    } else {
        assert(decl.subrange(0, k) == decl);
    }
}

/// The nodes run in order from the computed values `env`.
pub open spec fn walk<T, A: ScalarOps<T>>(ops: &A, nodes: Seq<NodeProto>, env: Map<Seq<char>, TensorView<T>>, weights: Map<Seq<char>, TensorView<T>>, reg: Map<Seq<char>, OpKind>) -> Result<Map<Seq<char>, TensorView<T>>, Failure>
    decreases nodes.len(),
{
    if nodes.len() == 0 {
        Ok(env)
    } else {
        match walk(ops, nodes.drop_last(), env, weights, reg) {
            Err(f) => Err(f),
            Ok(e) => step(ops, e, weights, reg, nodes.last()),
        }
    }
}

/// Once the walk has failed on a prefix of the nodes, the failure stands.
proof fn lemma_walk_stops<T, A: ScalarOps<T>>(ops: &A, nodes: Seq<NodeProto>, env: Map<Seq<char>, TensorView<T>>, weights: Map<Seq<char>, TensorView<T>>, reg: Map<Seq<char>, OpKind>, k: int)
    requires
        0 <= k <= nodes.len(),
        walk(ops, nodes.subrange(0, k), env, weights, reg) is Err,
    ensures
        walk(ops, nodes, env, weights, reg) == walk(ops, nodes.subrange(0, k), env, weights, reg),
    decreases nodes.len(),
{
    if k < nodes.len() {
        assert(nodes.drop_last().subrange(0, k) == nodes.subrange(0, k));
        lemma_walk_stops(ops, nodes.drop_last(), env, weights, reg, k);
    } else {
        assert(nodes.subrange(0, k) == nodes);
    }
}

/// Once input resolution has failed on a prefix of the names, the failure stands.
proof fn lemma_resolve_stops<T>(env: Map<Seq<char>, TensorView<T>>, weights: Map<Seq<char>, TensorView<T>>, names: Seq<String>, k: int)
    requires
        0 <= k <= names.len(),
        resolve(env, weights, names.subrange(0, k)) is Err,
    ensures
        resolve(env, weights, names) == resolve(env, weights, names.subrange(0, k)),
    decreases names.len(),
{
    if k < names.len() {
        assert(names.drop_last().subrange(0, k) == names.subrange(0, k));
        lemma_resolve_stops(env, weights, names.drop_last(), k);
    } else {
        assert(names.subrange(0, k) == names);
    }
}

/// The values of the declared outputs, or the first one not computed.
pub open spec fn collect<T>(env: Map<Seq<char>, TensorView<T>>, outs: Seq<DeclaredValue>) -> Result<Seq<TensorView<T>>, Failure>
    decreases outs.len(),
{
    if outs.len() == 0 {
        Ok(Seq::empty())
    } else {
        match collect(env, outs.drop_last()) {
            Err(f) => Err(f),
            Ok(ds) => if env.contains_key(outs.last().name@) {
                Ok(ds.push(env[outs.last().name@]))
            } else {
                Err(Failure::MissingOutput(outs.last().name@))
            },
        }
    }
}

/// Once collecting has failed on a prefix of the outputs, the failure stands.
proof fn lemma_collect_stops<T>(env: Map<Seq<char>, TensorView<T>>, outs: Seq<DeclaredValue>, k: int)
    requires
        0 <= k <= outs.len(),
        collect(env, outs.subrange(0, k)) is Err,
    ensures
        collect(env, outs) == collect(env, outs.subrange(0, k)),
    decreases outs.len(),
{
    if k < outs.len() {
        assert(outs.drop_last().subrange(0, k) == outs.subrange(0, k));
        lemma_collect_stops(env, outs.drop_last(), k);
    } else {
        assert(outs.subrange(0, k) == outs);
    }
}

/// The initializers by name, as shapes and elements.
pub open spec fn weight_views<T>(g: Graph<T>) -> Map<Seq<char>, TensorView<T>> {
    g.initializers@.map_values(|t: Tensor<T>| (t.dims(), t.elems()))
}

/// The values that validation binds: each runtime input's name to the tensor in its slot.
pub open spec fn seed_views<T>(g: Graph<T>, inputs: Seq<Tensor<T>>) -> Map<Seq<char>, TensorView<T>> {
    input_slots(g.inputs@, g.initializers@.dom()).1.map_values(|j: nat| if j < inputs.len() {
        (inputs[j as int].dims(), inputs[j as int].elems())
    } else {
        (Seq::empty(), Seq::empty())
    })
}

/// What a run gives: the outputs' shapes and elements in declared order, or the first
/// failure.
pub open spec fn run_outcome<T, A: ScalarOps<T>>(ops: &A, g: Graph<T>, reg: Map<Seq<char>, OpKind>, inputs: Seq<Tensor<T>>) -> Result<Seq<TensorView<T>>, Failure> {
    match validation(g.inputs@, g.initializers@.dom(), shapes_of(inputs)).1 {
        Err(f) => Err(f),
        Ok(_) => match walk(ops, g.nodes@, seed_views(g, inputs), weight_views(g), reg) {
            Err(f) => Err(f),
            Ok(fin) => collect(fin, g.outputs@),
        },
    }
}

/// With no runtime input declared, validation binds nothing and uses no slot.
proof fn lemma_validation_without_runtime_inputs(decl: Seq<DeclaredValue>, weights: Set<Seq<char>>, shapes: Seq<Seq<usize>>)
    requires
        runtime_input_count(decl, weights) == 0,
    ensures
        validation(decl, weights, shapes) == (0nat, Ok::<Map<Seq<char>, Seq<usize>>, Failure>(Map::empty())),
    decreases decl.len(),
{
    if decl.len() > 0 {
        lemma_validation_without_runtime_inputs(decl.drop_last(), weights, shapes);
    }
}

/// Given no runtime tensors, validation of declarations that include a runtime input
/// fails for the first slot.
pub proof fn lemma_no_tensors_missing_input(decl: Seq<DeclaredValue>, weights: Set<Seq<char>>)
    requires
        runtime_input_count(decl, weights) >= 1,
    ensures
        validation(decl, weights, Seq::empty()).1 == Err::<Map<Seq<char>, Seq<usize>>, Failure>(Failure::MissingInput(0)),
    decreases decl.len(),
{
    let init = decl.drop_last();
    if runtime_input_count(init, weights) >= 1 {
        lemma_no_tensors_missing_input(init, weights);
    } else {
        lemma_validation_without_runtime_inputs(init, weights, Seq::empty());
    }
}

/// A session's run on no tensors fails for the missing first input: a session's
/// graph always declares a runtime input.
pub proof fn lemma_run_without_tensors<T, A: ScalarOps<T>>(ops: &A, g: Graph<T>, reg: Map<Seq<char>, OpKind>)
    requires
        runtime_input_count(g.inputs@, g.initializers@.dom()) == 1,
    ensures
        run_outcome(ops, g, reg, Seq::empty()) == Err::<Seq<TensorView<T>>, Failure>(Failure::MissingInput(0)),
{
    lemma_no_tensors_missing_input(g.inputs@, g.initializers@.dom());
    assert(shapes_of(Seq::<Tensor<T>>::empty()) =~= Seq::<Seq<usize>>::empty());
}

/// Runs of one session on inputs with the same shapes and elements have the same
/// outcome: outputs with the same shapes and elements, or the same failure. No state
/// carries over from one run to the next, since `run` reads the session only.
pub proof fn lemma_runs_deterministic<T, A: ScalarOps<T>>(ops: &A, g: Graph<T>, reg: Map<Seq<char>, OpKind>, a: Seq<Tensor<T>>, b: Seq<Tensor<T>>)
    requires
        views_of(a) == views_of(b),
    ensures
        run_outcome(ops, g, reg, a) == run_outcome(ops, g, reg, b),
{
    assert(a.len() == views_of(a).len());
    assert forall|i: int| 0 <= i < a.len() implies a[i].dims() == b[i].dims() && a[i].elems() == b[i].elems() by {
        assert(views_of(a)[i] == views_of(b)[i]);
    }
    assert(shapes_of(a) =~= shapes_of(b));
    assert(seed_views(g, a) =~= seed_views(g, b));
}

/// The shapes of a list of tensors.
pub open spec fn shapes_of<T>(ts: Seq<Tensor<T>>) -> Seq<Seq<usize>> {
    ts.map_values(|t: Tensor<T>| t.dims())
}

/// A graph with its operator registry, ready to run.
pub struct InferenceSession<T> {
    pub graph: Graph<T>,
    pub registry: OpRegistry,
}

/// How a tensor fails a declared input, if it does.
fn check_shape<T>(d: &DeclaredValue, t: &Tensor<T>) -> (r: Result<(), SessionError>)
    ensures
        match shape_failure(*d, t.dims()) {
            None => r is Ok,
            Some(f) => r matches Err(e) && reports(e, f),
        },
{
    let c = match &d.shape {
        Some(c) => c,
        None => {
            return Ok(());
        },
    };
    let s = t.shape();
    if c.len() != s.len() {
        return Err(SessionError::RankMismatch { name: d.name.clone(), expected: c.len(), actual: s.len() });
    }
    let mut j: usize = 0;
    while j < c.len()
        invariant
            d.shape == Some(*c),
            s@ == t.dims(),
            c@.len() == s@.len(),
            j <= c@.len(),
            first_bad_dim(c@.subrange(0, j as int), s@) is None,
        decreases c@.len() - j,
    {
        assert(c@.subrange(0, j as int + 1).drop_last() == c@.subrange(0, j as int));
        match c[j] {
            Some(v) => {
                if v != s[j] {
                    proof {
                        let pre = c@.subrange(0, j as int + 1);
                        assert(pre.last() == c@[j as int]);
                        assert(first_bad_dim(pre, s@) == Some(j as nat));
                        lemma_first_bad_dim_prefix(c@, s@, j as int + 1);
                    }
                    return Err(SessionError::DimensionMismatch { name: d.name.clone(), dim: j, expected: v, actual: s[j] });
                }
            },
            None => {},
        }
        j = j + 1;
    }
    assert(c@.subrange(0, j as int) == c@);
    Ok(())
}

impl<T: Copy> InferenceSession<T> {
    /// A session for `graph` with the built-in operators; the graph must declare
    /// exactly one runtime input (a declared input that is not an initializer).
    pub fn new(graph: Graph<T>) -> (r: Result<InferenceSession<T>, SessionError>)
        ensures
            r is Ok <==> runtime_input_count(graph.inputs@, graph.initializers@.dom()) == 1,
            r matches Err(e) ==> (e matches SessionError::UnsupportedInputCount { count }
                && count == runtime_input_count(graph.inputs@, graph.initializers@.dom())),
            r matches Ok(s) ==> s.graph == graph && s.registry@ == OpRegistry::new_spec(),
    {
        let mut count: usize = 0;
        let mut i: usize = 0;
        while i < graph.inputs.len()
            invariant
                i <= graph.inputs@.len(),
                count == runtime_input_count(graph.inputs@.subrange(0, i as int), graph.initializers@.dom()),
                count <= i,
            decreases graph.inputs@.len() - i,
        {
            assert(graph.inputs@.subrange(0, i as int + 1).drop_last() == graph.inputs@.subrange(0, i as int));
            if !graph.initializers.contains(graph.inputs[i].name.as_str()) {
                count = count + 1;
            }
            i = i + 1;
        }
        assert(graph.inputs@.subrange(0, i as int) == graph.inputs@);
        if count != 1 {
            return Err(SessionError::UnsupportedInputCount { count });
        }
        Ok(InferenceSession { graph, registry: OpRegistry::new() })
    }

    /// Binds the runtime tensors to the declared inputs, in order, skipping declared
    /// inputs that are initializers; each tensor must meet its declaration's shape,
    /// where one is declared.
    pub fn validate_inputs(&self, inputs: &[Tensor<T>]) -> (r: Result<Table<Tensor<T>>, SessionError>)
        ensures
            match validation(self.graph.inputs@, self.graph.initializers@.dom(), shapes_of(inputs@)).1 {
                Ok(m) => r matches Ok(env) && shapes_match(env@, m) && bound_to_slots(
                    env@,
                    input_slots(self.graph.inputs@, self.graph.initializers@.dom()).1,
                    inputs@,
                ),
                Err(f) => r matches Err(e) && reports(e, f),
            },
    {
        let decl = &self.graph.inputs;
        let ghost weights = self.graph.initializers@.dom();
        let ghost shapes = shapes_of(inputs@);
        let mut values: Table<Tensor<T>> = Table::new();
        let mut used: usize = 0;
        let mut i: usize = 0;
        let ghost mut m: Map<Seq<char>, Seq<usize>> = Map::empty();
        while i < decl.len()
            invariant
                decl == &self.graph.inputs,
                weights == self.graph.initializers@.dom(),
                shapes == shapes_of(inputs@),
                i <= decl@.len(),
                validation(decl@.subrange(0, i as int), weights, shapes) == (used as nat, Ok::<Map<Seq<char>, Seq<usize>>, Failure>(m)),
                shapes_match(values@, m),
                used <= i,
                input_slots(decl@.subrange(0, i as int), weights).0 == used,
                bound_to_slots(values@, input_slots(decl@.subrange(0, i as int), weights).1, inputs@),
            decreases decl@.len() - i,
        {
            let d = &decl[i];
            proof {
                assert(decl@.subrange(0, i as int + 1).drop_last() == decl@.subrange(0, i as int));
            }
            if !self.graph.initializers.contains(d.name.as_str()) {
                if used >= inputs.len() {
                    proof {
                        lemma_validation_stops(decl@, weights, shapes, i as int + 1);
                    }
                    return Err(SessionError::MissingInput { index: used });
                }
                let t = &inputs[used];
                match check_shape(d, t) {
                    Ok(()) => {},
                    Err(e) => {
                        proof {
                            lemma_validation_stops(decl@, weights, shapes, i as int + 1);
                        }
                        return Err(e);
                    },
                }
                values.insert(d.name.clone(), t.duplicate());
                proof {
                    m = m.insert(d.name@, shapes[used as int]);
                    assert(values@.dom() =~= m.dom());
                    assert(values@.dom() =~= input_slots(decl@.subrange(0, i as int + 1), weights).1.dom());
                }
                used = used + 1;
            }
            i = i + 1;
        }
        assert(decl@.subrange(0, i as int) == decl@);
        Ok(values)
    }

    /// Runs the graph on the runtime inputs: validates them, runs every node in
    /// order, and returns the declared outputs in declared order. The first failure
    /// ends the run.
    pub fn run<A: ScalarOps<T>>(&self, ops: &A, inputs: &[Tensor<T>]) -> (r: Result<Vec<Tensor<T>>, SessionError>)
        ensures
            match run_outcome(ops, self.graph, self.registry@, inputs@) {
                Ok(vs) => r matches Ok(v) && views_of(v@) == vs,
                Err(f) => r matches Err(e) && reports(e, f),
            },
    {
        let mut values = match self.validate_inputs(inputs) {
            Ok(v) => v,
            Err(e) => {
                return Err(e);
            },
        };
        let ghost valid = validation(self.graph.inputs@, self.graph.initializers@.dom(), shapes_of(inputs@)).1->Ok_0;
        let ghost env0 = seed_views(self.graph, inputs@);
        let ghost weights = weight_views(self.graph);
        proof {
            assert(values@.dom() =~= env0.dom());
            assert(tensors_match(values@, env0));
        }
        let ghost reg = self.registry@;
        let nodes = &self.graph.nodes;
        let ghost mut m = env0;
        assert(nodes@.subrange(0, 0) =~= Seq::<NodeProto>::empty());
        let mut k: usize = 0;
        while k < nodes.len()
            invariant
                validation(self.graph.inputs@, self.graph.initializers@.dom(), shapes_of(inputs@)).1 == Ok::<Map<Seq<char>, Seq<usize>>, Failure>(valid),
                env0 == seed_views(self.graph, inputs@),
                nodes == &self.graph.nodes,
                weights == weight_views(self.graph),
                reg == self.registry@,
                k <= nodes@.len(),
                walk(ops, nodes@.subrange(0, k as int), env0, weights, reg) == Ok::<Map<Seq<char>, TensorView<T>>, Failure>(m),
                tensors_match(values@, m),
            decreases nodes@.len() - k,
        {
            let node = &nodes[k];
            proof {
                assert(nodes@.subrange(0, k as int + 1).drop_last() == nodes@.subrange(0, k as int));
                assert(nodes@.subrange(0, k as int + 1).last() == nodes@[k as int]);
            }
            let mut node_inputs: Vec<&Tensor<T>> = Vec::new();
            let mut j: usize = 0;
            assert(node.input@.subrange(0, 0) =~= Seq::<String>::empty());
            assert(views_of_all(node_inputs@) =~= Seq::<TensorView<T>>::empty());
            while j < node.input.len()
                invariant
                    validation(self.graph.inputs@, self.graph.initializers@.dom(), shapes_of(inputs@)).1 == Ok::<Map<Seq<char>, Seq<usize>>, Failure>(valid),
                env0 == seed_views(self.graph, inputs@),
                    nodes == &self.graph.nodes,
                    k < nodes@.len(),
                    nodes@.subrange(0, k as int + 1).drop_last() == nodes@.subrange(0, k as int),
                    nodes@.subrange(0, k as int + 1).last() == nodes@[k as int],
                    node == &nodes@[k as int],
                    reg == self.registry@,
                    walk(ops, nodes@.subrange(0, k as int), env0, weights, reg) == Ok::<Map<Seq<char>, TensorView<T>>, Failure>(m),
                    weights == weight_views(self.graph),
                    tensors_match(values@, m),
                    j <= node.input@.len(),
                    resolve(m, weights, node.input@.subrange(0, j as int)) == Ok::<Seq<TensorView<T>>, Seq<char>>(views_of_all(node_inputs@)),
                decreases node.input@.len() - j,
            {
                let name = node.input[j].as_str();
                proof {
                    assert(node.input@.subrange(0, j as int + 1).drop_last() == node.input@.subrange(0, j as int));
                }
                assert(node.input@.subrange(0, j as int + 1).last() == node.input@[j as int]);
                let ghost before = node_inputs@;
                match values.get(name) {
                    Some(t) => {
                        assert(m.contains_key(name@) && m[name@] == (t.dims(), t.elems()));
                        node_inputs.push(t);
                        assert(views_of_all(node_inputs@) =~= views_of_all(before).push((t.dims(), t.elems())));
                    },
                    None => {
                        assert(!m.contains_key(name@));
                        match self.graph.initializers.get(name) {
                            Some(t) => {
                                assert(weights.contains_key(name@) && weights[name@] == (t.dims(), t.elems()));
                                node_inputs.push(t);
                                assert(views_of_all(node_inputs@) =~= views_of_all(before).push((t.dims(), t.elems())));
                            },
                            None => {
                                proof {
                                    assert(!weights.contains_key(name@));
                                    lemma_resolve_stops(m, weights, node.input@, j as int + 1);
                                    lemma_walk_stops(ops, nodes@, env0, weights, reg, k as int + 1);
                                }
                                return Err(SessionError::MissingValue { value: node.input[j].clone(), node: node.name.clone() });
                            },
                        }
                    },
                }
                j = j + 1;
            }
            assert(node.input@.subrange(0, j as int) == node.input@);
            let op = match self.registry.get(node.op_type.as_str()) {
                Some(op) => op,
                None => {
                    proof { lemma_walk_stops(ops, nodes@, env0, weights, reg, k as int + 1); }
                    return Err(SessionError::UnsupportedOperator { op_type: node.op_type.clone() });
                },
            };
            assert(dims_of_all(node_inputs@) =~= views_of_all(node_inputs@).map_values(|v: TensorView<T>| v.0));
            let output = match op.run(ops, node_inputs.as_slice(), node) {
                Ok(t) => t,
                Err(e) => {
                    proof { lemma_walk_stops(ops, nodes@, env0, weights, reg, k as int + 1); }
                    return Err(SessionError::Operator(e));
                },
            };
            if node.output.len() > 0 {
                values.insert(node.output[0].clone(), output);
                proof {
                    m = m.insert(node.output@[0]@, (output.dims(), output.elems()));
                    assert(values@.dom() =~= m.dom());
                }
            }
            k = k + 1;
        }
        assert(nodes@.subrange(0, k as int) == nodes@);
        let outs = &self.graph.outputs;
        let mut results: Vec<Tensor<T>> = Vec::new();
        let mut i: usize = 0;
        assert(outs@.subrange(0, 0) =~= Seq::<DeclaredValue>::empty());
        assert(views_of(results@) =~= Seq::<TensorView<T>>::empty());
        while i < outs.len()
            invariant
                validation(self.graph.inputs@, self.graph.initializers@.dom(), shapes_of(inputs@)).1 == Ok::<Map<Seq<char>, Seq<usize>>, Failure>(valid),
                env0 == seed_views(self.graph, inputs@),
                walk(ops, self.graph.nodes@, env0, weight_views(self.graph), self.registry@) == Ok::<Map<Seq<char>, TensorView<T>>, Failure>(m),
                outs == &self.graph.outputs,
                tensors_match(values@, m),
                i <= outs@.len(),
                collect(m, outs@.subrange(0, i as int)) == Ok::<Seq<TensorView<T>>, Failure>(views_of(results@)),
            decreases outs@.len() - i,
        {
            proof {
                assert(outs@.subrange(0, i as int + 1).drop_last() == outs@.subrange(0, i as int));
            }
            assert(outs@.subrange(0, i as int + 1).last() == outs@[i as int]);
            match values.get(outs[i].name.as_str()) {
                Some(t) => {
                    assert(m.contains_key(outs@[i as int].name@) && m[outs@[i as int].name@] == (t.dims(), t.elems()));
                    let ghost before = results@;
                    results.push(t.duplicate());
                    assert(views_of(results@) =~= views_of(before).push((t.dims(), t.elems())));
                },
                None => {
                    proof { lemma_collect_stops(m, outs@, i as int + 1); }
                    return Err(SessionError::OutputNotProduced { name: outs[i].name.clone() });
                },
            }
            i = i + 1;
        }
        assert(outs@.subrange(0, i as int) == outs@);
        Ok(results)
    }
}

} // verus!
