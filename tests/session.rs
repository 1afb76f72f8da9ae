use neuroxyde::decode::DecodeError;
use neuroxyde::graph::{Graph, GraphError};
use neuroxyde::model::{
    Dimension, GraphProto, ModelLoader, ModelProto, NodeProto, TensorProto, ValueInfoProto, DOUBLE, FLOAT, INT32, INT64,
};
use neuroxyde::ops::registry::{OpKind, OpRegistry};
use neuroxyde::runtime::{InferenceSession, SessionError};
use neuroxyde::tensor::{ScalarOps, Tensor};

struct F32;

impl ScalarOps<f32> for F32 {
    fn zero_spec(&self) -> f32 {
        0.0
    }
    fn sum_spec(&self, a: f32, b: f32) -> f32 {
        a + b
    }
    fn mul_spec(&self, a: f32, b: f32) -> f32 {
        a * b
    }
    fn relu_spec(&self, x: f32) -> f32 {
        if x > 0.0 {
            x
        } else {
            0.0
        }
    }
    fn from_f32_bits_spec(&self, bits: u32) -> f32 {
        f32::from_bits(bits)
    }
    fn from_f64_bits_spec(&self, bits: u64) -> f32 {
        f64::from_bits(bits) as f32
    }
    fn from_i32_spec(&self, v: i32) -> f32 {
        v as f32
    }
    fn from_i64_spec(&self, v: i64) -> f32 {
        v as f32
    }
    fn zero(&self) -> f32 {
        self.zero_spec()
    }
    fn sum(&self, a: f32, b: f32) -> f32 {
        self.sum_spec(a, b)
    }
    fn mul(&self, a: f32, b: f32) -> f32 {
        self.mul_spec(a, b)
    }
    fn relu(&self, x: f32) -> f32 {
        self.relu_spec(x)
    }
    fn from_f32_bits(&self, bits: u32) -> f32 {
        self.from_f32_bits_spec(bits)
    }
    fn from_f64_bits(&self, bits: u64) -> f32 {
        self.from_f64_bits_spec(bits)
    }
    fn from_i32(&self, v: i32) -> f32 {
        self.from_i32_spec(v)
    }
    fn from_i64(&self, v: i64) -> f32 {
        self.from_i64_spec(v)
    }
}

fn proto(name: &str, dims: Vec<i64>, data_type: i32) -> TensorProto {
    TensorProto {
        name: name.to_string(),
        dims,
        data_type,
        raw_data: Vec::new(),
        float_data: Vec::new(),
        double_data: Vec::new(),
        int32_data: Vec::new(),
        int64_data: Vec::new(),
    }
}

fn floats(name: &str, dims: Vec<i64>, values: &[f32]) -> TensorProto {
    let mut t = proto(name, dims, FLOAT);
    t.float_data = values.iter().map(|v| v.to_bits()).collect();
    t
}

fn value(name: &str, dims: Option<Vec<Dimension>>) -> ValueInfoProto {
    ValueInfoProto { name: name.to_string(), shape: dims }
}

fn node(op_type: &str, inputs: &[&str], output: &str) -> NodeProto {
    NodeProto {
        op_type: op_type.to_string(),
        name: format!("{}_node", op_type),
        input: inputs.iter().map(|s| s.to_string()).collect(),
        output: vec![output.to_string()],
        attribute: Vec::new(),
    }
}

fn model(nodes: Vec<NodeProto>, inits: Vec<TensorProto>, inputs: Vec<ValueInfoProto>, outputs: Vec<ValueInfoProto>) -> ModelLoader {
    ModelLoader {
        model: ModelProto { graph: Some(GraphProto { node: nodes, initializer: inits, input: inputs, output: outputs }) },
    }
}

fn session(m: &ModelLoader) -> InferenceSession<f32> {
    InferenceSession::new(Graph::from_model(m, &F32).unwrap()).unwrap()
}

fn tensor(data: Vec<f32>, shape: Vec<usize>) -> Tensor<f32> {
    Tensor::new(data, shape).unwrap()
}

fn image_input() -> ValueInfoProto {
    value("x", Some(vec![Dimension::Param("batch".to_string()), Dimension::Value(3)]))
}

#[test]
fn decode_raw_and_typed_floats_agree() {
    let values = [1.5f32, -2.0, 0.25, 8.0];
    let typed = floats("w", vec![2, 2], &values);
    let mut raw = proto("w", vec![2, 2], FLOAT);
    raw.raw_data = values.iter().flat_map(|v| v.to_le_bytes()).collect();
    let a = Tensor::from_proto(&F32, &typed).unwrap();
    let b = Tensor::from_proto(&F32, &raw).unwrap();
    assert_eq!(a.shape(), b.shape());
    assert_eq!(a.data(), b.data());
    assert_eq!(a.data(), &values);
}

#[test]
fn decode_integer_and_double_payloads() {
    let mut t = proto("i", vec![3], INT64);
    t.raw_data = [-1i64, 0, 7].iter().flat_map(|v| v.to_le_bytes()).collect();
    assert_eq!(Tensor::from_proto(&F32, &t).unwrap().data(), &[-1.0, 0.0, 7.0]);
    let mut t = proto("i", vec![2], INT32);
    t.int32_data = vec![-4, 9];
    assert_eq!(Tensor::from_proto(&F32, &t).unwrap().data(), &[-4.0, 9.0]);
    let mut t = proto("i", vec![2], INT32);
    t.raw_data = [-4i32, 9].iter().flat_map(|v| v.to_le_bytes()).collect();
    assert_eq!(Tensor::from_proto(&F32, &t).unwrap().data(), &[-4.0, 9.0]);
    let mut t = proto("d", vec![1], DOUBLE);
    t.raw_data = 0.5f64.to_le_bytes().to_vec();
    assert_eq!(Tensor::from_proto(&F32, &t).unwrap().data(), &[0.5]);
    let mut t = proto("d", vec![2], DOUBLE);
    t.double_data = vec![1.25f64.to_bits(), 3.0f64.to_bits()];
    assert_eq!(Tensor::from_proto(&F32, &t).unwrap().data(), &[1.25, 3.0]);
}

#[test]
fn decode_errors() {
    let t = proto("u", vec![1], 2);
    assert_eq!(Tensor::from_proto(&F32, &t).err(), Some(DecodeError::UnsupportedType { data_type: 2 }));
    let t = proto("e", vec![1], FLOAT);
    assert_eq!(Tensor::from_proto(&F32, &t).err(), Some(DecodeError::NoData { data_type: FLOAT }));
    let t = floats("c", vec![2, 2], &[1.0, 2.0, 3.0]);
    assert_eq!(Tensor::from_proto(&F32, &t).err(), Some(DecodeError::CountMismatch { count: 3, shape: vec![2, 2] }));
    let mut t = proto("r", vec![2], FLOAT);
    t.raw_data = vec![0, 0, 128, 63, 0, 0];
    assert_eq!(Tensor::from_proto(&F32, &t).err(), Some(DecodeError::CountMismatch { count: 1, shape: vec![2] }));
}

#[test]
fn registry_has_builtins() {
    let mut r = OpRegistry::new();
    assert_eq!(r.get("Add"), Some(OpKind::Add));
    assert_eq!(r.get("Relu"), Some(OpKind::Relu));
    assert_eq!(r.get("Conv"), Some(OpKind::Conv));
    assert_eq!(r.get("MatMul"), None);
    r.register("Rectify", OpKind::Relu);
    assert_eq!(r.get("Rectify"), Some(OpKind::Relu));
}

#[test]
fn graph_needs_graph_section() {
    let m = ModelLoader { model: ModelProto { graph: None } };
    assert!(matches!(Graph::from_model(&m, &F32).err(), Some(GraphError::NoGraph)));
}

#[test]
fn graph_last_initializer_wins() {
    let m = model(
        vec![],
        vec![floats("w", vec![1], &[1.0]), floats("w", vec![2], &[2.0, 3.0])],
        vec![image_input()],
        vec![value("x", None)],
    );
    let g = Graph::from_model(&m, &F32).unwrap();
    assert_eq!(g.initializers.get("w").unwrap().data(), &[2.0, 3.0]);
    assert_eq!(g.inputs.len(), 1);
    assert_eq!(g.inputs[0].shape, Some(vec![None, Some(3)]));
}

#[test]
fn graph_reports_bad_initializer() {
    let m = model(vec![], vec![proto("bad", vec![1], 9)], vec![], vec![]);
    match Graph::from_model(&m, &F32) {
        Err(GraphError::Decode { name, error }) => {
            assert_eq!(name, "bad");
            assert_eq!(error, DecodeError::UnsupportedType { data_type: 9 });
        }
        _ => panic!("expected a decode error"),
    }
}

#[test]
fn session_needs_one_runtime_input() {
    let m = model(vec![], vec![], vec![value("a", None), value("b", None)], vec![]);
    let r = InferenceSession::new(Graph::from_model(&m, &F32).unwrap());
    assert!(matches!(r.err(), Some(SessionError::UnsupportedInputCount { count: 2 })));
    let m = model(vec![], vec![floats("b", vec![1], &[1.0])], vec![value("a", None), value("b", None)], vec![]);
    assert!(InferenceSession::new(Graph::from_model(&m, &F32).unwrap()).is_ok());
}

#[test]
fn session_runs_relu_then_add() {
    let m = model(
        vec![node("Relu", &["x"], "r"), node("Add", &["r", "bias"], "y")],
        vec![floats("bias", vec![], &[1.0])],
        vec![value("bias", None), image_input()],
        vec![value("y", None)],
    );
    let s = session(&m);
    let out = s.run(&F32, &[tensor(vec![-1.0, 2.0, -3.0], vec![1, 3])]).unwrap();
    assert_eq!(out.len(), 1);
    assert_eq!(out[0].shape(), &[1, 3]);
    assert_eq!(out[0].data(), &[1.0, 3.0, 1.0]);
}

#[test]
fn session_missing_runtime_input() {
    let m = model(vec![node("Relu", &["x"], "y")], vec![], vec![image_input()], vec![value("y", None)]);
    let s = session(&m);
    assert!(matches!(s.run(&F32, &[]).err(), Some(SessionError::MissingInput { index: 0 })));
}

#[test]
fn session_checks_declared_shape() {
    let m = model(vec![node("Relu", &["x"], "y")], vec![], vec![image_input()], vec![value("y", None)]);
    let s = session(&m);
    match s.run(&F32, &[tensor(vec![0.0; 4], vec![2, 2])]).err() {
        Some(SessionError::DimensionMismatch { name, dim, expected, actual }) => {
            assert_eq!((name.as_str(), dim, expected, actual), ("x", 1, 3, 2));
        }
        _ => panic!("expected a dimension mismatch"),
    }
    match s.run(&F32, &[tensor(vec![0.0; 3], vec![3])]).err() {
        Some(SessionError::RankMismatch { name, expected, actual }) => {
            assert_eq!((name.as_str(), expected, actual), ("x", 2, 1));
        }
        _ => panic!("expected a rank mismatch"),
    }
    assert!(s.run(&F32, &[tensor(vec![0.0; 6], vec![2, 3])]).is_ok());
}

#[test]
fn session_unsupported_operator() {
    let m = model(vec![node("MatMul", &["x"], "y")], vec![], vec![image_input()], vec![value("y", None)]);
    let s = session(&m);
    match s.run(&F32, &[tensor(vec![0.0; 3], vec![1, 3])]).err() {
        Some(SessionError::UnsupportedOperator { op_type }) => assert_eq!(op_type, "MatMul"),
        _ => panic!("expected an unsupported operator"),
    }
}

#[test]
fn session_output_not_produced() {
    let m = model(vec![node("Relu", &["x"], "y")], vec![], vec![image_input()], vec![value("z", None)]);
    let s = session(&m);
    match s.run(&F32, &[tensor(vec![0.0; 3], vec![1, 3])]).err() {
        Some(SessionError::OutputNotProduced { name }) => assert_eq!(name, "z"),
        _ => panic!("expected a missing output"),
    }
}

#[test]
fn session_missing_value() {
    let m = model(vec![node("Add", &["x", "nowhere"], "y")], vec![], vec![image_input()], vec![value("y", None)]);
    let s = session(&m);
    match s.run(&F32, &[tensor(vec![0.0; 3], vec![1, 3])]).err() {
        Some(SessionError::MissingValue { value, node }) => {
            assert_eq!(value, "nowhere");
            assert_eq!(node, "Add_node");
        }
        _ => panic!("expected a missing value"),
    }
}

#[test]
fn session_runs_are_deterministic() {
    let mut conv = node("Conv", &["x", "w"], "c");
    conv.attribute = Vec::new();
    let m = model(
        vec![conv, node("Relu", &["c"], "y")],
        vec![floats("w", vec![1, 1, 2, 2], &[0.5, -1.0, 2.0, 0.25])],
        vec![value("x", None)],
        vec![value("y", None), value("c", None)],
    );
    let s = session(&m);
    let input = || vec![tensor((0..9).map(|v| v as f32 * 0.3 - 1.0).collect(), vec![1, 1, 3, 3])];
    let a = s.run(&F32, &input()).unwrap();
    let b = s.run(&F32, &input()).unwrap();
    assert_eq!(a.len(), 2);
    for (x, y) in a.iter().zip(b.iter()) {
        assert_eq!(x.shape(), y.shape());
        let xb: Vec<u32> = x.data().iter().map(|v| v.to_bits()).collect();
        let yb: Vec<u32> = y.data().iter().map(|v| v.to_bits()).collect();
        assert_eq!(xb, yb);
    }
    assert_eq!(a[0].shape(), &[1, 1, 2, 2]);
}

#[test]
fn decode_raw_bytes_exact_values() {
    let mut a = proto("a", vec![2], FLOAT);
    a.raw_data = vec![0, 0, 128, 63, 0, 0, 0, 64];
    let b = floats("b", vec![2], &[1.0, 2.0]);
    let ta = Tensor::from_proto(&F32, &a).unwrap();
    let tb = Tensor::from_proto(&F32, &b).unwrap();
    assert_eq!(ta.shape(), &[2]);
    assert_eq!(ta.data(), &[1.0, 2.0]);
    assert_eq!(tb.shape(), &[2]);
    assert_eq!(tb.data(), &[1.0, 2.0]);
}

#[test]
fn decode_prefers_raw_bytes_over_typed_list() {
    let mut t = floats("t", vec![1], &[5.0]);
    t.raw_data = 3.0f32.to_le_bytes().to_vec();
    assert_eq!(Tensor::from_proto(&F32, &t).unwrap().data(), &[3.0]);
    let mut t = proto("i", vec![2], INT64);
    t.int64_data = vec![7, 8];
    t.raw_data = [1i64, 2].iter().flat_map(|v| v.to_le_bytes()).collect();
    assert_eq!(Tensor::from_proto(&F32, &t).unwrap().data(), &[1.0, 2.0]);
}

#[test]
fn session_propagates_operator_error() {
    let m = model(vec![node("Add", &["x", "w"], "y")], vec![floats("w", vec![2], &[1.0, 2.0])], vec![image_input()], vec![value("y", None)]);
    let s = session(&m);
    match s.run(&F32, &[tensor(vec![0.0; 3], vec![1, 3])]).err() {
        Some(SessionError::Operator(e)) => {
            assert_eq!(e, neuroxyde::ops::error::OpError::ShapeMismatch { left: vec![1, 3], right: vec![2] })
        }
        _ => panic!("expected an operator error"),
    }
}
