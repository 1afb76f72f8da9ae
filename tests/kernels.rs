use neuroxyde::model::{AttributeProto, NodeProto};
use neuroxyde::ops::add::Add;
use neuroxyde::ops::conv::Conv;
use neuroxyde::ops::error::OpError;
use neuroxyde::ops::relu::Relu;
use neuroxyde::tensor::{ScalarOps, Tensor, TensorError};

struct F32;

impl ScalarOps<f32> for F32 {
    fn zero_spec(&self) -> f32 {
        0.0
    }
    fn sum_spec(&self, a: f32, b: f32) -> f32 {
        a + b
    }
    fn mul_spec(&self, a: f32, b: f32) -> f32 {
        a * b
    }
    fn relu_spec(&self, x: f32) -> f32 {
        if x > 0.0 {
            x
        } else {
            0.0
        }
    }
    fn from_f32_bits_spec(&self, bits: u32) -> f32 {
        f32::from_bits(bits)
    }
    fn from_f64_bits_spec(&self, bits: u64) -> f32 {
        f64::from_bits(bits) as f32
    }
    fn from_i32_spec(&self, v: i32) -> f32 {
        v as f32
    }
    fn from_i64_spec(&self, v: i64) -> f32 {
        v as f32
    }
    fn zero(&self) -> f32 {
        self.zero_spec()
    }
    fn sum(&self, a: f32, b: f32) -> f32 {
        self.sum_spec(a, b)
    }
    fn mul(&self, a: f32, b: f32) -> f32 {
        self.mul_spec(a, b)
    }
    fn relu(&self, x: f32) -> f32 {
        self.relu_spec(x)
    }
    fn from_f32_bits(&self, bits: u32) -> f32 {
        self.from_f32_bits_spec(bits)
    }
    fn from_f64_bits(&self, bits: u64) -> f32 {
        self.from_f64_bits_spec(bits)
    }
    fn from_i32(&self, v: i32) -> f32 {
        self.from_i32_spec(v)
    }
    fn from_i64(&self, v: i64) -> f32 {
        self.from_i64_spec(v)
    }
}

fn tensor(data: Vec<f32>, shape: Vec<usize>) -> Tensor<f32> {
    Tensor::new(data, shape).unwrap()
}

fn node(op_type: &str, attribute: Vec<AttributeProto>) -> NodeProto {
    NodeProto {
        op_type: op_type.to_string(),
        name: String::new(),
        input: Vec::new(),
        output: Vec::new(),
        attribute,
    }
}

fn ints_attr(name: &str, ints: Vec<i64>) -> AttributeProto {
    AttributeProto { name: name.to_string(), i: 0, ints, s: Vec::new() }
}

fn int_attr(name: &str, i: i64) -> AttributeProto {
    AttributeProto { name: name.to_string(), i, ints: Vec::new(), s: Vec::new() }
}

fn str_attr(name: &str, s: &str) -> AttributeProto {
    AttributeProto { name: name.to_string(), i: 0, ints: Vec::new(), s: s.as_bytes().to_vec() }
}

#[test]
fn tensor_new_keeps_shape() {
    let t = tensor(vec![1.0, 2.0, 3.0, 4.0, 5.0, 6.0], vec![2, 3]);
    assert_eq!(t.shape(), &[2, 3]);
    assert_eq!(t.data(), &[1.0, 2.0, 3.0, 4.0, 5.0, 6.0]);
    let s = tensor(vec![7.0], vec![]);
    assert_eq!(s.shape(), &[] as &[usize]);
}

#[test]
fn tensor_new_rejects_wrong_length() {
    let r = Tensor::new(vec![1.0f32, 2.0, 3.0], vec![2, 2]);
    assert_eq!(r.err(), Some(TensorError::LengthMismatch { len: 3, shape: vec![2, 2] }));
    assert!(Tensor::new(vec![0.0f32; 0], vec![3, 0]).is_ok());
    assert!(Tensor::<f32>::new(vec![], vec![]).is_err());
}

#[test]
fn tensor_zeros_fills_with_zero() {
    let t = Tensor::zeros(&F32, &[1, 1, 2, 2]).unwrap();
    assert_eq!(t.shape(), &[1, 1, 2, 2]);
    assert_eq!(t.data(), &[0.0; 4]);
    assert!(Tensor::zeros(&F32, &[usize::MAX, 2]).is_err());
}

#[test]
fn relu_clamps_negatives() {
    let x = tensor(vec![-2.0, 0.0, 3.0], vec![3]);
    let out = Relu.run(&F32, &[&x], &node("Relu", vec![])).unwrap();
    assert_eq!(out.data(), &[0.0, 0.0, 3.0]);
    assert_eq!(out.shape(), &[3]);
}

#[test]
fn relu_without_input_fails() {
    let r = Relu.run::<f32, F32>(&F32, &[], &node("Relu", vec![]));
    assert_eq!(r.err(), Some(OpError::MissingOperand { needed: 1, got: 0 }));
}

#[test]
fn add_same_shape_sums_elementwise() {
    let a = tensor(vec![1.0, 2.0, 3.0, 4.0], vec![2, 2]);
    let b = tensor(vec![10.0, 20.0, 30.0, 40.0], vec![2, 2]);
    let out = Add.run(&F32, &[&a, &b], &node("Add", vec![])).unwrap();
    assert_eq!(out.shape(), &[2, 2]);
    assert_eq!(out.data(), &[11.0, 22.0, 33.0, 44.0]);
}

#[test]
fn add_broadcasts_scalar() {
    let a = tensor(vec![1.0, 2.0, 3.0, 4.0], vec![2, 2]);
    let s = tensor(vec![0.5], vec![]);
    let out = Add.run(&F32, &[&a, &s], &node("Add", vec![])).unwrap();
    assert_eq!(out.shape(), &[2, 2]);
    assert_eq!(out.data(), &[1.5, 2.5, 3.5, 4.5]);
    let one = tensor(vec![1.0], vec![1]);
    let out = Add.run(&F32, &[&one, &a], &node("Add", vec![])).unwrap();
    assert_eq!(out.shape(), &[2, 2]);
    assert_eq!(out.data(), &[2.0, 3.0, 4.0, 5.0]);
}

#[test]
fn add_rejects_mismatched_shapes() {
    let a = tensor(vec![0.0; 6], vec![2, 3]);
    let b = tensor(vec![0.0; 6], vec![3, 2]);
    let r = Add.run(&F32, &[&a, &b], &node("Add", vec![]));
    assert_eq!(r.err(), Some(OpError::ShapeMismatch { left: vec![2, 3], right: vec![3, 2] }));
    let r = Add.run(&F32, &[&a], &node("Add", vec![]));
    assert_eq!(r.err(), Some(OpError::MissingOperand { needed: 2, got: 1 }));
}

#[test]
fn conv_all_ones_valid() {
    let x = tensor(vec![1.0; 16], vec![1, 1, 4, 4]);
    let w = tensor(vec![1.0; 9], vec![1, 1, 3, 3]);
    let n = node("Conv", vec![ints_attr("strides", vec![1, 1])]);
    let out = Conv.run(&F32, &[&x, &w], &n).unwrap();
    assert_eq!(out.shape(), &[1, 1, 2, 2]);
    assert_eq!(out.data(), &[9.0; 4]);
}

#[test]
fn conv_same_upper_keeps_size() {
    for size in [1usize, 4, 5] {
        let x = tensor(vec![1.0; size * size], vec![1, 1, size, size]);
        let w = tensor(vec![1.0; 9], vec![1, 1, 3, 3]);
        let n = node("Conv", vec![str_attr("auto_pad", "SAME_UPPER")]);
        let out = Conv.run(&F32, &[&x, &w], &n).unwrap();
        assert_eq!(out.shape(), &[1, 1, size, size]);
    }
    let x = tensor(vec![1.0; 16], vec![1, 1, 4, 4]);
    let w = tensor(vec![1.0; 9], vec![1, 1, 3, 3]);
    let n = node("Conv", vec![str_attr("auto_pad", "SAME_UPPER")]);
    let out = Conv.run(&F32, &[&x, &w], &n).unwrap();
    assert_eq!(
        out.data(),
        &[4.0, 6.0, 6.0, 4.0, 6.0, 9.0, 9.0, 6.0, 6.0, 9.0, 9.0, 6.0, 4.0, 6.0, 6.0, 4.0]
    );
}

#[test]
fn conv_padding_stride_and_bias() {
    let x = tensor((1..=9).map(|v| v as f32).collect(), vec![1, 1, 3, 3]);
    let w = tensor(vec![1.0; 4], vec![1, 1, 2, 2]);
    let b = tensor(vec![100.0], vec![1]);
    let n = node("Conv", vec![ints_attr("pads", vec![1, 1, 1, 1]), ints_attr("strides", vec![2])]);
    let out = Conv.run(&F32, &[&x, &w, &b], &n).unwrap();
    assert_eq!(out.shape(), &[1, 1, 2, 2]);
    assert_eq!(out.data(), &[101.0, 105.0, 111.0, 128.0]);
}

#[test]
fn conv_grouped_channels() {
    // two groups of one channel each; the second kernel doubles
    let x = tensor(vec![1.0, 2.0, 3.0, 4.0, 5.0, 6.0, 7.0, 8.0], vec![1, 2, 2, 2]);
    let w = tensor(vec![1.0, 2.0], vec![2, 1, 1, 1]);
    let n = node("Conv", vec![int_attr("group", 2)]);
    let out = Conv.run(&F32, &[&x, &w], &n).unwrap();
    assert_eq!(out.shape(), &[1, 2, 2, 2]);
    assert_eq!(out.data(), &[1.0, 2.0, 3.0, 4.0, 10.0, 12.0, 14.0, 16.0]);
}

#[test]
fn conv_dilation_spreads_taps() {
    let x = tensor((0..25).map(|v| v as f32).collect(), vec![1, 1, 5, 5]);
    let w = tensor(vec![1.0; 4], vec![1, 1, 2, 2]);
    let n = node("Conv", vec![ints_attr("dilations", vec![2, 2])]);
    let out = Conv.run(&F32, &[&x, &w], &n).unwrap();
    assert_eq!(out.shape(), &[1, 1, 3, 3]);
    assert_eq!(out.data()[0], 0.0 + 2.0 + 10.0 + 12.0);
}

#[test]
fn conv_rejects_bad_operands() {
    let x3 = tensor(vec![1.0; 4], vec![1, 2, 2]);
    let w = tensor(vec![1.0; 4], vec![1, 1, 2, 2]);
    let r = Conv.run(&F32, &[&x3, &w], &node("Conv", vec![]));
    assert_eq!(
        r.err(),
        Some(OpError::NotFourDimensional { input: vec![1, 2, 2], weight: vec![1, 1, 2, 2] })
    );
    let x = tensor(vec![1.0; 12], vec![1, 3, 2, 2]);
    let w2 = tensor(vec![1.0; 8], vec![2, 1, 2, 2]);
    let r = Conv.run(&F32, &[&x, &w2], &node("Conv", vec![int_attr("group", 2)]));
    assert!(matches!(r.err(), Some(OpError::ChannelMismatch { .. })));
    let x = tensor(vec![1.0; 4], vec![1, 1, 2, 2]);
    let big = tensor(vec![1.0; 9], vec![1, 1, 3, 3]);
    let r = Conv.run(&F32, &[&x, &big], &node("Conv", vec![]));
    assert_eq!(r.err(), Some(OpError::InvalidKernel { kernel: vec![1, 1, 3, 3] }));
    let bias = tensor(vec![1.0, 2.0], vec![2]);
    let r = Conv.run(&F32, &[&x, &w, &bias], &node("Conv", vec![]));
    assert_eq!(r.err(), Some(OpError::InvalidBias { bias: vec![2], out_channels: 1 }));
    let r = Conv.run(&F32, &[&x, &w], &node("Conv", vec![ints_attr("strides", vec![0])]));
    assert_eq!(r.err(), Some(OpError::InvalidAttribute { name: "strides".to_string() }));
}

#[test]
fn conv_attribute_lookup() {
    let n = node(
        "Conv",
        vec![int_attr("group", 3), int_attr("group", 5), ints_attr("pads", vec![1, 2]), str_attr("auto_pad", "VALID")],
    );
    assert_eq!(Conv::get_int_attr(&n, "group", 1), 3);
    assert_eq!(Conv::get_int_attr(&n, "missing", 7), 7);
    assert_eq!(Conv::get_ints_attr(&n, "pads"), vec![1, 2]);
    assert_eq!(Conv::get_ints_attr(&n, "strides"), Vec::<i64>::new());
    assert_eq!(Conv::get_string_attr(&n, "auto_pad"), "VALID");
    assert_eq!(Conv::get_string_attr(&n, "other"), "");
}

#[test]
fn conv_auto_pad_modes() {
    assert_eq!(Conv::compute_auto_pad("SAME_UPPER", 5, 5, 4, 4, 1, 1, 1, 1), (1, 1, 2, 2));
    assert_eq!(Conv::compute_auto_pad("SAME_LOWER", 5, 5, 4, 4, 1, 1, 1, 1), (2, 2, 1, 1));
    assert_eq!(Conv::compute_auto_pad("SAME_UPPER", 7, 8, 3, 3, 2, 2, 1, 1), (1, 0, 1, 1));
    assert_eq!(Conv::compute_auto_pad("VALID", 5, 5, 3, 3, 1, 1, 1, 1), (0, 0, 0, 0));
    assert_eq!(Conv::compute_auto_pad("NOTSET", 5, 5, 3, 3, 1, 1, 1, 1), (0, 0, 0, 0));
}

#[test]
fn conv_string_attr_replaces_invalid_utf8() {
    let n = node(
        "Conv",
        vec![AttributeProto { name: "auto_pad".to_string(), i: 0, ints: Vec::new(), s: vec![b'S', 0xff, b'U'] }],
    );
    assert_eq!(Conv::get_string_attr(&n, "auto_pad"), "S\u{FFFD}U");
    let x = tensor(vec![1.0; 16], vec![1, 1, 4, 4]);
    let w = tensor(vec![1.0; 9], vec![1, 1, 3, 3]);
    let out = Conv.run(&F32, &[&x, &w], &n).unwrap();
    assert_eq!(out.shape(), &[1, 1, 2, 2]);
}

#[test]
fn conv_same_lower_and_explicit_pads_ignored() {
    let x = tensor(vec![1.0; 16], vec![1, 1, 4, 4]);
    let w = tensor(vec![1.0; 4], vec![1, 1, 2, 2]);
    let n = node("Conv", vec![str_attr("auto_pad", "SAME_LOWER"), ints_attr("pads", vec![3, 3, 3, 3])]);
    let out = Conv.run(&F32, &[&x, &w], &n).unwrap();
    assert_eq!(out.shape(), &[1, 1, 4, 4]);
    assert_eq!(out.data()[0], 1.0);
    assert_eq!(out.data()[15], 4.0);
    let n = node("Conv", vec![str_attr("auto_pad", "VALID"), ints_attr("pads", vec![1, 1, 1, 1])]);
    let out = Conv.run(&F32, &[&x, &w], &n).unwrap();
    assert_eq!(out.shape(), &[1, 1, 3, 3]);
}
