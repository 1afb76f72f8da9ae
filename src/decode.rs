//! Decoding constant-tensor descriptors into tensors.
use vstd::prelude::*;
use crate::shape::{product, copy_slice};
use crate::model::{TensorProto, FLOAT, INT32, INT64, DOUBLE};
use crate::tensor::{Tensor, ScalarOps, TensorError};

verus! {

/// The little-endian 32-bit word that starts at byte `4 * i`.
pub open spec fn le_u32(b: Seq<u8>, i: int) -> u32 {
    (b[4 * i] as u32) | ((b[4 * i + 1] as u32) << 8u32) | ((b[4 * i + 2] as u32) << 16u32) | ((
    b[4 * i + 3] as u32) << 24u32)
}

/// The little-endian 64-bit word that starts at byte `8 * i`.
pub open spec fn le_u64(b: Seq<u8>, i: int) -> u64 {
    (b[8 * i] as u64) | ((b[8 * i + 1] as u64) << 8u64) | ((b[8 * i + 2] as u64) << 16u64) | ((
    b[8 * i + 3] as u64) << 24u64) | ((b[8 * i + 4] as u64) << 32u64) | ((b[8 * i + 5] as u64)
        << 40u64) | ((b[8 * i + 6] as u64) << 48u64) | ((b[8 * i + 7] as u64) << 56u64)
}

/// The bytes read as consecutive 4-byte words; a trailing partial word is ignored.
pub open spec fn le_words32(b: Seq<u8>) -> Seq<u32> {
    Seq::new(b.len() / 4, |i: int| le_u32(b, i))
}

/// The bytes read as consecutive 8-byte words; a trailing partial word is ignored.
pub open spec fn le_words64(b: Seq<u8>) -> Seq<u64> {
    Seq::new(b.len() / 8, |i: int| le_u64(b, i))
}

/// Reads `b` as consecutive little-endian 4-byte words.
pub fn read_le_words32(b: &[u8]) -> (r: Vec<u32>)
    ensures
        r@ == le_words32(b@),
{
    let len = b.len();
    let n = len / 4;
    let mut r: Vec<u32> = Vec::with_capacity(n);
    let mut i: usize = 0;
    while i < n
        invariant
            len == b@.len(),
            n == b@.len() / 4,
            i <= n,
            r@ == le_words32(b@).subrange(0, i as int),
        decreases n - i,
    {
        assert(4 * (i as int) + 3 < b@.len()) by (nonlinear_arith)
            requires
                (i as int) < (n as int),
                (n as int) == b@.len() / 4,
        ;
        let k = 4 * i;
        let w = (b[k] as u32) | ((b[k + 1] as u32) << 8u32) | ((b[k + 2] as u32) << 16u32) | ((
        b[k + 3] as u32) << 24u32);
        r.push(w);
        i = i + 1;
    }
    assert(r@ == le_words32(b@));
    r
}

/// Reads `b` as consecutive little-endian 8-byte words.
pub fn read_le_words64(b: &[u8]) -> (r: Vec<u64>)
    ensures
        r@ == le_words64(b@),
{
    let len = b.len();
    let n = len / 8;
    let mut r: Vec<u64> = Vec::with_capacity(n);
    let mut i: usize = 0;
    while i < n
        invariant
            len == b@.len(),
            n == b@.len() / 8,
            i <= n,
            r@ == le_words64(b@).subrange(0, i as int),
        decreases n - i,
    {
        assert(8 * (i as int) + 7 < b@.len()) by (nonlinear_arith)
            requires
                (i as int) < (n as int),
                (n as int) == b@.len() / 8,
        ;
        let k = 8 * i;
        let w = (b[k] as u64) | ((b[k + 1] as u64) << 8u64) | ((b[k + 2] as u64) << 16u64) | ((
        b[k + 3] as u64) << 24u64) | ((b[k + 4] as u64) << 32u64) | ((b[k + 5] as u64) << 40u64)
            | ((b[k + 6] as u64) << 48u64) | ((b[k + 7] as u64) << 56u64);
        r.push(w);
        i = i + 1;
    }
    assert(r@ == le_words64(b@));
    r
}

/// Why a constant-tensor descriptor could not be decoded.
#[derive(Debug, PartialEq, Eq)]
pub enum DecodeError {
    /// The element type code is not one of the four supported ones.
    UnsupportedType { data_type: i32 },
    /// Neither the byte buffer nor the typed list holds any value.
    NoData { data_type: i32 },
    /// The payload holds `count` values where the dimensions describe another number.
    CountMismatch { count: usize, shape: Vec<usize> },
}

/// A decoded payload: the stored values, in the source element type
/// (floating-point values by their bits).
pub enum Payload {
    F32(Vec<u32>),
    F64(Vec<u64>),
    I32(Vec<i32>),
    I64(Vec<i64>),
}

/// The values of a payload.
pub enum Values {
    F32(Seq<u32>),
    F64(Seq<u64>),
    I32(Seq<i32>),
    I64(Seq<i64>),
}

impl Payload {
    /// The values held.
    pub open spec fn values(&self) -> Values {
        match self {
            Payload::F32(v) => Values::F32(v@),
            Payload::F64(v) => Values::F64(v@),
            Payload::I32(v) => Values::I32(v@),
            Payload::I64(v) => Values::I64(v@),
        }
    }
}

impl Values {
    /// The number of values.
    pub open spec fn len(&self) -> nat {
        match self {
            Values::F32(v) => v.len(),
            Values::F64(v) => v.len(),
            Values::I32(v) => v.len(),
            Values::I64(v) => v.len(),
        }
    }
}

/// Whether the element type code is one of float32, float64, int32 and int64.
pub open spec fn supported_type(code: i32) -> bool {
    code == FLOAT || code == DOUBLE || code == INT32 || code == INT64
}

/// The values that a descriptor stores: the byte buffer where it is not empty, else
/// the typed list of the element type where that is not empty, else none.
pub open spec fn payload_of(t: TensorProto) -> Option<Values> {
    if t.data_type == FLOAT {
        if t.raw_data@.len() > 0 {
            Some(Values::F32(le_words32(t.raw_data@)))
        } else if t.float_data@.len() > 0 {
            Some(Values::F32(t.float_data@))
        } else {
            None
        }
    } else if t.data_type == DOUBLE {
        if t.raw_data@.len() > 0 {
            Some(Values::F64(le_words64(t.raw_data@)))
        } else if t.double_data@.len() > 0 {
            Some(Values::F64(t.double_data@))
        } else {
            None
        }
    } else if t.data_type == INT32 {
        if t.raw_data@.len() > 0 {
            Some(Values::I32(le_words32(t.raw_data@).map_values(|w: u32| w as i32)))
        } else if t.int32_data@.len() > 0 {
            Some(Values::I32(t.int32_data@))
        } else {
            None
        }
    } else if t.data_type == INT64 {
        if t.raw_data@.len() > 0 {
            Some(Values::I64(le_words64(t.raw_data@).map_values(|w: u64| w as i64)))
        } else if t.int64_data@.len() > 0 {
            Some(Values::I64(t.int64_data@))
        } else {
            None
        }
    } else {
        None
    }
}

/// The shape that a descriptor declares: each dimension cast to `usize`.
pub open spec fn dims_of(t: TensorProto) -> Seq<usize> {
    t.dims@.map_values(|d: i64| d as usize)
}

/// Reads the payload of a descriptor, trying the byte buffer first and the typed list second.
pub fn decode_payload(t: &TensorProto) -> (r: Result<Payload, DecodeError>)
    ensures
        r matches Ok(p) ==> payload_of(*t) == Some(p.values()),
        r is Err ==> payload_of(*t) is None,
        r matches Err(e) ==> e == (if supported_type(t.data_type) {
            DecodeError::NoData { data_type: t.data_type }
        } else {
            DecodeError::UnsupportedType { data_type: t.data_type }
        }),
{
    let code = t.data_type;
    if code == FLOAT {
        if t.raw_data.len() > 0 {
            Ok(Payload::F32(read_le_words32(t.raw_data.as_slice())))
        } else if t.float_data.len() > 0 {
            Ok(Payload::F32(copy_slice(t.float_data.as_slice())))
        } else {
            Err(DecodeError::NoData { data_type: code })
        }
    } else if code == DOUBLE {
        if t.raw_data.len() > 0 {
            Ok(Payload::F64(read_le_words64(t.raw_data.as_slice())))
        } else if t.double_data.len() > 0 {
            Ok(Payload::F64(copy_slice(t.double_data.as_slice())))
        } else {
            Err(DecodeError::NoData { data_type: code })
        }
    } else if code == INT32 {
        if t.raw_data.len() > 0 {
            let words = read_le_words32(t.raw_data.as_slice());
            let mut v: Vec<i32> = Vec::with_capacity(words.len());
            let mut i: usize = 0;
            while i < words.len()
                invariant
                    i <= words@.len(),
                    v@ == words@.map_values(|w: u32| w as i32).subrange(0, i as int),
                decreases words@.len() - i,
            {
                v.push(words[i] as i32);
                i = i + 1;
            }
            assert(v@ == words@.map_values(|w: u32| w as i32));
            Ok(Payload::I32(v))
        } else if t.int32_data.len() > 0 {
            Ok(Payload::I32(copy_slice(t.int32_data.as_slice())))
        } else {
            Err(DecodeError::NoData { data_type: code })
        }
    } else if code == INT64 {
        if t.raw_data.len() > 0 {
            let words = read_le_words64(t.raw_data.as_slice());
            let mut v: Vec<i64> = Vec::with_capacity(words.len());
            let mut i: usize = 0;
            while i < words.len()
                invariant
                    i <= words@.len(),
                    v@ == words@.map_values(|w: u64| w as i64).subrange(0, i as int),
                decreases words@.len() - i,
            {
                v.push(words[i] as i64);
                i = i + 1;
            }
            assert(v@ == words@.map_values(|w: u64| w as i64));
            Ok(Payload::I64(v))
        } else if t.int64_data.len() > 0 {
            Ok(Payload::I64(copy_slice(t.int64_data.as_slice())))
        } else {
            Err(DecodeError::NoData { data_type: code })
        }
    } else {
        Err(DecodeError::UnsupportedType { data_type: code })
    }
}

/// The declared dimensions of a descriptor, each cast to `usize`.
pub fn declared_dims(t: &TensorProto) -> (r: Vec<usize>)
    ensures
        r@ == dims_of(*t),
{
    let mut r: Vec<usize> = Vec::with_capacity(t.dims.len());
    let mut i: usize = 0;
    while i < t.dims.len()
        invariant
            i <= t.dims@.len(),
            r@ == dims_of(*t).subrange(0, i as int),
        decreases t.dims@.len() - i,
    {
        r.push(t.dims[i] as usize);
        i = i + 1;
    }
    assert(r@ == dims_of(*t));
    r
}

/// The elements that a payload's values convert to.
pub open spec fn elements_of<T, A: ScalarOps<T>>(ops: &A, v: Values) -> Seq<T> {
    match v {
        Values::F32(s) => s.map_values(|w: u32| ops.from_f32_bits_spec(w)),
        Values::F64(s) => s.map_values(|w: u64| ops.from_f64_bits_spec(w)),
        Values::I32(s) => s.map_values(|x: i32| ops.from_i32_spec(x)),
        Values::I64(s) => s.map_values(|x: i64| ops.from_i64_spec(x)),
    }
}

/// Turns each value of a payload into an element.
fn payload_elements<T, A: ScalarOps<T>>(ops: &A, p: &Payload) -> (r: Vec<T>)
    ensures
        r@ == elements_of(ops, p.values()),
{
    let mut out: Vec<T> = Vec::new();
    match p {
        Payload::F32(v) => {
            let mut i: usize = 0;
            while i < v.len()
                invariant
                    i <= v@.len(),
                    out@ == v@.map_values(|w: u32| ops.from_f32_bits_spec(w)).subrange(0, i as int),
                decreases v@.len() - i,
            {
                out.push(ops.from_f32_bits(v[i]));
                i = i + 1;
            }
            assert(out@ == v@.map_values(|w: u32| ops.from_f32_bits_spec(w)));
        },
        Payload::F64(v) => {
            let mut i: usize = 0;
            while i < v.len()
                invariant
                    i <= v@.len(),
                    out@ == v@.map_values(|w: u64| ops.from_f64_bits_spec(w)).subrange(0, i as int),
                decreases v@.len() - i,
            {
                out.push(ops.from_f64_bits(v[i]));
                i = i + 1;
            }
            assert(out@ == v@.map_values(|w: u64| ops.from_f64_bits_spec(w)));
        },
        Payload::I32(v) => {
            let mut i: usize = 0;
            while i < v.len()
                invariant
                    i <= v@.len(),
                    out@ == v@.map_values(|w: i32| ops.from_i32_spec(w)).subrange(0, i as int),
                decreases v@.len() - i,
            {
                out.push(ops.from_i32(v[i]));
                i = i + 1;
            }
            assert(out@ == v@.map_values(|w: i32| ops.from_i32_spec(w)));
        },
        Payload::I64(v) => {
            let mut i: usize = 0;
            while i < v.len()
                invariant
                    i <= v@.len(),
                    out@ == v@.map_values(|w: i64| ops.from_i64_spec(w)).subrange(0, i as int),
                decreases v@.len() - i,
            {
                out.push(ops.from_i64(v[i]));
                i = i + 1;
            }
            assert(out@ == v@.map_values(|w: i64| ops.from_i64_spec(w)));
        },
    }
    out
}

/// Whether a descriptor decodes: its payload is present and holds exactly as many
/// values as its dimensions describe.
pub open spec fn decodable(t: TensorProto) -> bool {
    payload_of(t) matches Some(v) && v.len() == product(dims_of(t))
}

/// `e` is the error that decoding `t` reports: the missing or unsupported payload, or
/// the count of values that does not match the dimensions.
pub open spec fn reports_decode_failure(e: DecodeError, t: TensorProto) -> bool {
    match payload_of(t) {
        None => e == (if supported_type(t.data_type) {
            DecodeError::NoData { data_type: t.data_type }
        } else {
            DecodeError::UnsupportedType { data_type: t.data_type }
        }),
        Some(v) => e matches DecodeError::CountMismatch { count, shape } && count == v.len() && shape@
            == dims_of(t),
    }
}

impl<T> Tensor<T> {
    /// Decodes a constant-tensor descriptor, converting each stored value with `ops`.
    pub fn from_proto<A: ScalarOps<T>>(ops: &A, tns: &TensorProto) -> (r: Result<Tensor<T>, DecodeError>)
        ensures
            r is Ok <==> decodable(*tns),
            r matches Ok(x) ==> x.dims() == dims_of(*tns) && x.elems().len() == product(dims_of(*tns))
                && x.elems() == elements_of(ops, payload_of(*tns)->Some_0),
            r matches Err(e) ==> reports_decode_failure(e, *tns),
    {
        let shape = declared_dims(tns);
        let payload = match decode_payload(tns) {
            Ok(p) => p,
            Err(e) => {
                return Err(e);
            },
        };
        let data = payload_elements(ops, &payload);
        match Tensor::new(data, shape) {
            Ok(x) => Ok(x),
            Err(TensorError::LengthMismatch { len, shape }) => Err(DecodeError::CountMismatch { count: len, shape }),
            Err(TensorError::TooLarge { shape }) => Err(DecodeError::CountMismatch { count: 0, shape }),
        }
    }
}

/// Byte `k` (0 for the least significant) of a 32-bit word.
pub open spec fn byte_of32(w: u32, k: int) -> u8 {
    ((w >> ((8 * k) as u32)) & 0xffu32) as u8
}

/// Byte `k` (0 for the least significant) of a 64-bit word.
pub open spec fn byte_of64(w: u64, k: int) -> u8 {
    ((w >> ((8 * k) as u64)) & 0xffu64) as u8
}

/// The little-endian encoding of 32-bit words.
pub open spec fn le_bytes32(ws: Seq<u32>) -> Seq<u8> {
    Seq::new(4 * ws.len(), |j: int| byte_of32(ws[j / 4], j % 4))
}

/// The little-endian encoding of 64-bit words.
pub open spec fn le_bytes64(ws: Seq<u64>) -> Seq<u8> {
    Seq::new(8 * ws.len(), |j: int| byte_of64(ws[j / 8], j % 8))
}

proof fn lemma_word32_round_trip(w: u32)
    ensures
        (byte_of32(w, 0) as u32) | ((byte_of32(w, 1) as u32) << 8u32) | ((byte_of32(w, 2) as u32)
            << 16u32) | ((byte_of32(w, 3) as u32) << 24u32) == w,
{
    assert(((((w >> 0u32) & 0xffu32) as u8) as u32) | (((((w >> 8u32) & 0xffu32) as u8) as u32)
        << 8u32) | (((((w >> 16u32) & 0xffu32) as u8) as u32) << 16u32) | (((((w >> 24u32)
        & 0xffu32) as u8) as u32) << 24u32) == w) by (bit_vector);
}

proof fn lemma_word64_round_trip(w: u64)
    ensures
        (byte_of64(w, 0) as u64) | ((byte_of64(w, 1) as u64) << 8u64) | ((byte_of64(w, 2) as u64)
            << 16u64) | ((byte_of64(w, 3) as u64) << 24u64) | ((byte_of64(w, 4) as u64) << 32u64)
            | ((byte_of64(w, 5) as u64) << 40u64) | ((byte_of64(w, 6) as u64) << 48u64) | ((
        byte_of64(w, 7) as u64) << 56u64) == w,
{
    assert(((((w >> 0u64) & 0xffu64) as u8) as u64) | (((((w >> 8u64) & 0xffu64) as u8) as u64)
        << 8u64) | (((((w >> 16u64) & 0xffu64) as u8) as u64) << 16u64) | (((((w >> 24u64)
        & 0xffu64) as u8) as u64) << 24u64) | (((((w >> 32u64) & 0xffu64) as u8) as u64)
        << 32u64) | (((((w >> 40u64) & 0xffu64) as u8) as u64) << 40u64) | (((((w >> 48u64)
        & 0xffu64) as u8) as u64) << 48u64) | (((((w >> 56u64) & 0xffu64) as u8) as u64)
        << 56u64) == w) by (bit_vector);
}

/// Reading back the little-endian encoding of 32-bit words gives the words.
pub proof fn lemma_le_words32_round_trip(ws: Seq<u32>)
    ensures
        le_words32(le_bytes32(ws)) == ws,
{
    let b = le_bytes32(ws);
    assert forall|i: int| 0 <= i < ws.len() implies le_u32(b, i) == ws[i] by {
        assert((4 * i) / 4 == i && (4 * i) % 4 == 0);
        assert((4 * i + 1) / 4 == i && (4 * i + 1) % 4 == 1);
        assert((4 * i + 2) / 4 == i && (4 * i + 2) % 4 == 2);
        assert((4 * i + 3) / 4 == i && (4 * i + 3) % 4 == 3);
        lemma_word32_round_trip(ws[i]);
    }
    assert(le_words32(b) =~= ws);
}

/// Reading back the little-endian encoding of 64-bit words gives the words.
pub proof fn lemma_le_words64_round_trip(ws: Seq<u64>)
    ensures
        le_words64(le_bytes64(ws)) == ws,
{
    let b = le_bytes64(ws);
    assert forall|i: int| 0 <= i < ws.len() implies le_u64(b, i) == ws[i] by {
        assert((8 * i) / 8 == i && (8 * i) % 8 == 0);
        assert((8 * i + 1) / 8 == i && (8 * i + 1) % 8 == 1);
        assert((8 * i + 2) / 8 == i && (8 * i + 2) % 8 == 2);
        assert((8 * i + 3) / 8 == i && (8 * i + 3) % 8 == 3);
        assert((8 * i + 4) / 8 == i && (8 * i + 4) % 8 == 4);
        assert((8 * i + 5) / 8 == i && (8 * i + 5) % 8 == 5);
        assert((8 * i + 6) / 8 == i && (8 * i + 6) % 8 == 6);
        assert((8 * i + 7) / 8 == i && (8 * i + 7) % 8 == 7);
        lemma_word64_round_trip(ws[i]);
    }
    assert(le_words64(b) =~= ws);
}

/// The byte buffer that encodes the same values as a descriptor's typed list.
pub open spec fn raw_encoding_of(t: TensorProto) -> Seq<u8> {
    if t.data_type == FLOAT {
        le_bytes32(t.float_data@)
    } else if t.data_type == DOUBLE {
        le_bytes64(t.double_data@)
    } else if t.data_type == INT32 {
        le_bytes32(t.int32_data@.map_values(|v: i32| v as u32))
    } else {
        le_bytes64(t.int64_data@.map_values(|v: i64| v as u64))
    }
}

/// The number of values in a descriptor's typed list for its element type.
pub open spec fn typed_len(t: TensorProto) -> nat {
    if t.data_type == FLOAT {
        t.float_data@.len()
    } else if t.data_type == DOUBLE {
        t.double_data@.len()
    } else if t.data_type == INT32 {
        t.int32_data@.len()
    } else {
        t.int64_data@.len()
    }
}

/// A descriptor that stores its values as little-endian bytes and one that stores the
/// same values in the typed list, with the same element type and dimensions, decode
/// to the same payload: one decodes exactly when the other does, to a tensor of the
/// same shape and the same elements.
pub proof fn lemma_raw_and_typed_agree<T, A: ScalarOps<T>>(ops: &A, typed: TensorProto, raw: TensorProto)
    requires
        supported_type(typed.data_type),
        typed.raw_data@.len() == 0,
        typed_len(typed) > 0,
        raw.data_type == typed.data_type,
        raw.dims@ == typed.dims@,
        raw.raw_data@ == raw_encoding_of(typed),
    ensures
        payload_of(raw) == payload_of(typed),
        dims_of(raw) == dims_of(typed),
        decodable(raw) == decodable(typed),
        decodable(typed) ==> elements_of(ops, payload_of(raw)->Some_0) == elements_of(ops, payload_of(typed)->Some_0),
{
    assert(dims_of(raw) =~= dims_of(typed));
    if typed.data_type == FLOAT {
        lemma_le_words32_round_trip(typed.float_data@);
        assert(raw.raw_data@.len() > 0);
    } else if typed.data_type == DOUBLE {
        lemma_le_words64_round_trip(typed.double_data@);
        assert(raw.raw_data@.len() > 0);
    } else if typed.data_type == INT32 {
        let ws = typed.int32_data@.map_values(|v: i32| v as u32);
        lemma_le_words32_round_trip(ws);
        assert(raw.raw_data@.len() > 0);
        assert forall|i: int| 0 <= i < ws.len() implies (ws[i] as i32) == typed.int32_data@[i] by {
            let v = typed.int32_data@[i];
            assert(((v as u32) as i32) == v) by (bit_vector);
        }
        assert(ws.map_values(|w: u32| w as i32) =~= typed.int32_data@);
    } else {
        let ws = typed.int64_data@.map_values(|v: i64| v as u64);
        lemma_le_words64_round_trip(ws);
        assert(raw.raw_data@.len() > 0);
        assert forall|i: int| 0 <= i < ws.len() implies (ws[i] as i64) == typed.int64_data@[i] by {
            let v = typed.int64_data@[i];
            assert(((v as u64) as i64) == v) by (bit_vector);
        }
        assert(ws.map_values(|w: u64| w as i64) =~= typed.int64_data@);
    }
}

} // verus!
