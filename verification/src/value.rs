use vstd::prelude::*;
use crate::error::Error;

verus! {

/// Wire-format tag for a boolean value.
pub const TAG_BOOL: u8 = 0;

/// Wire-format tag for a 32-bit integer value.
pub const TAG_INT4: u8 = 1;

/// Wire-format tag for a 64-bit integer value.
pub const TAG_INT8: u8 = 2;

/// Wire-format tag for a byte-string value.
pub const TAG_BYTES: u8 = 3;

/// Tag reported in a decode error when the input holds no tag at all.
pub const TAG_MISSING: u8 = 255;

/// A scalar value of one of the backend's supported wire types.
#[derive(Clone, Debug, PartialEq)]
pub enum Value {
    Bool(bool),
    Int4(i32),
    Int8(i64),
    Bytes(Vec<u8>),
}

/// Mathematical model of a scalar value.
pub enum ValueModel {
    MBool(bool),
    MInt4(i32),
    MInt8(i64),
    MBytes(Seq<u8>),
}

impl View for Value {
    type V = ValueModel;

    open spec fn view(&self) -> ValueModel {
        match self {
            Value::Bool(b) => ValueModel::MBool(*b),
            Value::Int4(x) => ValueModel::MInt4(*x),
            Value::Int8(x) => ValueModel::MInt8(*x),
            Value::Bytes(bs) => ValueModel::MBytes(bs@),
        }
    }
}

impl DeepView for Value {
    type V = ValueModel;

    open spec fn deep_view(&self) -> ValueModel {
        self.view()
    }
}

/// A value is representable on the wire: a byte string must fit the four
/// length bytes its encoding carries.
pub open spec fn value_model_wf(m: ValueModel) -> bool {
    match m {
        ValueModel::MBytes(bs) => bs.len() <= 0xffff_ffff,
        _ => true,
    }
}

/// The wire tag of a value's model.
pub open spec fn tag_of(m: ValueModel) -> u8 {
    match m {
        ValueModel::MBool(_) => TAG_BOOL,
        ValueModel::MInt4(_) => TAG_INT4,
        ValueModel::MInt8(_) => TAG_INT8,
        ValueModel::MBytes(_) => TAG_BYTES,
    }
}

/// The unsigned 32-bit pattern that carries a signed 32-bit value.
pub open spec fn i32_to_u32(x: i32) -> u32 {
    if x >= 0 {
        x as u32
    } else {
        (x + 0x1_0000_0000) as u32
    }
}

/// The signed 32-bit value carried by an unsigned 32-bit pattern.
pub open spec fn u32_to_i32(u: u32) -> i32 {
    if u < 0x8000_0000 {
        u as i32
    } else {
        (u - 0x1_0000_0000) as i32
    }
}

/// The unsigned 64-bit pattern that carries a signed 64-bit value.
pub open spec fn i64_to_u64(x: i64) -> u64 {
    if x >= 0 {
        x as u64
    } else {
        (x + 0x1_0000_0000_0000_0000) as u64
    }
}

/// The signed 64-bit value carried by an unsigned 64-bit pattern.
pub open spec fn u64_to_i64(u: u64) -> i64 {
    if u < 0x8000_0000_0000_0000 {
        u as i64
    } else {
        (u - 0x1_0000_0000_0000_0000) as i64
    }
}

/// Little-endian bytes of an unsigned 32-bit value.
pub open spec fn u32_le(x: u32) -> Seq<u8> {
    seq![
        (x & 0xff) as u8,
        ((x >> 8) & 0xff) as u8,
        ((x >> 16) & 0xff) as u8,
        ((x >> 24) & 0xff) as u8,
    ]
}

/// The unsigned 32-bit value read from four little-endian bytes.
pub open spec fn u32_from_le(b0: u8, b1: u8, b2: u8, b3: u8) -> u32 {
    (b0 as u32) | ((b1 as u32) << 8) | ((b2 as u32) << 16) | ((b3 as u32) << 24)
}

/// Little-endian bytes of an unsigned 64-bit value.
pub open spec fn u64_le(x: u64) -> Seq<u8> {
    seq![
        (x & 0xff) as u8,
        ((x >> 8) & 0xff) as u8,
        ((x >> 16) & 0xff) as u8,
        ((x >> 24) & 0xff) as u8,
        ((x >> 32) & 0xff) as u8,
        ((x >> 40) & 0xff) as u8,
        ((x >> 48) & 0xff) as u8,
        ((x >> 56) & 0xff) as u8,
    ]
}

/// The unsigned 64-bit value read from eight little-endian bytes.
pub open spec fn u64_from_le(
    b0: u8, b1: u8, b2: u8, b3: u8, b4: u8, b5: u8, b6: u8, b7: u8,
) -> u64 {
    (b0 as u64) | ((b1 as u64) << 8) | ((b2 as u64) << 16) | ((b3 as u64) << 24)
        | ((b4 as u64) << 32) | ((b5 as u64) << 40) | ((b6 as u64) << 48) | ((b7 as u64) << 56)
}

/// Binary wire encoding of one scalar value: a one-byte tag, then a
/// fixed-width little-endian payload, or a four-byte length and the raw
/// bytes for a byte string.
pub open spec fn spec_encode(m: ValueModel) -> Seq<u8> {
    match m {
        ValueModel::MBool(b) => seq![TAG_BOOL, if b { 1u8 } else { 0u8 }],
        ValueModel::MInt4(x) => seq![TAG_INT4] + u32_le(i32_to_u32(x)),
        ValueModel::MInt8(x) => seq![TAG_INT8] + u64_le(i64_to_u64(x)),
        ValueModel::MBytes(bs) => seq![TAG_BYTES] + u32_le(bs.len() as u32) + bs,
    }
}

/// Decoding of one scalar value from its full wire encoding. `None` marks a
/// malformed encoding.
pub open spec fn spec_decode(b: Seq<u8>) -> Option<ValueModel> {
    if b.len() < 1 {
        None
    } else if b[0] == TAG_BOOL {
        if b.len() == 2 && (b[1] == 0 || b[1] == 1) {
            Some(ValueModel::MBool(b[1] == 1))
        } else {
            None
        }
    } else if b[0] == TAG_INT4 {
        if b.len() == 5 {
            Some(ValueModel::MInt4(u32_to_i32(u32_from_le(b[1], b[2], b[3], b[4]))))
        } else {
            None
        }
    } else if b[0] == TAG_INT8 {
        if b.len() == 9 {
            Some(ValueModel::MInt8(u64_to_i64(u64_from_le(
                b[1], b[2], b[3], b[4], b[5], b[6], b[7], b[8],
            ))))
        } else {
            None
        }
    } else if b[0] == TAG_BYTES {
        if b.len() >= 5 && u32_from_le(b[1], b[2], b[3], b[4]) == b.len() - 5 {
            Some(ValueModel::MBytes(b.skip(5)))
        } else {
            None
        }
    } else {
        None
    }
}

proof fn lemma_u32_le_round(x: u32)
    ensures
        u32_from_le(u32_le(x)[0], u32_le(x)[1], u32_le(x)[2], u32_le(x)[3]) == x,
{
    assert(((x & 0xff) as u8 as u32) | ((((x >> 8) & 0xff) as u8 as u32) << 8)
        | ((((x >> 16) & 0xff) as u8 as u32) << 16) | ((((x >> 24) & 0xff) as u8 as u32) << 24)
        == x) by (bit_vector);
}

proof fn lemma_u64_le_round(x: u64)
    ensures
        u64_from_le(
            u64_le(x)[0], u64_le(x)[1], u64_le(x)[2], u64_le(x)[3],
            u64_le(x)[4], u64_le(x)[5], u64_le(x)[6], u64_le(x)[7],
        ) == x,
{
    assert(((x & 0xff) as u8 as u64) | ((((x >> 8) & 0xff) as u8 as u64) << 8)
        | ((((x >> 16) & 0xff) as u8 as u64) << 16) | ((((x >> 24) & 0xff) as u8 as u64) << 24)
        | ((((x >> 32) & 0xff) as u8 as u64) << 32) | ((((x >> 40) & 0xff) as u8 as u64) << 40)
        | ((((x >> 48) & 0xff) as u8 as u64) << 48) | ((((x >> 56) & 0xff) as u8 as u64) << 56)
        == x) by (bit_vector);
}

/// Round-trip law: decoding the encoding of any representable scalar value
/// yields that value back, for every supported scalar type.
pub proof fn lemma_value_round_trip(m: ValueModel)
    requires
        value_model_wf(m),
    ensures
        spec_decode(spec_encode(m)) == Some(m),
{
    match m {
        ValueModel::MBool(b) => {
            let e = spec_encode(m);
            assert(e[0] == TAG_BOOL);
            assert(e[1] == if b { 1u8 } else { 0u8 });
        },
        ValueModel::MInt4(x) => {
            let u = i32_to_u32(x);
            let e = spec_encode(m);
            assert(e.len() == 5);
            assert(e[0] == TAG_INT4);
            assert(e[1] == u32_le(u)[0] && e[2] == u32_le(u)[1] && e[3] == u32_le(u)[2]
                && e[4] == u32_le(u)[3]);
            lemma_u32_le_round(u);
            assert(u32_to_i32(u) == x);
        },
        ValueModel::MInt8(x) => {
            let u = i64_to_u64(x);
            let e = spec_encode(m);
            assert(e.len() == 9);
            assert(e[0] == TAG_INT8);
            assert(e[1] == u64_le(u)[0] && e[2] == u64_le(u)[1] && e[3] == u64_le(u)[2]
                && e[4] == u64_le(u)[3] && e[5] == u64_le(u)[4] && e[6] == u64_le(u)[5]
                && e[7] == u64_le(u)[6] && e[8] == u64_le(u)[7]);
            lemma_u64_le_round(u);
            assert(u64_to_i64(u) == x);
        },
        ValueModel::MBytes(bs) => {
            let n = bs.len() as u32;
            let e = spec_encode(m);
            assert(e.len() == 5 + bs.len());
            assert(e[0] == TAG_BYTES);
            assert(e[1] == u32_le(n)[0] && e[2] == u32_le(n)[1] && e[3] == u32_le(n)[2]
                && e[4] == u32_le(n)[3]);
            lemma_u32_le_round(n);
            assert(e.skip(5) =~= bs);
        },
    }
}

/// Unsigned pattern of a signed 32-bit value, computed without truncation.
fn i32_bits(x: i32) -> (u: u32)
    ensures
        u == i32_to_u32(x),
{
    if x >= 0 {
        x as u32
    } else {
        ((x as i64) + 0x1_0000_0000i64) as u32
    }
}

/// Signed 32-bit value of an unsigned pattern, computed without truncation.
fn i32_from_bits(u: u32) -> (x: i32)
    ensures
        x == u32_to_i32(u),
{
    if u < 0x8000_0000 {
        u as i32
    } else {
        ((u as i64) - 0x1_0000_0000i64) as i32
    }
}

/// Unsigned pattern of a signed 64-bit value, computed without truncation.
fn i64_bits(x: i64) -> (u: u64)
    ensures
        u == i64_to_u64(x),
{
    if x >= 0 {
        x as u64
    } else {
        let lifted: u64 = ((x + 0x4000_0000_0000_0000i64) + 0x4000_0000_0000_0000i64) as u64;
        proof {
            assert(lifted == x + 0x8000_0000_0000_0000);
            assert(i64_to_u64(x) == x + 0x1_0000_0000_0000_0000);
            assert(lifted + 0x8000_0000_0000_0000 == i64_to_u64(x));
        }
        lifted + 0x8000_0000_0000_0000u64
    }
}

/// Signed 64-bit value of an unsigned pattern, computed without truncation.
fn i64_from_bits(u: u64) -> (x: i64)
    ensures
        x == u64_to_i64(u),
{
    if u < 0x8000_0000_0000_0000 {
        u as i64
    } else {
        let dropped: u64 = u - 0x8000_0000_0000_0000u64;
        proof {
            assert(u64_to_i64(u) == u - 0x1_0000_0000_0000_0000);
            assert((dropped as i64) - 0x8000_0000_0000_0000 == u64_to_i64(u));
        }
        ((dropped as i64) - 0x4000_0000_0000_0000i64) - 0x4000_0000_0000_0000i64
    }
}

fn push_u32_le(out: &mut Vec<u8>, x: u32)
    ensures
        final(out)@ == old(out)@ + u32_le(x),
{
    out.push((x & 0xff) as u8);
    out.push(((x >> 8) & 0xff) as u8);
    out.push(((x >> 16) & 0xff) as u8);
    out.push(((x >> 24) & 0xff) as u8);
    proof {
        assert(out@ =~= old(out)@ + u32_le(x));
    }
}

fn push_u64_le(out: &mut Vec<u8>, x: u64)
    ensures
        final(out)@ == old(out)@ + u64_le(x),
{
    out.push((x & 0xff) as u8);
    out.push(((x >> 8) & 0xff) as u8);
    out.push(((x >> 16) & 0xff) as u8);
    out.push(((x >> 24) & 0xff) as u8);
    out.push(((x >> 32) & 0xff) as u8);
    out.push(((x >> 40) & 0xff) as u8);
    out.push(((x >> 48) & 0xff) as u8);
    out.push(((x >> 56) & 0xff) as u8);
    proof {
        assert(out@ =~= old(out)@ + u64_le(x));
    }
}

/// Encodes one scalar value into its binary wire representation.
pub fn encode_value(v: &Value) -> (r: Vec<u8>)
    requires
        value_model_wf(v@),
    ensures
        r@ == spec_encode(v@),
{
    match v {
        Value::Bool(b) => {
            let mut out: Vec<u8> = Vec::new();
            out.push(TAG_BOOL);
            out.push(if *b { 1u8 } else { 0u8 });
            proof {
                assert(out@ =~= spec_encode(v@));
            }
            out
        },
        Value::Int4(x) => {
            let mut out: Vec<u8> = Vec::new();
            out.push(TAG_INT4);
            let u = i32_bits(*x);
            push_u32_le(&mut out, u);
            proof {
                assert(out@ =~= spec_encode(v@));
            }
            out
        },
        Value::Int8(x) => {
            let mut out: Vec<u8> = Vec::new();
            out.push(TAG_INT8);
            let u = i64_bits(*x);
            push_u64_le(&mut out, u);
            proof {
                assert(out@ =~= spec_encode(v@));
            }
            out
        },
        Value::Bytes(bs) => {
            let mut out: Vec<u8> = Vec::new();
            out.push(TAG_BYTES);
            push_u32_le(&mut out, bs.len() as u32);
            let mut i: usize = 0;
            while i < bs.len()
                invariant
                    i <= bs@.len(),
                    bs@.len() <= 0xffff_ffff,
                    out@ == seq![TAG_BYTES] + u32_le(bs@.len() as u32) + bs@.take(i as int),
                decreases bs@.len() - i,
            {
                out.push(bs[i]);
                proof {
                    assert(bs@.take(i + 1) =~= bs@.take(i as int).push(bs@[i as int]));
                    assert(out@ =~= seq![TAG_BYTES] + u32_le(bs@.len() as u32) + bs@.take(i + 1));
                }
                i += 1;
            }
            proof {
                assert(bs@.take(bs@.len() as int) =~= bs@);
                assert(out@ =~= spec_encode(v@));
            }
            out
        },
    }
}

/// Decodes one scalar value from its full wire encoding. A malformed
/// encoding is a decode error naming the column the bytes came from.
pub fn decode_value(b: &Vec<u8>, column: usize) -> (r: Result<Value, Error>)
    ensures
        match spec_decode(b@) {
            Some(m) => r is Ok && match r {
                Ok(v) => v@ == m,
                Err(_) => false,
            },
            None => r == Err::<Value, Error>(Error::DecodeError {
                column,
                expected: TAG_MISSING,
                actual: if b@.len() < 1 { TAG_MISSING } else { b@[0] },
            }),
        },
{
    let malformed = Error::DecodeError {
        column,
        expected: TAG_MISSING,
        actual: if b.len() < 1 { TAG_MISSING } else { b[0] },
    };
    if b.len() < 1 {
        return Err(malformed);
    }
    let tag = b[0];
    if tag == TAG_BOOL {
        if b.len() == 2 && (b[1] == 0 || b[1] == 1) {
            Ok(Value::Bool(b[1] == 1))
        } else {
            Err(malformed)
        }
    } else if tag == TAG_INT4 {
        if b.len() == 5 {
            let u = (b[1] as u32) | ((b[2] as u32) << 8) | ((b[3] as u32) << 16)
                | ((b[4] as u32) << 24);
            Ok(Value::Int4(i32_from_bits(u)))
        } else {
            Err(malformed)
        }
    } else if tag == TAG_INT8 {
        if b.len() == 9 {
            let u = (b[1] as u64) | ((b[2] as u64) << 8) | ((b[3] as u64) << 16)
                | ((b[4] as u64) << 24) | ((b[5] as u64) << 32) | ((b[6] as u64) << 40)
                | ((b[7] as u64) << 48) | ((b[8] as u64) << 56);
            Ok(Value::Int8(i64_from_bits(u)))
        } else {
            Err(malformed)
        }
    } else if tag == TAG_BYTES {
        if b.len() >= 5 {
            let n = (b[1] as u32) | ((b[2] as u32) << 8) | ((b[3] as u32) << 16)
                | ((b[4] as u32) << 24);
            if n as usize == b.len() - 5 {
                let mut payload: Vec<u8> = Vec::new();
                let mut i: usize = 5;
                while i < b.len()
                    invariant
                        5 <= i <= b@.len(),
                        payload@ == b@.subrange(5, i as int),
                    decreases b@.len() - i,
                {
                    payload.push(b[i]);
                    proof {
                        assert(b@.subrange(5, i + 1) =~= b@.subrange(5, i as int).push(
                            b@[i as int]));
                    }
                    i += 1;
                }
                proof {
                    assert(payload@ =~= b@.skip(5));
                }
                Ok(Value::Bytes(payload))
            } else {
                proof {
                    assert(n as usize != b@.len() - 5);
                }
                Err(malformed)
            }
        } else {
            Err(malformed)
        }
    } else {
        Err(malformed)
    }
}

} // verus!
