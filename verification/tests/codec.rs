use sqlx_core::error::Error;
use sqlx_core::value::{decode_value, encode_value, Value, TAG_BOOL, TAG_BYTES, TAG_INT4, TAG_INT8};

fn round_trips(v: Value) {
    let bytes = encode_value(&v);
    let back = decode_value(&bytes, 0).expect("well-formed encoding must decode");
    assert_eq!(back, v);
}

#[test]
fn bool_round_trip() {
    round_trips(Value::Bool(true));
    round_trips(Value::Bool(false));
}

#[test]
fn int4_round_trip() {
    for v in [0i32, 1, -1, 41, i32::MAX, i32::MIN, -123_456_789] {
        round_trips(Value::Int4(v));
    }
}

#[test]
fn int8_round_trip() {
    for v in [0i64, 1, -1, i64::MAX, i64::MIN, 4_611_686_018_427_387_904] {
        round_trips(Value::Int8(v));
    }
}

#[test]
fn bytes_round_trip() {
    round_trips(Value::Bytes(Vec::new()));
    round_trips(Value::Bytes(vec![0, 1, 2, 255, 128]));
}

#[test]
fn exact_wire_layout() {
    assert_eq!(encode_value(&Value::Bool(true)), vec![TAG_BOOL, 1]);
    assert_eq!(encode_value(&Value::Bool(false)), vec![TAG_BOOL, 0]);
    assert_eq!(encode_value(&Value::Int4(1)), vec![TAG_INT4, 1, 0, 0, 0]);
    assert_eq!(
        encode_value(&Value::Int4(-1)),
        vec![TAG_INT4, 255, 255, 255, 255]
    );
    assert_eq!(
        encode_value(&Value::Int8(258)),
        vec![TAG_INT8, 2, 1, 0, 0, 0, 0, 0, 0]
    );
    assert_eq!(
        encode_value(&Value::Bytes(vec![7, 8])),
        vec![TAG_BYTES, 2, 0, 0, 0, 7, 8]
    );
}

#[test]
fn malformed_encodings_are_decode_errors() {
    // Empty input: no tag at all.
    let r = decode_value(&Vec::new(), 3);
    match r {
        Err(Error::DecodeError { column, .. }) => assert_eq!(column, 3),
        other => panic!("expected a decode error, got {:?}", other),
    }
    // Unknown tag.
    assert!(decode_value(&vec![9, 0, 0], 0).is_err());
    // Truncated 32-bit integer payload.
    assert!(decode_value(&vec![TAG_INT4, 1, 2], 0).is_err());
    // Byte-string length that disagrees with the payload.
    assert!(decode_value(&vec![TAG_BYTES, 3, 0, 0, 0, 1], 0).is_err());
    // A boolean payload that is neither zero nor one.
    assert!(decode_value(&vec![TAG_BOOL, 2], 0).is_err());
}
