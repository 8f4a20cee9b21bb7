use aerospike_py::codec::{
    read_value_from_buffer, write_bytes_to_buffer, write_float_to_buffer, write_int_to_buffer,
    write_uint_to_buffer, write_value_to_buffer,
};
use aerospike_py::errors::CodecError;
use aerospike_py::schema::{DtypeKind, FieldInfo};
use aerospike_py::value::{FloatValue, Value};

fn field(name: &str, offset: usize, itemsize: usize, base_itemsize: usize, kind: DtypeKind) -> FieldInfo {
    FieldInfo { name: name.to_string(), offset, itemsize, base_itemsize, kind }
}

#[test]
fn test_write_int_i32() {
    let mut buf = vec![0u8; 16];
    let f = field("x", 4, 4, 4, DtypeKind::Int);
    write_int_to_buffer(&mut buf, 0, &f, 42).unwrap();
    let val = i32::from_le_bytes([buf[4], buf[5], buf[6], buf[7]]);
    assert_eq!(val, 42);
}

#[test]
fn test_write_int_i8_truncation() {
    let mut buf = vec![0u8; 8];
    let f = field("x", 0, 1, 1, DtypeKind::Int);
    write_int_to_buffer(&mut buf, 0, &f, 300).unwrap(); // truncates to 44
    let val = buf[0] as i8;
    assert_eq!(val, 300i64 as i8);
}

#[test]
fn test_write_float_f32() {
    let mut buf = vec![0u8; 8];
    let f = field("x", 0, 4, 4, DtypeKind::Float);
    write_float_to_buffer(&mut buf, 0, &f, 3.14f64.to_bits()).unwrap();
    let val = f32::from_le_bytes([buf[0], buf[1], buf[2], buf[3]]);
    assert!((val - 3.14f32).abs() < 1e-5);
}

#[test]
fn test_write_float_f64() {
    let mut buf = vec![0u8; 16];
    let f = field("x", 0, 8, 8, DtypeKind::Float);
    write_float_to_buffer(&mut buf, 0, &f, 3.141592653589793f64.to_bits()).unwrap();
    let val = f64::from_le_bytes([
        buf[0], buf[1], buf[2], buf[3], buf[4], buf[5], buf[6], buf[7],
    ]);
    assert!((val - 3.141592653589793f64).abs() < 1e-15);
}

#[test]
fn test_write_bytes_truncation() {
    let mut buf = vec![0u8; 8];
    let f = field("x", 0, 4, 4, DtypeKind::FixedBytes);
    write_bytes_to_buffer(&mut buf, 0, &f, b"abcdefgh");
    // only first 4 bytes copied
    assert_eq!(&buf[0..4], b"abcd");
    assert_eq!(&buf[4..8], &[0, 0, 0, 0]);
}

#[test]
fn test_write_bytes_padding() {
    let mut buf = vec![0u8; 8];
    let f = field("x", 0, 8, 8, DtypeKind::FixedBytes);
    write_bytes_to_buffer(&mut buf, 0, &f, b"ab");
    assert_eq!(&buf[0..2], b"ab");
    assert_eq!(&buf[2..8], &[0, 0, 0, 0, 0, 0]); // zero-padded
}

#[test]
fn test_unsupported_int_size() {
    let mut buf = vec![0u8; 8];
    let f = field("x", 0, 3, 3, DtypeKind::Int);
    let result = write_int_to_buffer(&mut buf, 0, &f, 42);
    assert!(result.is_err());
}

#[test]
fn test_write_uint_u16() {
    let mut buf = vec![0u8; 8];
    let f = field("x", 2, 2, 2, DtypeKind::Uint);
    write_uint_to_buffer(&mut buf, 0, &f, 65535).unwrap();
    let val = u16::from_le_bytes([buf[2], buf[3]]);
    assert_eq!(val, 65535);
}

#[test]
fn test_write_float_f16_normal() {
    let mut buf = vec![0u8; 4];
    let f = field("x", 0, 2, 2, DtypeKind::Float);
    write_float_to_buffer(&mut buf, 0, &f, 1.5f64.to_bits()).unwrap();
    let bits = u16::from_le_bytes([buf[0], buf[1]]);
    let val = half::f16::from_bits(bits);
    assert!((val.to_f64() - 1.5).abs() < 1e-3);
}

#[test]
fn test_write_float_f16_denormal() {
    let mut buf = vec![0u8; 4];
    let f = field("x", 0, 2, 2, DtypeKind::Float);
    // Smallest positive normal f16 is ~6.1e-5; test a denormal value
    let denorm_val = 5.96e-8_f64; // smallest f16 denormal
    write_float_to_buffer(&mut buf, 0, &f, denorm_val.to_bits()).unwrap();
    let bits = u16::from_le_bytes([buf[0], buf[1]]);
    let val = half::f16::from_bits(bits);
    // Should be representable as denormal, not flushed to zero
    assert!(val.to_f64() > 0.0 || denorm_val < half::f16::MIN_POSITIVE.to_f64());
}

#[test]
fn test_write_float_f16_infinity() {
    let mut buf = vec![0u8; 4];
    let f = field("x", 0, 2, 2, DtypeKind::Float);
    write_float_to_buffer(&mut buf, 0, &f, f64::INFINITY.to_bits()).unwrap();
    let bits = u16::from_le_bytes([buf[0], buf[1]]);
    let val = half::f16::from_bits(bits);
    assert!(val.is_infinite());
    assert!(val.is_sign_positive());
}

#[test]
fn test_write_float_f16_nan() {
    let mut buf = vec![0u8; 4];
    let f = field("x", 0, 2, 2, DtypeKind::Float);
    write_float_to_buffer(&mut buf, 0, &f, f64::NAN.to_bits()).unwrap();
    let bits = u16::from_le_bytes([buf[0], buf[1]]);
    let val = half::f16::from_bits(bits);
    assert!(val.is_nan());
}

#[test]
fn test_write_bytes_empty_data() {
    let mut buf = vec![0u8; 8];
    let f = field("x", 0, 4, 4, DtypeKind::FixedBytes);
    write_bytes_to_buffer(&mut buf, 0, &f, b"");
    // Buffer should remain zero-initialized
    assert_eq!(&buf[0..4], &[0, 0, 0, 0]);
}

#[test]
fn test_write_value_nil_leaves_zero() {
    let mut buf = vec![0u8; 8];
    let f = field("x", 0, 4, 4, DtypeKind::Int);
    write_value_to_buffer(&mut buf, 0, &f, &Value::Nil).unwrap();
    let val = i32::from_le_bytes([buf[0], buf[1], buf[2], buf[3]]);
    assert_eq!(val, 0);
}

// ── read_value_from_buffer tests ────────────────────────────

#[test]
fn test_read_int_i32() {
    let mut buf = vec![0u8; 16];
    let f = field("x", 4, 4, 4, DtypeKind::Int);
    buf[4..8].copy_from_slice(&42i32.to_le_bytes());
    let val = read_value_from_buffer(&buf, 0, &f).unwrap();
    assert_eq!(val, Value::Int(42));
}

#[test]
fn test_read_uint_u16() {
    let mut buf = vec![0u8; 8];
    let f = field("x", 2, 2, 2, DtypeKind::Uint);
    buf[2..4].copy_from_slice(&65535u16.to_le_bytes());
    let val = read_value_from_buffer(&buf, 0, &f).unwrap();
    assert_eq!(val, Value::Int(65535));
}

#[test]
fn test_read_float_f64() {
    let mut buf = vec![0u8; 16];
    let f = field("x", 0, 8, 8, DtypeKind::Float);
    buf[0..8].copy_from_slice(&3.14f64.to_le_bytes());
    let val = read_value_from_buffer(&buf, 0, &f).unwrap();
    match val {
        Value::Float(FloatValue::F64(bits)) => {
            assert!((f64::from_bits(bits) - 3.14).abs() < 1e-10);
        }
        _ => panic!("expected Float"),
    }
}

#[test]
fn test_read_bytes() {
    let mut buf = vec![0u8; 8];
    let f = field("x", 0, 4, 4, DtypeKind::FixedBytes);
    buf[0..4].copy_from_slice(b"abcd");
    let val = read_value_from_buffer(&buf, 0, &f).unwrap();
    assert_eq!(val, Value::Blob(b"abcd".to_vec()));
}

#[test]
fn test_roundtrip_write_read_int() {
    let mut buf = vec![0u8; 8];
    let f = field("x", 0, 4, 4, DtypeKind::Int);
    write_int_to_buffer(&mut buf, 0, &f, -123).unwrap();
    let val = read_value_from_buffer(&buf, 0, &f).unwrap();
    assert_eq!(val, Value::Int(-123));
}

// ── further coercion paths ──────────────────────────────────

#[test]
fn test_write_value_float_to_int_truncates_toward_zero() {
    let mut buf = vec![0u8; 8];
    let f = field("x", 0, 4, 4, DtypeKind::Int);
    write_value_to_buffer(&mut buf, 0, &f, &Value::Float(FloatValue::F64(3.7f64.to_bits())))
        .unwrap();
    assert_eq!(read_value_from_buffer(&buf, 0, &f).unwrap(), Value::Int(3));
    write_value_to_buffer(&mut buf, 0, &f, &Value::Float(FloatValue::F64((-3.7f64).to_bits())))
        .unwrap();
    assert_eq!(read_value_from_buffer(&buf, 0, &f).unwrap(), Value::Int(-3));
}

#[test]
fn test_write_value_nan_to_int_is_zero() {
    let mut buf = vec![0u8; 8];
    let f = field("x", 0, 8, 8, DtypeKind::Int);
    write_value_to_buffer(&mut buf, 0, &f, &Value::Float(FloatValue::F64(f64::NAN.to_bits())))
        .unwrap();
    assert_eq!(read_value_from_buffer(&buf, 0, &f).unwrap(), Value::Int(0));
}

#[test]
fn test_write_value_int_to_float_field() {
    let mut buf = vec![0u8; 8];
    let f = field("x", 0, 8, 8, DtypeKind::Float);
    write_value_to_buffer(&mut buf, 0, &f, &Value::Int(3)).unwrap();
    let val = f64::from_le_bytes([
        buf[0], buf[1], buf[2], buf[3], buf[4], buf[5], buf[6], buf[7],
    ]);
    assert_eq!(val, 3.0);
}

#[test]
fn test_write_value_large_int_to_float_rounds() {
    // 2^60 + 1 is not representable in binary64; conversion rounds to nearest
    let v: i64 = (1i64 << 60) + 1;
    let mut buf = vec![0u8; 8];
    let f = field("x", 0, 8, 8, DtypeKind::Float);
    write_value_to_buffer(&mut buf, 0, &f, &Value::Int(v)).unwrap();
    let val = f64::from_le_bytes([
        buf[0], buf[1], buf[2], buf[3], buf[4], buf[5], buf[6], buf[7],
    ]);
    assert_eq!(val, v as f64);
}

#[test]
fn test_write_value_bool_to_uint() {
    let mut buf = vec![0u8; 8];
    let f = field("x", 0, 1, 1, DtypeKind::Uint);
    write_value_to_buffer(&mut buf, 0, &f, &Value::Bool(true)).unwrap();
    assert_eq!(buf[0], 1);
    write_value_to_buffer(&mut buf, 0, &f, &Value::Bool(false)).unwrap();
    assert_eq!(buf[0], 0);
}

#[test]
fn test_write_value_string_to_int_is_type_mismatch() {
    let mut buf = vec![0u8; 8];
    let f = field("num", 0, 4, 4, DtypeKind::Int);
    let r = write_value_to_buffer(&mut buf, 0, &f, &Value::String("oops".to_string()));
    match r {
        Err(CodecError::TypeMismatch { field, .. }) => assert_eq!(field, "num"),
        other => panic!("expected TypeMismatch, got {:?}", other),
    }
    assert_eq!(&buf[0..4], &[0, 0, 0, 0]);
}

#[test]
fn test_write_value_string_to_fixed_bytes() {
    let mut buf = vec![0u8; 8];
    let f = field("s", 0, 4, 4, DtypeKind::FixedBytes);
    write_value_to_buffer(&mut buf, 0, &f, &Value::String("abcdefgh".to_string())).unwrap();
    assert_eq!(&buf[0..4], b"abcd");
    assert_eq!(&buf[4..8], &[0, 0, 0, 0]);
}

#[test]
fn test_write_value_blob_to_numeric_subarray() {
    let mut buf = vec![0u8; 8];
    // itemsize 8 with 2-byte base elements: a packed sub-array
    let f = field("arr", 0, 8, 2, DtypeKind::Uint);
    write_value_to_buffer(&mut buf, 0, &f, &Value::Blob(vec![1, 2, 3, 4])).unwrap();
    assert_eq!(&buf[0..4], &[1, 2, 3, 4]);
}

#[test]
fn test_write_value_blob_to_scalar_numeric_is_type_mismatch() {
    let mut buf = vec![0u8; 8];
    let f = field("n", 0, 4, 4, DtypeKind::Int);
    let r = write_value_to_buffer(&mut buf, 0, &f, &Value::Blob(vec![1, 2, 3, 4]));
    assert!(matches!(r, Err(CodecError::TypeMismatch { .. })));
}

#[test]
fn test_read_int_i8_negative() {
    let mut buf = vec![0u8; 4];
    buf[0] = 0xFF;
    let f = field("x", 0, 1, 1, DtypeKind::Int);
    assert_eq!(read_value_from_buffer(&buf, 0, &f).unwrap(), Value::Int(-1));
}

#[test]
fn test_read_f16_field() {
    let mut buf = vec![0u8; 4];
    let h = half::f16::from_f64(1.5);
    buf[0..2].copy_from_slice(&h.to_bits().to_le_bytes());
    let f = field("x", 0, 2, 2, DtypeKind::Float);
    match read_value_from_buffer(&buf, 0, &f).unwrap() {
        Value::Float(FloatValue::F64(bits)) => assert_eq!(f64::from_bits(bits), 1.5),
        other => panic!("expected Float, got {:?}", other),
    }
}

#[test]
fn test_unsupported_float_size() {
    let mut buf = vec![0u8; 8];
    let f = field("x", 0, 3, 3, DtypeKind::Float);
    let r = write_float_to_buffer(&mut buf, 0, &f, 1.0f64.to_bits());
    match r {
        Err(CodecError::UnsupportedWidth { field, width }) => {
            assert_eq!(field, "x");
            assert_eq!(width, 3);
        }
        other => panic!("expected UnsupportedWidth, got {:?}", other),
    }
}
