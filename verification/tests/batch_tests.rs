use aerospike_py::decode::{numpy_to_records, trim_trailing_zeros};
use aerospike_py::encode::batch_to_buffers;
use aerospike_py::errors::CodecError;
use aerospike_py::result_code::ResultCode;
use aerospike_py::schema::{parse_dtype_fields, DtypeKind, RawField, Schema};
use aerospike_py::value::{BatchRecord, Bin, Key, Record, Value};

fn raw(name: &str, offset: usize, itemsize: usize, base_itemsize: usize, kind_code: char) -> RawField {
    RawField { name: name.to_string(), offset, itemsize, base_itemsize, kind_code }
}

fn key(ns: &str, set: &str, user_key: Option<Value>) -> Key {
    Key {
        namespace: ns.to_string(),
        set_name: set.to_string(),
        user_key,
        digest: [0u8; 20],
    }
}

fn ok_row(k: Key, bins: Vec<Bin>) -> BatchRecord {
    BatchRecord {
        key: k,
        result_code: Some(ResultCode::Okay),
        record: Some(Record { generation: 3, ttl_seconds: Some(120), bins }),
    }
}

// ── schema parsing ──────────────────────────────────────────

#[test]
fn test_parse_accepts_fitting_fields() {
    let fields = vec![raw("a", 0, 4, 4, 'i'), raw("b", 4, 4, 4, 'f')];
    let schema = parse_dtype_fields(&fields, 8).unwrap();
    assert_eq!(schema.fields.len(), 2);
    assert_eq!(schema.fields[0].kind, DtypeKind::Int);
    assert_eq!(schema.fields[1].kind, DtypeKind::Float);
    assert_eq!(schema.row_stride, 8);
}

#[test]
fn test_parse_rejects_field_past_row_end() {
    // offset 4 + itemsize 8 exceeds the stride of 8: rejected before any
    // buffer exists at all
    let fields = vec![raw("a", 0, 4, 4, 'i'), raw("b", 4, 8, 8, 'f')];
    match parse_dtype_fields(&fields, 8) {
        Err(CodecError::FieldOutOfBounds { field, offset, itemsize, row_stride }) => {
            assert_eq!(field, "b");
            assert_eq!(offset, 4);
            assert_eq!(itemsize, 8);
            assert_eq!(row_stride, 8);
        }
        other => panic!("expected FieldOutOfBounds, got {:?}", other),
    }
}

#[test]
fn test_parse_rejects_unknown_kind() {
    let fields = vec![raw("a", 0, 4, 4, 'x')];
    match parse_dtype_fields(&fields, 4) {
        Err(CodecError::UnsupportedFieldKind { field, tag }) => {
            assert_eq!(field, "a");
            assert_eq!(tag, 'x');
        }
        other => panic!("expected UnsupportedFieldKind, got {:?}", other),
    }
}

// ── encoding ────────────────────────────────────────────────

fn two_field_schema() -> Schema {
    let fields = vec![raw("n", 0, 4, 4, 'i'), raw("s", 4, 4, 4, 'S')];
    parse_dtype_fields(&fields, 8).unwrap()
}

#[test]
fn test_encode_two_rows() {
    let schema = two_field_schema();
    let rows = vec![
        ok_row(
            key("ns", "st", Some(Value::Int(7))),
            vec![
                Bin::new("n".to_string(), Value::Int(-2)),
                Bin::new("s".to_string(), Value::String("hi".to_string())),
            ],
        ),
        ok_row(
            key("ns", "st", None),
            vec![Bin::new("n".to_string(), Value::Int(300))],
        ),
    ];
    let mut data = vec![0u8; 16];
    let mut meta = vec![0u8; 16];
    let mut rc = vec![0u8; 8];
    let kmap = batch_to_buffers(&rows, &schema, &mut data, &mut meta, &mut rc).unwrap();

    // row 0: n = -2 as i32, s = "hi" + zero padding
    assert_eq!(i32::from_le_bytes([data[0], data[1], data[2], data[3]]), -2);
    assert_eq!(&data[4..6], b"hi");
    assert_eq!(&data[6..8], &[0, 0]);
    // row 1: n = 300 fits an i32
    assert_eq!(i32::from_le_bytes([data[8], data[9], data[10], data[11]]), 300);

    // metadata: generation 3, ttl 120, for both rows
    assert_eq!(u32::from_le_bytes([meta[0], meta[1], meta[2], meta[3]]), 3);
    assert_eq!(u32::from_le_bytes([meta[4], meta[5], meta[6], meta[7]]), 120);
    assert_eq!(u32::from_le_bytes([meta[8], meta[9], meta[10], meta[11]]), 3);

    // result codes: success in both rows
    assert_eq!(i32::from_le_bytes([rc[0], rc[1], rc[2], rc[3]]), 0);
    assert_eq!(i32::from_le_bytes([rc[4], rc[5], rc[6], rc[7]]), 0);

    // key map: row 0 under its user key, row 1 under its index
    assert_eq!(kmap.len(), 2);
    assert_eq!(kmap[0], (Value::Int(7), 0));
    assert_eq!(kmap[1], (Value::Int(1), 1));
}

#[test]
fn test_encode_skips_unknown_bins() {
    let schema = two_field_schema();
    let rows = vec![ok_row(
        key("ns", "st", Some(Value::Int(1))),
        vec![
            Bin::new("extra".to_string(), Value::Int(99)),
            Bin::new("n".to_string(), Value::Int(5)),
        ],
    )];
    let mut data = vec![0u8; 8];
    let mut meta = vec![0u8; 8];
    let mut rc = vec![0u8; 4];
    batch_to_buffers(&rows, &schema, &mut data, &mut meta, &mut rc).unwrap();
    // the known bin landed, the unknown one changed nothing
    assert_eq!(i32::from_le_bytes([data[0], data[1], data[2], data[3]]), 5);
    assert_eq!(&data[4..8], &[0, 0, 0, 0]);
}

#[test]
fn test_encode_nil_bin_leaves_row_zero() {
    let schema = two_field_schema();
    let rows = vec![ok_row(
        key("ns", "st", Some(Value::Int(1))),
        vec![Bin::new("n".to_string(), Value::Nil)],
    )];
    let mut data = vec![0u8; 8];
    let mut meta = vec![0u8; 8];
    let mut rc = vec![0u8; 4];
    batch_to_buffers(&rows, &schema, &mut data, &mut meta, &mut rc).unwrap();
    assert_eq!(&data[0..8], &[0u8; 8]);
}

#[test]
fn test_encode_failed_row_writes_no_data() {
    let schema = two_field_schema();
    let rows = vec![BatchRecord {
        key: key("ns", "st", Some(Value::Int(9))),
        result_code: Some(ResultCode::KeyNotFoundError),
        record: None,
    }];
    let mut data = vec![0u8; 8];
    let mut meta = vec![0u8; 8];
    let mut rc = vec![0u8; 4];
    let kmap = batch_to_buffers(&rows, &schema, &mut data, &mut meta, &mut rc).unwrap();
    assert_eq!(i32::from_le_bytes([rc[0], rc[1], rc[2], rc[3]]), 2);
    assert_eq!(&data[0..8], &[0u8; 8]);
    assert_eq!(&meta[0..8], &[0u8; 8]);
    assert_eq!(kmap[0], (Value::Int(9), 0));
}

#[test]
fn test_encode_type_mismatch_aborts() {
    let schema = two_field_schema();
    let rows = vec![ok_row(
        key("ns", "st", Some(Value::Int(1))),
        vec![Bin::new("n".to_string(), Value::String("not a number".to_string()))],
    )];
    let mut data = vec![0u8; 8];
    let mut meta = vec![0u8; 8];
    let mut rc = vec![0u8; 4];
    let r = batch_to_buffers(&rows, &schema, &mut data, &mut meta, &mut rc);
    match r {
        Err(CodecError::TypeMismatch { field, .. }) => assert_eq!(field, "n"),
        other => panic!("expected TypeMismatch, got {:?}", other),
    }
}

#[test]
fn test_encode_ttl_sentinel_for_never_expires() {
    let schema = two_field_schema();
    let rows = vec![BatchRecord {
        key: key("ns", "st", Some(Value::Int(1))),
        result_code: Some(ResultCode::Okay),
        record: Some(Record { generation: 1, ttl_seconds: None, bins: vec![] }),
    }];
    let mut data = vec![0u8; 8];
    let mut meta = vec![0u8; 8];
    let mut rc = vec![0u8; 4];
    batch_to_buffers(&rows, &schema, &mut data, &mut meta, &mut rc).unwrap();
    assert_eq!(u32::from_le_bytes([meta[4], meta[5], meta[6], meta[7]]), 0xFFFF_FFFF);
}

// ── decoding ────────────────────────────────────────────────

#[test]
fn test_decode_key_field_and_defaults() {
    // a schema with the key field and one data field, no _namespace/_set:
    // every row takes the caller's defaults
    let fields = vec![raw("_key", 0, 8, 8, 'i'), raw("v", 8, 4, 4, 'u')];
    let schema = parse_dtype_fields(&fields, 12).unwrap();
    let mut data = vec![0u8; 24];
    data[0..8].copy_from_slice(&11i64.to_le_bytes());
    data[8..12].copy_from_slice(&100u32.to_le_bytes());
    data[12..20].copy_from_slice(&22i64.to_le_bytes());
    data[20..24].copy_from_slice(&200u32.to_le_bytes());

    let out = numpy_to_records(&data, &schema, 2, "defns", "defset", "_key").unwrap();
    assert_eq!(out.len(), 2);
    assert_eq!(out[0].0.namespace, "defns");
    assert_eq!(out[0].0.set_name, "defset");
    assert_eq!(out[0].0.user_key, Some(Value::Int(11)));
    assert_eq!(out[0].1, vec![Bin::new("v".to_string(), Value::Int(100))]);
    assert_eq!(out[1].0.namespace, "defns");
    assert_eq!(out[1].0.set_name, "defset");
    assert_eq!(out[1].0.user_key, Some(Value::Int(22)));
    assert_eq!(out[1].1, vec![Bin::new("v".to_string(), Value::Int(200))]);
}

#[test]
fn test_decode_namespace_field_overrides_default() {
    let fields = vec![
        raw("_key", 0, 4, 4, 'i'),
        raw("_namespace", 4, 8, 8, 'S'),
        raw("v", 12, 4, 4, 'i'),
    ];
    let schema = parse_dtype_fields(&fields, 16).unwrap();
    let mut data = vec![0u8; 16];
    data[0..4].copy_from_slice(&5i32.to_le_bytes());
    data[4..7].copy_from_slice(b"abc"); // zero-padded to 8 bytes
    data[12..16].copy_from_slice(&7i32.to_le_bytes());

    let out = numpy_to_records(&data, &schema, 1, "defns", "defset", "_key").unwrap();
    assert_eq!(out[0].0.namespace, "abc");
    assert_eq!(out[0].0.set_name, "defset");
    // reserved fields do not become bins
    assert_eq!(out[0].1, vec![Bin::new("v".to_string(), Value::Int(7))]);
}

#[test]
fn test_decode_missing_key_field() {
    let fields = vec![raw("v", 0, 4, 4, 'i')];
    let schema = parse_dtype_fields(&fields, 4).unwrap();
    let data = vec![0u8; 4];
    match numpy_to_records(&data, &schema, 1, "ns", "st", "_key") {
        Err(CodecError::MissingKeyField { key_field }) => assert_eq!(key_field, "_key"),
        other => panic!("expected MissingKeyField, got {:?}", other),
    }
}

#[test]
fn test_decode_fixed_bytes_bin() {
    let fields = vec![raw("_key", 0, 4, 4, 'i'), raw("blob", 4, 4, 4, 'S')];
    let schema = parse_dtype_fields(&fields, 8).unwrap();
    let mut data = vec![0u8; 8];
    data[0..4].copy_from_slice(&1i32.to_le_bytes());
    data[4..8].copy_from_slice(b"ab\0\0");
    let out = numpy_to_records(&data, &schema, 1, "ns", "st", "_key").unwrap();
    // byte fields come back as the full fixed-width block
    assert_eq!(
        out[0].1,
        vec![Bin::new("blob".to_string(), Value::Blob(b"ab\0\0".to_vec()))]
    );
}

#[test]
fn test_roundtrip_encode_decode_overlapping_fields() {
    // encode a record, then decode the same buffer: the clean-mapping
    // fields come back unchanged
    let fields = vec![
        raw("_key", 0, 8, 8, 'i'),
        raw("count", 8, 4, 4, 'i'),
        raw("ratio", 12, 8, 8, 'f'),
    ];
    let schema = parse_dtype_fields(&fields, 20).unwrap();
    let rows = vec![ok_row(
        key("ns", "st", Some(Value::Int(41))),
        vec![
            Bin::new("_key".to_string(), Value::Int(41)),
            Bin::new("count".to_string(), Value::Int(-5)),
            Bin::new(
                "ratio".to_string(),
                Value::Float(aerospike_py::value::FloatValue::F64(2.5f64.to_bits())),
            ),
        ],
    )];
    let mut data = vec![0u8; 20];
    let mut meta = vec![0u8; 8];
    let mut rc = vec![0u8; 4];
    batch_to_buffers(&rows, &schema, &mut data, &mut meta, &mut rc).unwrap();

    let out = numpy_to_records(&data, &schema, 1, "ns", "st", "_key").unwrap();
    assert_eq!(out[0].0.user_key, Some(Value::Int(41)));
    assert_eq!(
        out[0].1,
        vec![
            Bin::new("count".to_string(), Value::Int(-5)),
            Bin::new(
                "ratio".to_string(),
                Value::Float(aerospike_py::value::FloatValue::F64(2.5f64.to_bits()))
            ),
        ]
    );
}

// ── trailing-zero trimming ──────────────────────────────────

#[test]
fn test_trim_trailing_zeros_cuts_padding() {
    assert_eq!(trim_trailing_zeros(&vec![b'a', b'b', 0, 0]), vec![b'a', b'b']);
}

#[test]
fn test_trim_trailing_zeros_keeps_inner_zero() {
    assert_eq!(trim_trailing_zeros(&vec![b'a', 0, b'b', 0]), vec![b'a', 0, b'b']);
}

#[test]
fn test_trim_trailing_zeros_all_zero() {
    assert_eq!(trim_trailing_zeros(&vec![0, 0, 0]), Vec::<u8>::new());
}

#[test]
fn test_decode_set_field_overrides_default() {
    let fields = vec![
        raw("_key", 0, 4, 4, 'i'),
        raw("_set", 4, 4, 4, 'S'),
    ];
    let schema = parse_dtype_fields(&fields, 8).unwrap();
    let mut data = vec![0u8; 8];
    data[0..4].copy_from_slice(&1i32.to_le_bytes());
    data[4..6].copy_from_slice(b"st");
    let out = numpy_to_records(&data, &schema, 1, "defns", "defset", "_key").unwrap();
    assert_eq!(out[0].0.set_name, "st");
    assert_eq!(out[0].0.namespace, "defns");
    assert!(out[0].1.is_empty());
}

#[test]
fn test_decode_unsupported_width() {
    // a 3-byte integer bin field cannot be read
    let fields = vec![raw("_key", 0, 4, 4, 'i'), raw("odd", 4, 3, 3, 'i')];
    let schema = parse_dtype_fields(&fields, 8).unwrap();
    let data = vec![0u8; 8];
    match numpy_to_records(&data, &schema, 1, "ns", "st", "_key") {
        Err(CodecError::UnsupportedWidth { field, width }) => {
            assert_eq!(field, "odd");
            assert_eq!(width, 3);
        }
        other => panic!("expected UnsupportedWidth, got {:?}", other),
    }
}

#[test]
fn test_encode_unknown_result_code() {
    let schema = two_field_schema();
    let rows = vec![BatchRecord {
        key: key("ns", "st", Some(Value::Int(1))),
        result_code: Some(ResultCode::Unknown(250)),
        record: None,
    }];
    let mut data = vec![0u8; 8];
    let mut meta = vec![0u8; 8];
    let mut rc = vec![0u8; 4];
    batch_to_buffers(&rows, &schema, &mut data, &mut meta, &mut rc).unwrap();
    assert_eq!(i32::from_le_bytes([rc[0], rc[1], rc[2], rc[3]]), 250);
}
