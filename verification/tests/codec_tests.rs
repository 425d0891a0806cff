use dat_editor::schema::{CountWidth, FieldType, FieldValue};
use dat_editor::records::RecordSchema;
use dat_editor::codec::CodecError;

fn sample_schema() -> RecordSchema {
    RecordSchema {
        fields: vec![
            FieldType::Dword,
            FieldType::Word,
            FieldType::Ascf,
            FieldType::Str,
            FieldType::Floc,
            FieldType::Vector(CountWidth::Dword, Box::new(FieldType::Word)),
            FieldType::Nested(vec![FieldType::Dword, FieldType::Ascf]),
        ],
    }
}

fn sample_record() -> Vec<FieldValue> {
    vec![
        FieldValue::Dword(7),
        FieldValue::Word(258),
        FieldValue::Ascf(b"hello".to_vec()),
        FieldValue::Str(b"world".to_vec()),
        FieldValue::Floc(1, 2, 3),
        FieldValue::Vector(vec![FieldValue::Word(5), FieldValue::Word(6)]),
        FieldValue::Nested(vec![FieldValue::Dword(9), FieldValue::Ascf(b"x".to_vec())]),
    ]
}

#[test]
fn record_round_trip_value() {
    let schema = sample_schema();
    let rec = sample_record();
    let bytes = schema.encode_record(&rec).unwrap();
    let mut pos = 0usize;
    let back = schema.decode_record(&bytes, &mut pos).unwrap();
    assert_eq!(pos, bytes.len());
    assert_eq!(back, rec);
}

#[test]
fn record_round_trip_bytes() {
    let schema = sample_schema();
    let rec = sample_record();
    let bytes = schema.encode_record(&rec).unwrap();
    let mut pos = 0usize;
    let back = schema.decode_record(&bytes, &mut pos).unwrap();
    let again = schema.encode_record(&back).unwrap();
    assert_eq!(again, bytes);
}

#[test]
fn wire_layout_is_little_endian_and_prefixed() {
    let schema = RecordSchema { fields: vec![FieldType::Dword, FieldType::Ascf] };
    let rec = vec![FieldValue::Dword(0x01020304), FieldValue::Ascf(b"Ab".to_vec())];
    let bytes = schema.encode_record(&rec).unwrap();
    assert_eq!(bytes, vec![0x04, 0x03, 0x02, 0x01, 2, 0, 0, 0, b'A', b'b']);
}

#[test]
fn str_field_has_two_byte_prefix() {
    let schema = RecordSchema { fields: vec![FieldType::Str] };
    let rec = vec![FieldValue::Str(b"Ab".to_vec())];
    let bytes = schema.encode_record(&rec).unwrap();
    assert_eq!(bytes, vec![2, 0, b'A', b'b']);
}

#[test]
fn truncated_input_is_reported() {
    let schema = RecordSchema { fields: vec![FieldType::Dword] };
    let data = vec![1, 2, 3];
    let mut pos = 0usize;
    assert_eq!(schema.decode_record(&data, &mut pos), Err(CodecError::TruncatedInput));
    assert_eq!(pos, 0);
}

#[test]
fn malformed_field_is_reported_on_encode() {
    let schema = RecordSchema { fields: vec![FieldType::Dword] };
    let rec = vec![FieldValue::Word(1)];
    assert_eq!(schema.encode_record(&rec), Err(CodecError::MalformedField));
}

#[test]
fn value_out_of_range_is_reported_on_encode() {
    let schema = RecordSchema { fields: vec![FieldType::Str] };
    let rec = vec![FieldValue::Str(vec![0u8; 65536])];
    assert_eq!(schema.encode_record(&rec), Err(CodecError::ValueOutOfRange));
}

#[test]
fn table_round_trip() {
    let schema = RecordSchema { fields: vec![FieldType::Word, FieldType::Ascf] };
    let recs = vec![
        vec![FieldValue::Word(1), FieldValue::Ascf(b"one".to_vec())],
        vec![FieldValue::Word(2), FieldValue::Ascf(b"two".to_vec())],
    ];
    let bytes = schema.encode_table(&recs).unwrap();
    let back = schema.decode_table(&bytes).unwrap();
    assert_eq!(back, recs);
    let again = schema.encode_table(&back).unwrap();
    assert_eq!(again, bytes);
}

#[test]
fn table_with_trailing_garbage_is_refused() {
    let schema = RecordSchema { fields: vec![FieldType::Word] };
    let bytes = vec![1, 0, 2];
    assert_eq!(schema.decode_table(&bytes), Err(CodecError::TruncatedInput));
}

#[test]
fn nested_vector_of_records_round_trips() {
    let inner = vec![FieldType::Dword, FieldType::Dword];
    let schema = RecordSchema {
        fields: vec![
            FieldType::Dword,
            FieldType::Vector(CountWidth::Dword, Box::new(FieldType::Nested(inner))),
        ],
    };
    let rec = vec![
        FieldValue::Dword(3),
        FieldValue::Vector(vec![
            FieldValue::Nested(vec![FieldValue::Dword(1), FieldValue::Dword(2)]),
            FieldValue::Nested(vec![FieldValue::Dword(3), FieldValue::Dword(4)]),
        ]),
    ];
    let bytes = schema.encode_record(&rec).unwrap();
    let mut pos = 0usize;
    let back = schema.decode_record(&bytes, &mut pos).unwrap();
    assert_eq!(back, rec);
    assert_eq!(pos, bytes.len());
}

#[test]
fn word_count_vector_uses_two_byte_count() {
    let schema = RecordSchema {
        fields: vec![FieldType::Vector(CountWidth::Word, Box::new(FieldType::Word))],
    };
    let rec = vec![FieldValue::Vector(vec![FieldValue::Word(9)])];
    let bytes = schema.encode_record(&rec).unwrap();
    assert_eq!(bytes, vec![1, 0, 9, 0]);
}
