use hprof_slurp::parser::field_encoder::{encode_instance_fields, write_field_value, write_values};
use hprof_slurp::parser::gc_record::{
    ArrayValue, ClassDumpFields, FieldInfo, FieldType, FieldValue, Values,
};
use hprof_slurp::parser::record_parser::{parse_array_value, parse_field_value};
use hprof_slurp::slurp::parse_instance_data;
use std::collections::HashMap;

fn class(class_id: u64, super_id: u64, fields: Vec<(u64, FieldType)>) -> ClassDumpFields {
    ClassDumpFields::new(
        class_id,
        0,
        super_id,
        0,
        vec![],
        vec![],
        fields
            .into_iter()
            .map(|(name_id, field_type)| FieldInfo { name_id, field_type })
            .collect(),
    )
}

fn encoded(value: FieldValue) -> Vec<u8> {
    let mut out = Vec::new();
    write_field_value(&mut out, value);
    out
}

#[test]
fn values_are_written_in_the_layout_of_the_file() {
    assert_eq!(encoded(FieldValue::Bool(true)), vec![1]);
    assert_eq!(encoded(FieldValue::Bool(false)), vec![0]);
    assert_eq!(encoded(FieldValue::Byte(-1)), vec![0xFF]);
    assert_eq!(encoded(FieldValue::Byte(5)), vec![5]);
    assert_eq!(encoded(FieldValue::Char(0x1234)), vec![0x12, 0x34]);
    assert_eq!(encoded(FieldValue::Short(-2)), vec![0xFF, 0xFE]);
    assert_eq!(encoded(FieldValue::Int(42)), vec![0, 0, 0, 42]);
    assert_eq!(encoded(FieldValue::Int(i32::MIN)), vec![0x80, 0, 0, 0]);
    assert_eq!(encoded(FieldValue::Long(-1)), vec![0xFF; 8]);
    assert_eq!(encoded(FieldValue::Float(1.5f32.to_bits())), 1.5f32.to_be_bytes().to_vec());
    assert_eq!(encoded(FieldValue::Double(2.5f64.to_bits())), 2.5f64.to_be_bytes().to_vec());
    assert_eq!(encoded(FieldValue::Object(0xFF)), vec![0, 0, 0, 0, 0, 0, 0, 0xFF]);
}

#[test]
fn writing_appends() {
    let mut out = vec![9];
    write_field_value(&mut out, FieldValue::Short(1));
    write_values(&mut out, &Values::Single(FieldValue::Bool(true)));
    write_values(&mut out, &Values::Array(ArrayValue::Char(vec![2, 3])));
    write_values(&mut out, &Values::Array(ArrayValue::Long(vec![])));
    assert_eq!(out, vec![9, 0, 1, 1, 0, 2, 0, 3]);
}

#[test]
fn a_value_that_is_written_reads_back() {
    let values = [
        FieldValue::Bool(true),
        FieldValue::Bool(false),
        FieldValue::Byte(i8::MIN),
        FieldValue::Byte(i8::MAX),
        FieldValue::Char(u16::MAX),
        FieldValue::Short(i16::MIN),
        FieldValue::Short(-1),
        FieldValue::Int(i32::MIN),
        FieldValue::Int(i32::MAX),
        FieldValue::Long(i64::MIN),
        FieldValue::Long(i64::MAX),
        FieldValue::Float(f32::NAN.to_bits()),
        FieldValue::Float(u32::MAX),
        FieldValue::Double(f64::NEG_INFINITY.to_bits()),
        FieldValue::Object(u64::MAX),
        FieldValue::Object(0),
    ];
    let types = [
        FieldType::Bool,
        FieldType::Bool,
        FieldType::Byte,
        FieldType::Byte,
        FieldType::Char,
        FieldType::Short,
        FieldType::Short,
        FieldType::Int,
        FieldType::Int,
        FieldType::Long,
        FieldType::Long,
        FieldType::Float,
        FieldType::Float,
        FieldType::Double,
        FieldType::Object,
        FieldType::Object,
    ];
    for (value, field_type) in values.iter().zip(types.iter()) {
        let bytes = encoded(*value);
        assert_eq!(bytes.len(), field_type.size_in_bytes());
        assert_eq!(parse_field_value(*field_type, &bytes, 0), *value);
    }
}

#[test]
fn an_instance_body_that_is_decoded_and_written_is_the_body() {
    let mut table = HashMap::new();
    table.insert(
        7,
        class(
            7,
            8,
            vec![
                (1, FieldType::Int),
                (2, FieldType::Object),
                (3, FieldType::Bool),
                (4, FieldType::Byte),
            ],
        ),
    );
    table.insert(
        8,
        class(
            8,
            9,
            vec![(5, FieldType::Double), (6, FieldType::Char), (7, FieldType::Short)],
        ),
    );
    table.insert(9, class(9, 0, vec![(8, FieldType::Long), (9, FieldType::Float)]));
    let body: Vec<u8> = (0..38u32).map(|i| if i == 12 { 1 } else { (i * 37 + 11) as u8 }).collect();
    let (fields, super_fields) = parse_instance_data(&table[&7], &body, &table).unwrap();
    assert_eq!(fields.len(), 4);
    assert_eq!(super_fields.len(), 5);
    let mut all = fields.clone();
    all.extend(super_fields.clone());
    assert_eq!(encode_instance_fields(&all), body);
    let mut written = encode_instance_fields(&fields);
    written.extend(encode_instance_fields(&super_fields));
    assert_eq!(written, body);

    let mut longer = body.clone();
    longer.extend_from_slice(&[0xEE, 0xEF]);
    let (fields, super_fields) = parse_instance_data(&table[&7], &longer, &table).unwrap();
    let mut all = fields;
    all.extend(super_fields);
    assert_eq!(encode_instance_fields(&all), body);
}

#[test]
fn a_bool_byte_above_one_is_written_as_one() {
    let mut table = HashMap::new();
    table.insert(7, class(7, 0, vec![(1, FieldType::Bool), (2, FieldType::Byte)]));
    let (fields, super_fields) = parse_instance_data(&table[&7], &[2, 2], &table).unwrap();
    assert!(super_fields.is_empty());
    assert_eq!(encode_instance_fields(&fields), vec![1, 2]);
}

#[test]
fn an_array_that_is_decoded_and_written_is_its_payload() {
    let payload: Vec<u8> = (0..24u8).map(|i| i.wrapping_mul(29)).collect();
    for (element_type, count) in [
        (FieldType::Byte, 24u32),
        (FieldType::Char, 12),
        (FieldType::Short, 12),
        (FieldType::Int, 6),
        (FieldType::Float, 6),
        (FieldType::Long, 3),
        (FieldType::Double, 3),
        (FieldType::Object, 3),
    ] {
        let array = parse_array_value(element_type, count, &payload).unwrap();
        let mut out = Vec::new();
        write_values(&mut out, &Values::Array(array));
        assert_eq!(out, payload);
    }
    let bools = parse_array_value(FieldType::Bool, 3, &[0, 1, 1]).unwrap();
    assert_eq!(encode_instance_fields(&vec![(0, Values::Array(bools))]), vec![0, 1, 1]);
}

#[test]
fn no_fields_are_no_bytes() {
    assert_eq!(encode_instance_fields(&Vec::new()), Vec::<u8>::new());
}
