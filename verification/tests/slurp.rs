use hprof_slurp::errors::HprofSlurpError;
use hprof_slurp::parser::file_header_parser::{parse_file_header, FileHeader};
use hprof_slurp::parser::gc_record::{
    ArrayValue, ClassDumpFields, FieldInfo, FieldType, FieldValue, GcRecord, Values,
};
use hprof_slurp::parser::record::{LoadClassData, Record};
use hprof_slurp::result_recorder::{Instance, ResultRecorder};
use hprof_slurp::slurp::{
    contains_bytes, extend_pool, parse_instance, parse_instance_data, parse_instance_dump,
    parse_instance_dumps, parse_object_array_dump, parse_primitive_array_dump, search_dump_class,
    search_str, slurp_file, slurp_header, slurp_in_chunks, FILE_HEADER_LENGTH,
};
use hprof_slurp::HeapCounter;
use std::collections::HashMap;
use std::sync::Arc;

fn header(id_size: u32) -> Vec<u8> {
    let mut out = b"JAVA PROFILE 1.0.2\0".to_vec();
    out.extend_from_slice(&id_size.to_be_bytes());
    out.extend_from_slice(&0x0000_018B_CFE5_6800u64.to_be_bytes());
    out
}

fn record(tag: u8, body: &[u8]) -> Vec<u8> {
    let mut out = vec![tag, 0, 0, 0, 0];
    out.extend_from_slice(&(body.len() as u32).to_be_bytes());
    out.extend_from_slice(body);
    out
}

fn utf8(id: u64, text: &str) -> Vec<u8> {
    let mut body = id.to_be_bytes().to_vec();
    body.extend_from_slice(text.as_bytes());
    record(0x01, &body)
}

fn load_class(class_id: u64, name_id: u64) -> Vec<u8> {
    let mut body = 1u32.to_be_bytes().to_vec();
    body.extend_from_slice(&class_id.to_be_bytes());
    body.extend_from_slice(&0u32.to_be_bytes());
    body.extend_from_slice(&name_id.to_be_bytes());
    record(0x02, &body)
}

fn class_dump(class_id: u64, super_id: u64, instance_size: u32, fields: &[(u64, u8)]) -> Vec<u8> {
    let mut out = vec![0x20];
    out.extend_from_slice(&class_id.to_be_bytes());
    out.extend_from_slice(&0u32.to_be_bytes());
    out.extend_from_slice(&super_id.to_be_bytes());
    out.extend_from_slice(&[0; 40]);
    out.extend_from_slice(&instance_size.to_be_bytes());
    out.extend_from_slice(&0u16.to_be_bytes());
    out.extend_from_slice(&0u16.to_be_bytes());
    out.extend_from_slice(&(fields.len() as u16).to_be_bytes());
    for (name_id, type_byte) in fields {
        out.extend_from_slice(&name_id.to_be_bytes());
        out.push(*type_byte);
    }
    out
}

fn instance_dump(object_id: u64, class_id: u64, data: &[u8]) -> Vec<u8> {
    let mut out = vec![0x21];
    out.extend_from_slice(&object_id.to_be_bytes());
    out.extend_from_slice(&3u32.to_be_bytes());
    out.extend_from_slice(&class_id.to_be_bytes());
    out.extend_from_slice(&(data.len() as u32).to_be_bytes());
    out.extend_from_slice(data);
    out
}

fn object_array_dump(object_id: u64, class_id: u64, elements: &[u64]) -> Vec<u8> {
    let mut out = vec![0x22];
    out.extend_from_slice(&object_id.to_be_bytes());
    out.extend_from_slice(&4u32.to_be_bytes());
    out.extend_from_slice(&(elements.len() as u32).to_be_bytes());
    out.extend_from_slice(&class_id.to_be_bytes());
    for element in elements {
        out.extend_from_slice(&element.to_be_bytes());
    }
    out
}

fn int_array_dump(object_id: u64, elements: &[i32]) -> Vec<u8> {
    let mut out = vec![0x23];
    out.extend_from_slice(&object_id.to_be_bytes());
    out.extend_from_slice(&5u32.to_be_bytes());
    out.extend_from_slice(&(elements.len() as u32).to_be_bytes());
    out.push(10);
    for element in elements {
        out.extend_from_slice(&element.to_be_bytes());
    }
    out
}

fn segment(subs: &[Vec<u8>]) -> Vec<u8> {
    let body: Vec<u8> = subs.iter().flatten().copied().collect();
    record(0x1C, &body)
}

fn file(records: &[Vec<u8>]) -> Vec<u8> {
    let mut out = header(8);
    for r in records {
        out.extend_from_slice(r);
    }
    out
}

fn zero_counter() -> HeapCounter {
    HeapCounter {
        id_size: 8,
        classes_unloaded: 0,
        stack_frames: 0,
        stack_traces: 0,
        start_threads: 0,
        end_threads: 0,
        heap_summaries: 0,
        heap_dumps: 0,
        allocation_sites: 0,
        control_settings: 0,
        cpu_samples: 0,
        heap_dump_segments_all_sub_records: 0,
        heap_dump_segments_gc_root_unknown: 0,
        heap_dump_segments_gc_root_thread_object: 0,
        heap_dump_segments_gc_root_jni_global: 0,
        heap_dump_segments_gc_root_jni_local: 0,
        heap_dump_segments_gc_root_java_frame: 0,
        heap_dump_segments_gc_root_native_stack: 0,
        heap_dump_segments_gc_root_sticky_class: 0,
        heap_dump_segments_gc_root_thread_block: 0,
        heap_dump_segments_gc_root_monitor_used: 0,
        heap_dump_segments_gc_object_array_dump: 0,
        heap_dump_segments_gc_instance_dump: 0,
        heap_dump_segments_gc_primitive_array_dump: 0,
        heap_dump_segments_gc_class_dump: 0,
    }
}

fn class(class_id: u64, super_id: u64, fields: Vec<(u64, FieldType)>) -> ClassDumpFields {
    ClassDumpFields::new(
        class_id,
        0,
        super_id,
        0,
        vec![],
        vec![],
        fields
            .into_iter()
            .map(|(name_id, field_type)| FieldInfo { name_id, field_type })
            .collect(),
    )
}

fn classes(all: Vec<ClassDumpFields>) -> HashMap<u64, ClassDumpFields> {
    all.into_iter().map(|c| (c.class_object_id, c)).collect()
}

#[test]
fn header_is_decoded() {
    let bytes = header(8);
    assert_eq!(bytes.len(), FILE_HEADER_LENGTH);
    let expected = FileHeader {
        format: b"JAVA PROFILE 1.0.2".to_vec(),
        size_pointers: 8,
        timestamp: 0x0000_018B_CFE5_6800,
    };
    assert_eq!(parse_file_header(&bytes), Some((expected.clone(), 31)));
    assert_eq!(slurp_header(&bytes), Ok(expected));
}

#[test]
fn header_parser_stops_behind_the_timestamp() {
    let mut bytes = b"AB\0".to_vec();
    bytes.extend_from_slice(&8u32.to_be_bytes());
    bytes.extend_from_slice(&1u64.to_be_bytes());
    bytes.extend_from_slice(&[9, 9, 9]);
    assert_eq!(
        parse_file_header(&bytes),
        Some((FileHeader { format: b"AB".to_vec(), size_pointers: 8, timestamp: 1 }, 15))
    );
    assert_eq!(parse_file_header(&bytes[..14]), None);
    assert_eq!(parse_file_header(b"JAVA PROFILE 1.0.2"), None);
    assert_eq!(parse_file_header(&[]), None);
    let mut empty_format = vec![0];
    empty_format.extend_from_slice(&4u32.to_be_bytes());
    empty_format.extend_from_slice(&2u64.to_be_bytes());
    assert_eq!(
        parse_file_header(&empty_format),
        Some((FileHeader { format: vec![], size_pointers: 4, timestamp: 2 }, 13))
    );
}

#[test]
fn a_header_without_an_end_is_no_hprof_file() {
    let expected = Err(HprofSlurpError::InvalidHprofFile {
        message: "the file header is cut short".to_string(),
    });
    assert_eq!(slurp_header(&[b'J'; 31]), expected);
    assert_eq!(slurp_header(&header(8)[..30]), expected);
    assert_eq!(slurp_header(&[]), expected);
    let mut long_format = b"JAVA PROFILE 1.0.22\0".to_vec();
    long_format.extend_from_slice(&[0, 0, 0, 8, 0, 0, 0, 0, 0, 0, 0]);
    assert_eq!(long_format.len(), 31);
    assert_eq!(slurp_header(&long_format), expected);
    assert_eq!(
        slurp_file(&[b'J'; 40]).err(),
        Some(HprofSlurpError::InvalidHprofFile {
            message: "the file header is cut short".to_string(),
        })
    );
}

#[test]
fn an_id_size_other_than_four_or_eight_is_invalid() {
    for id_size in [0u32, 1, 2, 3, 5, 7, 9, 16, u32::MAX] {
        assert_eq!(slurp_header(&header(id_size)), Err(HprofSlurpError::InvalidIdSize));
        assert_eq!(slurp_file(&header(id_size)).err(), Some(HprofSlurpError::InvalidIdSize));
    }
}

#[test]
fn an_id_size_of_four_is_unsupported() {
    let expected = HprofSlurpError::UnsupportedIdSize {
        message: "32 bits heap dumps are not supported yet".to_string(),
    };
    assert_eq!(slurp_header(&header(4)), Err(expected.clone()));
    assert_eq!(slurp_file(&header(4)).err(), Some(expected.clone()));
    let mut with_garbage = header(4);
    with_garbage.extend_from_slice(&[0x99; 100]);
    assert_eq!(slurp_file(&with_garbage).err(), Some(expected.clone()));
    let mut with_records = header(4);
    with_records.extend(utf8(1, "abc"));
    assert_eq!(slurp_file(&with_records).err(), Some(expected));
}

#[test]
fn a_header_block_of_another_length_is_refused() {
    let mut short_format = b"JAVA PROFILE 1.0\0".to_vec();
    short_format.extend_from_slice(&8u32.to_be_bytes());
    short_format.extend_from_slice(&0u64.to_be_bytes());
    short_format.extend_from_slice(&[0, 0]);
    assert_eq!(short_format.len(), 31);
    assert_eq!(slurp_header(&short_format), Err(HprofSlurpError::InvalidHeaderSize));
    assert_eq!(slurp_file(&short_format).err(), Some(HprofSlurpError::InvalidHeaderSize));
    let mut longer = header(8);
    longer.push(0);
    assert_eq!(slurp_header(&longer), Err(HprofSlurpError::InvalidHeaderSize));
    assert_eq!(slurp_file(&header(8)[..30]).err(), Some(HprofSlurpError::InvalidHeaderSize));
    assert_eq!(slurp_file(&[]).err(), Some(HprofSlurpError::InvalidHeaderSize));
}

#[test]
fn the_id_size_is_judged_before_the_length_of_the_block() {
    let mut short_format = b"JAVA PROFILE 1.0\0".to_vec();
    short_format.extend_from_slice(&4u32.to_be_bytes());
    short_format.extend_from_slice(&0u64.to_be_bytes());
    short_format.extend_from_slice(&[0, 0]);
    assert!(matches!(
        slurp_header(&short_format),
        Err(HprofSlurpError::UnsupportedIdSize { .. })
    ));
    short_format[20] = 3;
    assert_eq!(slurp_header(&short_format), Err(HprofSlurpError::InvalidIdSize));
}

#[test]
fn header_only() {
    let heap = slurp_file(&header(8)).unwrap();
    assert_eq!(heap.counter, zero_counter());
    assert!(heap.utf8_strings.is_empty());
    assert!(heap.class_data.is_empty());
    assert!(heap.classes_dump.is_empty());
    assert!(heap.stack_trace_by_serial_number.is_empty());
    assert!(heap.stack_frame_by_id.is_empty());
    assert!(heap.instances_pool.is_empty());
}

#[test]
fn one_utf8_string() {
    let heap = slurp_file(&file(&[utf8(0x42, "hi")])).unwrap();
    assert_eq!(heap.utf8_strings.len(), 1);
    assert_eq!(heap.utf8_strings[&0x42], b"hi".to_vec());
    assert_eq!(heap.counter, zero_counter());
}

#[test]
fn an_instance_without_fields() {
    let bytes = file(&[
        load_class(7, 1),
        utf8(1, "java/lang/Object"),
        segment(&[class_dump(7, 0, 16, &[]), instance_dump(100, 7, &[])]),
    ]);
    let heap = slurp_file(&bytes).unwrap();
    assert_eq!(heap.instances_pool.len(), 1);
    let instance = &heap.instances_pool[&100];
    assert_eq!(instance.fields, vec![]);
    assert_eq!(instance.super_fields, vec![]);
    assert_eq!(instance.object_id, 100);
    assert_eq!(instance.class_object_id, 7);
    assert_eq!(instance.stack_trace_serial_number, 3);
    assert_eq!(instance.data_size, 0);
    assert_eq!(heap.counter.heap_dump_segments_gc_instance_dump, 1);
    assert_eq!(heap.counter.heap_dump_segments_gc_class_dump, 1);
    assert_eq!(heap.counter.heap_dump_segments_all_sub_records, 2);
    assert_eq!(heap.counter.heap_dumps, 1);
    assert_eq!(heap.class_data[&7].class_name_id, 1);
    assert_eq!(heap.utf8_strings[&1], b"java/lang/Object".to_vec());
    assert_eq!(heap.classes_dump[&7].instance_size, 16);
}

#[test]
fn the_instances_of_a_class_are_counted() {
    let mut parser_input = file(&[
        load_class(7, 1),
        utf8(1, "java/lang/Object"),
        segment(&[class_dump(7, 0, 16, &[]), instance_dump(100, 7, &[])]),
    ]);
    parser_input.drain(..FILE_HEADER_LENGTH);
    let mut parser = hprof_slurp::parser::record_stream_parser::HprofRecordStreamParser::new(
        FILE_HEADER_LENGTH + parser_input.len(),
        FILE_HEADER_LENGTH,
        Vec::new(),
    );
    let mut records = Vec::new();
    assert_eq!(parser.parse_chunk(&parser_input, &mut records), Ok(()));
    let mut recorder = ResultRecorder::new(8);
    recorder.record_records(&mut records);
    assert_eq!(recorder.classes_all_instance_total_size_by_id[&7].number_of_instances(), 1);
}

#[test]
fn an_instance_with_an_int_and_an_object() {
    let bytes = file(&[
        load_class(7, 1),
        utf8(1, "java/lang/Object"),
        segment(&[
            class_dump(7, 0, 16, &[(2, 10), (3, 2)]),
            instance_dump(100, 7, &[0, 0, 0, 0x2A, 0, 0, 0, 0, 0, 0, 0, 0xFF]),
        ]),
    ]);
    let heap = slurp_file(&bytes).unwrap();
    let instance = &heap.instances_pool[&100];
    assert_eq!(
        instance.fields,
        vec![
            (2, Values::Single(FieldValue::Int(42))),
            (3, Values::Single(FieldValue::Object(0xFF))),
        ]
    );
    assert_eq!(instance.super_fields, vec![]);
    assert_eq!(instance.data_size, 12);
}

#[test]
fn an_instance_with_a_super_class() {
    let bytes = file(&[segment(&[
        class_dump(8, 0, 8, &[(9, 11)]),
        class_dump(7, 8, 16, &[(2, 10)]),
        instance_dump(100, 7, &[0, 0, 0, 0x2A, 0, 0, 0, 0, 0, 0, 0, 0x07]),
    ])]);
    let heap = slurp_file(&bytes).unwrap();
    let instance = &heap.instances_pool[&100];
    assert_eq!(instance.fields, vec![(2, Values::Single(FieldValue::Int(42)))]);
    assert_eq!(instance.super_fields, vec![(9, Values::Single(FieldValue::Long(7)))]);
}

#[test]
fn a_class_dump_may_come_behind_its_instances() {
    let bytes = file(&[
        segment(&[instance_dump(100, 7, &[0, 0, 0, 1])]),
        segment(&[class_dump(7, 0, 4, &[(2, 10)])]),
    ]);
    let heap = slurp_file(&bytes).unwrap();
    assert_eq!(heap.instances_pool[&100].fields, vec![(2, Values::Single(FieldValue::Int(1)))]);
}

#[test]
fn an_instance_of_an_unknown_class_is_dropped() {
    let bytes = file(&[segment(&[
        class_dump(7, 0, 4, &[(2, 10)]),
        instance_dump(100, 7, &[0, 0, 0, 1]),
        instance_dump(101, 9, &[0, 0, 0, 2]),
    ])]);
    let heap = slurp_file(&bytes).unwrap();
    assert_eq!(heap.instances_pool.len(), 1);
    assert!(heap.instances_pool.contains_key(&100));
    assert!(!heap.instances_pool.contains_key(&101));
    assert_eq!(heap.counter.heap_dump_segments_gc_instance_dump, 2);
}

#[test]
fn an_instance_whose_body_is_too_short_is_dropped() {
    let bytes = file(&[segment(&[
        class_dump(7, 0, 4, &[(2, 10)]),
        instance_dump(100, 7, &[0, 0, 1]),
        instance_dump(101, 7, &[0, 0, 0, 2, 0xEE]),
    ])]);
    let heap = slurp_file(&bytes).unwrap();
    assert_eq!(heap.instances_pool.len(), 1);
    assert_eq!(heap.instances_pool[&101].fields, vec![(2, Values::Single(FieldValue::Int(2)))]);
    assert_eq!(heap.instances_pool[&101].data_size, 5);
}

#[test]
fn arrays_become_instances_with_one_field() {
    let bytes = file(&[segment(&[
        object_array_dump(200, 77, &[1, 2, 3]),
        int_array_dump(300, &[-1, 0, 1]),
    ])]);
    let heap = slurp_file(&bytes).unwrap();
    assert_eq!(heap.instances_pool.len(), 2);
    assert_eq!(
        *heap.instances_pool[&200],
        Instance {
            object_id: 200,
            stack_trace_serial_number: 4,
            class_object_id: 77,
            data_size: 24,
            fields: vec![(0, Values::Array(ArrayValue::Object(vec![1, 2, 3])))],
            super_fields: vec![],
        }
    );
    assert_eq!(
        *heap.instances_pool[&300],
        Instance {
            object_id: 300,
            stack_trace_serial_number: 5,
            class_object_id: 10,
            data_size: 12,
            fields: vec![(0, Values::Array(ArrayValue::Int(vec![-1, 0, 1])))],
            super_fields: vec![],
        }
    );
    assert_eq!(heap.counter.heap_dump_segments_gc_object_array_dump, 1);
    assert_eq!(heap.counter.heap_dump_segments_gc_primitive_array_dump, 1);
}

#[test]
fn the_class_of_every_instance_is_known() {
    let bytes = file(&[segment(&[
        class_dump(8, 0, 8, &[(9, 11)]),
        class_dump(7, 8, 16, &[(2, 10)]),
        instance_dump(100, 7, &[0; 12]),
        instance_dump(101, 8, &[0; 8]),
        instance_dump(102, 55, &[0; 8]),
        object_array_dump(200, 77, &[1, 2, 3]),
        object_array_dump(201, 78, &[]),
        int_array_dump(300, &[-1, 0, 1]),
    ])]);
    let heap = slurp_file(&bytes).unwrap();
    assert_eq!(heap.instances_pool.len(), 5);
    assert!(!heap.instances_pool.contains_key(&102));
    let array_classes = [77u64, 78];
    for instance in heap.instances_pool.values() {
        let class_id = instance.class_object_id;
        assert!(
            heap.classes_dump.contains_key(&class_id)
                || array_classes.contains(&class_id)
                || FieldType::from_byte(class_id as u8).is_some() && class_id < 256
        );
    }
}

#[test]
fn on_a_clash_of_ids_the_later_kind_wins() {
    let bytes = file(&[segment(&[
        class_dump(7, 0, 0, &[]),
        object_array_dump(100, 77, &[1]),
        int_array_dump(100, &[5]),
        instance_dump(100, 7, &[]),
        instance_dump(101, 7, &[]),
        int_array_dump(101, &[6]),
        instance_dump(102, 7, &[1]),
        instance_dump(102, 7, &[2, 3]),
    ])]);
    let heap = slurp_file(&bytes).unwrap();
    assert_eq!(heap.instances_pool.len(), 3);
    assert_eq!(heap.instances_pool[&100].class_object_id, 77);
    assert_eq!(heap.instances_pool[&101].class_object_id, 10);
    assert_eq!(heap.instances_pool[&102].data_size, 2);
}

#[test]
fn the_heap_does_not_depend_on_the_read_size() {
    let bytes = file(&[
        load_class(7, 1),
        utf8(1, "java/lang/Object"),
        segment(&[
            class_dump(8, 0, 8, &[(9, 11)]),
            class_dump(7, 8, 16, &[(2, 10)]),
            instance_dump(100, 7, &[0, 0, 0, 0x2A, 0, 0, 0, 0, 0, 0, 0, 0x07]),
            object_array_dump(200, 77, &[1, 2, 3]),
            int_array_dump(300, &[-1, 0, 1]),
        ]),
        record(0x2C, &[]),
    ]);
    let whole = slurp_file(&bytes).unwrap();
    for read_size in [1usize, 2, 3, 8, 9, 10, 31, 100, 1 << 20] {
        let heap = slurp_in_chunks(&bytes, read_size).unwrap();
        assert_eq!(heap.counter, whole.counter);
        assert_eq!(heap.utf8_strings, whole.utf8_strings);
        assert_eq!(heap.class_data, whole.class_data);
        assert_eq!(heap.classes_dump, whole.classes_dump);
        assert_eq!(heap.instances_pool, whole.instances_pool);
    }
}

#[test]
fn errors_do_not_depend_on_the_read_size() {
    let mut unknown = file(&[utf8(1, "a")]);
    unknown.extend(record(0x77, &[1, 2]));
    let mut trailing = file(&[utf8(1, "a")]);
    trailing.push(0x01);
    let corrupt = file(&[record(0x03, &[0; 5])]);
    let overflow = file(&[record(0x1C, &[0xFF, 1, 2])]);
    for read_size in [1usize, 3, 10, 1 << 20] {
        assert_eq!(
            slurp_in_chunks(&unknown, read_size).err(),
            Some(HprofSlurpError::UnknownTag(0x77, 31 + 18))
        );
        assert_eq!(
            slurp_in_chunks(&trailing, read_size).err(),
            Some(HprofSlurpError::TruncatedInput)
        );
        assert_eq!(
            slurp_in_chunks(&corrupt, read_size).err(),
            Some(HprofSlurpError::CorruptLength)
        );
        assert_eq!(
            slurp_in_chunks(&overflow, read_size).err(),
            Some(HprofSlurpError::SubRecordOverflow)
        );
    }
}

#[test]
fn one_byte_behind_a_good_file_is_a_truncated_input() {
    let good = file(&[
        utf8(1, "java/lang/Object"),
        segment(&[class_dump(7, 0, 16, &[]), instance_dump(100, 7, &[])]),
    ]);
    assert!(slurp_file(&good).is_ok());
    for byte in [0u8, 1, 0x1C, 0x2C, 0x77, 0xFF] {
        let mut longer = good.clone();
        longer.push(byte);
        assert_eq!(slurp_file(&longer).err(), Some(HprofSlurpError::TruncatedInput));
    }
    let mut only_header = header(8);
    only_header.push(0);
    assert_eq!(slurp_file(&only_header).err(), Some(HprofSlurpError::TruncatedInput));
}

#[test]
fn chains_of_super_classes_of_every_length() {
    for length in [0u64, 1, 2, 100, 150] {
        let mut all = Vec::new();
        for level in 0..=length {
            let super_id = if level == length { 0 } else { 1000 + level + 1 };
            all.push(class(1000 + level, super_id, vec![(level, FieldType::Short)]));
        }
        let table = classes(all);
        let mut data = Vec::new();
        for level in 0..=length {
            data.extend_from_slice(&(level as u16 * 3).to_be_bytes());
        }
        let (fields, super_fields) =
            parse_instance_data(&table[&1000], &data, &table).expect("decodes");
        assert_eq!(fields, vec![(0, Values::Single(FieldValue::Short(0)))]);
        let expected: Vec<(u64, Values)> = (1..=length)
            .map(|level| (level, Values::Single(FieldValue::Short(level as i16 * 3))))
            .collect();
        assert_eq!(super_fields, expected);
        assert_eq!(parse_instance_data(&table[&1000], &data[..data.len() - 1], &table), None);
    }
}

#[test]
fn a_chain_ends_at_a_super_class_that_is_not_known() {
    let table = classes(vec![
        class(7, 8, vec![(1, FieldType::Byte)]),
        class(8, 9, vec![(2, FieldType::Byte)]),
    ]);
    assert_eq!(
        parse_instance_data(&table[&7], &[1, 2, 3, 4], &table),
        Some((
            vec![(1, Values::Single(FieldValue::Byte(1)))],
            vec![(2, Values::Single(FieldValue::Byte(2)))]
        ))
    );
}

#[test]
fn a_chain_without_an_end_decodes_to_nothing() {
    let table = classes(vec![class(7, 8, vec![]), class(8, 7, vec![])]);
    assert_eq!(parse_instance_data(&table[&7], &[1, 2, 3, 4], &table), None);
    let own = classes(vec![class(7, 7, vec![])]);
    assert_eq!(parse_instance_data(&own[&7], &[], &own), None);
    let with_fields = classes(vec![
        class(7, 8, vec![(1, FieldType::Byte)]),
        class(8, 7, vec![(2, FieldType::Byte)]),
    ]);
    assert_eq!(parse_instance_data(&with_fields[&7], &[0; 64], &with_fields), None);
}

#[test]
fn a_bool_is_true_for_every_byte_but_zero() {
    let table = classes(vec![class(
        7,
        0,
        vec![(1, FieldType::Bool), (2, FieldType::Bool), (3, FieldType::Bool)],
    )]);
    assert_eq!(
        parse_instance_data(&table[&7], &[0, 1, 2], &table),
        Some((
            vec![
                (1, Values::Single(FieldValue::Bool(false))),
                (2, Values::Single(FieldValue::Bool(true))),
                (3, Values::Single(FieldValue::Bool(true))),
            ],
            vec![]
        ))
    );
}

#[test]
fn dumps_decode_only_as_their_own_kind() {
    let table = classes(vec![class(7, 0, vec![])]);
    let instance = GcRecord::InstanceDump {
        object_id: 1,
        stack_trace_serial_number: 0,
        class_object_id: 7,
        data_size: 0,
        bytes_ref: vec![],
    };
    let objects = GcRecord::ObjectArrayDump {
        object_id: 2,
        stack_trace_serial_number: 0,
        number_of_elements: 0,
        array_class_id: 7,
        bytes_ref: vec![],
    };
    let primitives = GcRecord::PrimitiveArrayDump {
        object_id: 3,
        stack_trace_serial_number: 0,
        number_of_elements: 0,
        element_type: FieldType::Byte,
        bytes_ref: vec![],
    };
    let root = GcRecord::RootUnknown { object_id: 4 };
    assert!(parse_instance_dump(&instance, &table).is_some());
    assert!(parse_instance_dump(&objects, &table).is_none());
    assert!(parse_instance_dump(&primitives, &table).is_none());
    assert!(parse_instance_dump(&root, &table).is_none());
    assert!(parse_object_array_dump(&objects).is_some());
    assert!(parse_object_array_dump(&instance).is_none());
    assert!(parse_object_array_dump(&primitives).is_none());
    assert!(parse_primitive_array_dump(&primitives).is_some());
    assert!(parse_primitive_array_dump(&objects).is_none());
    assert!(parse_primitive_array_dump(&root).is_none());
}

#[test]
fn an_array_dump_with_too_few_bytes_decodes_to_nothing() {
    let objects = GcRecord::ObjectArrayDump {
        object_id: 2,
        stack_trace_serial_number: 0,
        number_of_elements: 2,
        array_class_id: 7,
        bytes_ref: vec![0; 15],
    };
    assert_eq!(parse_object_array_dump(&objects), None);
    let primitives = GcRecord::PrimitiveArrayDump {
        object_id: 3,
        stack_trace_serial_number: 0,
        number_of_elements: 3,
        element_type: FieldType::Char,
        bytes_ref: vec![0; 5],
    };
    assert_eq!(parse_primitive_array_dump(&primitives), None);
}

#[test]
fn the_pool_takes_entries_in_their_order() {
    let make = |object_id: u64, class_object_id: u64| Instance {
        object_id,
        stack_trace_serial_number: 0,
        class_object_id,
        data_size: 0,
        fields: vec![],
        super_fields: vec![],
    };
    let mut pool: HashMap<u64, Arc<Instance>> = HashMap::new();
    pool.insert(1, Arc::new(make(1, 10)));
    pool.insert(2, Arc::new(make(2, 10)));
    extend_pool(
        &mut pool,
        vec![Some((2, make(2, 20))), None, Some((3, make(3, 20))), Some((3, make(3, 30))), None],
    );
    assert_eq!(pool.len(), 3);
    assert_eq!(pool[&1].class_object_id, 10);
    assert_eq!(pool[&2].class_object_id, 20);
    assert_eq!(pool[&3].class_object_id, 30);
    extend_pool(&mut pool, vec![]);
    assert_eq!(pool.len(), 3);
}

#[test]
fn dumps_decode_in_their_order() {
    let table = classes(vec![class(7, 0, vec![(1, FieldType::Byte)])]);
    let dump = |object_id: u64, class_object_id: u64, data: Vec<u8>| GcRecord::InstanceDump {
        object_id,
        stack_trace_serial_number: 0,
        class_object_id,
        data_size: data.len() as u32,
        bytes_ref: data,
    };
    let dumps = vec![dump(1, 7, vec![5]), dump(2, 8, vec![6]), dump(3, 7, vec![]), dump(4, 7, vec![7])];
    let decoded = parse_instance_dumps(&dumps, &table);
    assert_eq!(decoded.len(), 4);
    assert_eq!(decoded[0].as_ref().map(|(id, _)| *id), Some(1));
    assert_eq!(decoded[1], None);
    assert_eq!(decoded[2], None);
    assert_eq!(
        decoded[3].as_ref().map(|(_, instance)| instance.fields.clone()),
        Some(vec![(1, Values::Single(FieldValue::Byte(7)))])
    );
}

#[test]
fn a_recorder_becomes_a_heap() {
    let mut recorder = ResultRecorder::new(8);
    recorder.record_one(Record::Utf8String {
        id: 1,
        bytes: b"x".to_vec(),
    });
    recorder.record_one(Record::GcSegment(GcRecord::ClassDump(
        Box::new(class(7, 0, vec![(1, FieldType::Char)])),
    )));
    recorder.record_one(Record::GcSegment(GcRecord::InstanceDump {
        object_id: 100,
        stack_trace_serial_number: 0,
        class_object_id: 7,
        data_size: 2,
        bytes_ref: vec![0, 65],
    }));
    let heap = parse_instance(recorder);
    assert_eq!(heap.counter.id_size, 8);
    assert_eq!(heap.counter.heap_dump_segments_all_sub_records, 2);
    assert_eq!(heap.utf8_strings[&1], b"x".to_vec());
    assert_eq!(heap.classes_dump.len(), 1);
    assert_eq!(
        heap.instances_pool[&100].fields,
        vec![(1, Values::Single(FieldValue::Char(65)))]
    );
}

#[test]
fn bytes_are_found_where_they_stand() {
    assert!(contains_bytes(b"sun.management.ManagementFactory", b"management"));
    assert!(contains_bytes(b"abc", b"abc"));
    assert!(contains_bytes(b"abc", b"a"));
    assert!(contains_bytes(b"abc", b"c"));
    assert!(contains_bytes(b"abc", b""));
    assert!(contains_bytes(b"", b""));
    assert!(contains_bytes(b"aab", b"ab"));
    assert!(contains_bytes(b"abababc", b"ababc"));
    assert!(!contains_bytes(b"abc", b"abcd"));
    assert!(!contains_bytes(b"abc", b"ac"));
    assert!(!contains_bytes(b"", b"a"));
    assert!(!contains_bytes(b"abab", b"abb"));
}

#[test]
fn strings_are_searched_by_what_they_hold() {
    let mut recorder = ResultRecorder::new(8);
    assert_eq!(search_str(b"x", &recorder), None);
    recorder.record_one(Record::Utf8String { id: 1, bytes: b"java/lang/Object".to_vec() });
    recorder.record_one(Record::Utf8String { id: 2, bytes: b"java/lang/String".to_vec() });
    recorder.record_one(Record::Utf8String { id: 3, bytes: b"sun/misc/Unsafe".to_vec() });
    assert_eq!(search_str(b"Object", &recorder), Some(1));
    assert_eq!(search_str(b"/String", &recorder), Some(2));
    assert_eq!(search_str(b"sun", &recorder), Some(3));
    assert_eq!(search_str(b"Strings", &recorder), None);
    let any = search_str(b"java/lang", &recorder);
    assert!(any == Some(1) || any == Some(2));
}

#[test]
fn a_class_dump_is_searched_by_the_name_of_its_class() {
    let mut recorder = ResultRecorder::new(8);
    assert_eq!(search_dump_class(1, &recorder), None);
    recorder.record_one(Record::LoadClass(LoadClassData {
        serial_number: 1,
        class_object_id: 7,
        stack_trace_serial_number: 0,
        class_name_id: 1,
    }));
    recorder.record_one(Record::LoadClass(LoadClassData {
        serial_number: 2,
        class_object_id: 8,
        stack_trace_serial_number: 0,
        class_name_id: 2,
    }));
    assert_eq!(search_dump_class(1, &recorder), None);
    recorder.record_one(Record::GcSegment(GcRecord::ClassDump(Box::new(class(
        7,
        0,
        vec![(1, FieldType::Char)],
    )))));
    assert_eq!(
        search_dump_class(1, &recorder),
        Some(&class(7, 0, vec![(1, FieldType::Char)]))
    );
    assert_eq!(search_dump_class(2, &recorder), None);
    assert_eq!(search_dump_class(3, &recorder), None);
}

#[test]
fn errors_that_only_a_caller_meets_can_be_told() {
    let io = HprofSlurpError::Io { message: "broken pipe".to_string() };
    assert_eq!(io.clone(), io);
    assert_ne!(io, HprofSlurpError::WorkerPanic);
    assert_ne!(HprofSlurpError::WorkerPanic, HprofSlurpError::TruncatedInput);
}

fn every_kind_of_record() -> Vec<u8> {
    let id = |v: u64| v.to_be_bytes().to_vec();
    let word = |v: u32| v.to_be_bytes().to_vec();
    let join = |parts: Vec<Vec<u8>>| -> Vec<u8> { parts.into_iter().flatten().collect() };
    let root = |tag: u8, parts: Vec<Vec<u8>>| -> Vec<u8> {
        let mut out = vec![tag];
        out.extend(parts.into_iter().flatten());
        out
    };
    let mut byte_array = vec![0x23];
    byte_array.extend(id(301));
    byte_array.extend(word(0));
    byte_array.extend(word(2));
    byte_array.push(8);
    byte_array.extend_from_slice(&[1, 2]);
    file(&[
        utf8(1, "java/lang/Object"),
        load_class(7, 1),
        record(0x03, &word(1)),
        record(0x04, &join(vec![id(11), id(1), id(1), id(1), word(1), word(0xFFFF_FFFF)])),
        record(0x05, &join(vec![word(21), word(1), word(1), id(11)])),
        record(
            0x06,
            &join(vec![vec![0, 1], word(0), word(0), word(0), id(0), id(0), word(0)]),
        ),
        record(0x07, &join(vec![word(1), word(2), id(3), id(4)])),
        record(0x0A, &join(vec![word(31), id(32), word(21), id(1), id(1), id(1)])),
        record(0x0B, &word(31)),
        record(0x0D, &join(vec![word(5), word(1), word(5), word(21)])),
        record(0x0E, &join(vec![word(3), vec![0, 9]])),
        record(
            0x0C,
            &join(vec![
                root(0xFF, vec![id(1)]),
                root(0x01, vec![id(1), id(2)]),
                root(0x02, vec![id(1), word(1), word(2)]),
                root(0x03, vec![id(1), word(1), word(2)]),
                root(0x04, vec![id(1), word(1)]),
                root(0x05, vec![id(1)]),
                root(0x06, vec![id(1), word(1)]),
                root(0x07, vec![id(1)]),
                root(0x08, vec![id(1), word(1), word(2)]),
            ]),
        ),
        segment(&[
            class_dump(7, 0, 4, &[(2, 10)]),
            instance_dump(100, 7, &[0, 0, 0, 9]),
            object_array_dump(200, 77, &[100]),
            int_array_dump(300, &[4, 5]),
            byte_array,
        ]),
        record(0x2C, &[]),
    ])
}

#[test]
fn a_file_with_every_kind_of_record() {
    let bytes = every_kind_of_record();
    for read_size in [1usize, 5, 13, 64, 1 << 20] {
        let heap = slurp_in_chunks(&bytes, read_size).unwrap();
        assert_eq!(
            heap.counter,
            HeapCounter {
                id_size: 8,
                classes_unloaded: 1,
                stack_frames: 1,
                stack_traces: 1,
                start_threads: 0,
                end_threads: 0,
                heap_summaries: 1,
                heap_dumps: 2,
                allocation_sites: 1,
                control_settings: 1,
                cpu_samples: 1,
                heap_dump_segments_all_sub_records: 14,
                heap_dump_segments_gc_root_unknown: 1,
                heap_dump_segments_gc_root_thread_object: 1,
                heap_dump_segments_gc_root_jni_global: 1,
                heap_dump_segments_gc_root_jni_local: 1,
                heap_dump_segments_gc_root_java_frame: 1,
                heap_dump_segments_gc_root_native_stack: 1,
                heap_dump_segments_gc_root_sticky_class: 1,
                heap_dump_segments_gc_root_thread_block: 1,
                heap_dump_segments_gc_root_monitor_used: 1,
                heap_dump_segments_gc_object_array_dump: 1,
                heap_dump_segments_gc_instance_dump: 1,
                heap_dump_segments_gc_primitive_array_dump: 2,
                heap_dump_segments_gc_class_dump: 1,
            }
        );
        assert_eq!(heap.utf8_strings.len(), 1);
        assert_eq!(heap.class_data.len(), 1);
        assert_eq!(heap.classes_dump.len(), 1);
        assert_eq!(heap.stack_frame_by_id[&11].line_number, -1);
        assert_eq!(heap.stack_trace_by_serial_number[&21].stack_frame_ids, vec![11]);
        assert_eq!(heap.instances_pool.len(), 4);
        assert_eq!(
            heap.instances_pool[&100].fields,
            vec![(2, Values::Single(FieldValue::Int(9)))]
        );
        assert_eq!(
            heap.instances_pool[&301].fields,
            vec![(0, Values::Array(ArrayValue::Byte(vec![1, 2])))]
        );
        assert_eq!(heap.instances_pool[&301].class_object_id, 8);
    }
}

#[test]
fn a_file_that_is_cut_anywhere_is_refused() {
    let bytes = every_kind_of_record();
    for len in FILE_HEADER_LENGTH + 1..bytes.len() {
        let outcome = slurp_in_chunks(&bytes[..len], 7);
        assert!(
            matches!(
                outcome,
                Err(HprofSlurpError::TruncatedInput)
                    | Err(HprofSlurpError::CorruptLength)
                    | Err(HprofSlurpError::SubRecordOverflow)
            ) || starts_a_record(&bytes, len) && outcome.is_ok(),
            "length {}",
            len
        );
    }
}

fn starts_a_record(bytes: &[u8], len: usize) -> bool {
    let mut at = FILE_HEADER_LENGTH;
    while at < len {
        let length = u32::from_be_bytes([bytes[at + 5], bytes[at + 6], bytes[at + 7], bytes[at + 8]]);
        at += 9 + length as usize;
    }
    at == len
}
