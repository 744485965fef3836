use hprof_slurp::parser::gc_record::{ClassDumpFields, FieldInfo, FieldType, GcRecord};
use hprof_slurp::parser::record::{
    LoadClassData, Record, StackFrameData, StackTraceData, ThreadEndData, ThreadStartData,
};
use hprof_slurp::result_recorder::{ArrayCounter, ClassInfo, ClassInstanceCounter, ResultRecorder};
use hprof_slurp::{Heap, HeapCounter};

fn counters(recorder: &ResultRecorder) -> Vec<i32> {
    vec![
        recorder.classes_unloaded,
        recorder.stack_frames,
        recorder.stack_traces,
        recorder.start_threads,
        recorder.end_threads,
        recorder.heap_summaries,
        recorder.heap_dumps,
        recorder.allocation_sites,
        recorder.control_settings,
        recorder.cpu_samples,
        recorder.heap_dump_segments_all_sub_records,
        recorder.heap_dump_segments_gc_root_unknown,
        recorder.heap_dump_segments_gc_root_thread_object,
        recorder.heap_dump_segments_gc_root_jni_global,
        recorder.heap_dump_segments_gc_root_jni_local,
        recorder.heap_dump_segments_gc_root_java_frame,
        recorder.heap_dump_segments_gc_root_native_stack,
        recorder.heap_dump_segments_gc_root_sticky_class,
        recorder.heap_dump_segments_gc_root_thread_block,
        recorder.heap_dump_segments_gc_root_monitor_used,
        recorder.heap_dump_segments_gc_object_array_dump,
        recorder.heap_dump_segments_gc_instance_dump,
        recorder.heap_dump_segments_gc_primitive_array_dump,
        recorder.heap_dump_segments_gc_class_dump,
    ]
}

fn same_aggregate(a: &ResultRecorder, b: &ResultRecorder) {
    assert_eq!(a.id_size, b.id_size);
    assert_eq!(counters(a), counters(b));
    assert_eq!(a.utf8_strings_by_id, b.utf8_strings_by_id);
    assert_eq!(a.load_class, b.load_class);
    assert_eq!(a.class_data_by_serial_number, b.class_data_by_serial_number);
    assert_eq!(a.classes_single_instance_size_by_id, b.classes_single_instance_size_by_id);
    assert_eq!(a.classes_dump, b.classes_dump);
    assert_eq!(a.classes_all_instance_total_size_by_id, b.classes_all_instance_total_size_by_id);
    assert_eq!(a.primitive_array_counters, b.primitive_array_counters);
    assert_eq!(a.object_array_counters, b.object_array_counters);
    assert_eq!(a.stack_trace_by_serial_number, b.stack_trace_by_serial_number);
    assert_eq!(a.stack_frame_by_id, b.stack_frame_by_id);
    assert_eq!(a.dump_instances, b.dump_instances);
    assert_eq!(a.dump_primitive_array_dump, b.dump_primitive_array_dump);
    assert_eq!(a.dump_object_array_dump, b.dump_object_array_dump);
    assert_eq!(a.instances, b.instances);
    assert_eq!(a.thread_start, b.thread_start);
    assert_eq!(a.thread_end, b.thread_end);
}

fn class_dump(class_id: u64, super_id: u64, instance_size: u32, fields: Vec<FieldInfo>) -> Record {
    Record::GcSegment(GcRecord::ClassDump(Box::new(ClassDumpFields::new(
        class_id,
        0,
        super_id,
        instance_size,
        vec![],
        vec![],
        fields,
    ))))
}

fn instance(object_id: u64, class_id: u64, data: Vec<u8>) -> GcRecord {
    GcRecord::InstanceDump {
        object_id,
        stack_trace_serial_number: 0,
        class_object_id: class_id,
        data_size: data.len() as u32,
        bytes_ref: data,
    }
}

fn object_array(object_id: u64, class_id: u64, elements: u32) -> GcRecord {
    GcRecord::ObjectArrayDump {
        object_id,
        stack_trace_serial_number: 0,
        number_of_elements: elements,
        array_class_id: class_id,
        bytes_ref: vec![0; elements as usize * 8],
    }
}

fn primitive_array(object_id: u64, element_type: FieldType, elements: u32) -> GcRecord {
    GcRecord::PrimitiveArrayDump {
        object_id,
        stack_trace_serial_number: 0,
        number_of_elements: elements,
        element_type,
        bytes_ref: vec![0; elements as usize * element_type.size_in_bytes()],
    }
}

fn one_of_each() -> Vec<Record> {
    vec![
        Record::Utf8String { id: 1, bytes: b"java/lang/Object".to_vec() },
        Record::LoadClass(LoadClassData {
            serial_number: 5,
            class_object_id: 7,
            stack_trace_serial_number: 0,
            class_name_id: 1,
        }),
        Record::UnloadClass { serial_number: 5 },
        Record::StackFrame(StackFrameData {
            stack_frame_id: 11,
            method_name_id: 1,
            method_signature_id: 1,
            source_file_name_id: 1,
            class_serial_number: 5,
            line_number: -1,
        }),
        Record::StackTrace(StackTraceData {
            serial_number: 21,
            thread_serial_number: 1,
            number_of_frames: 1,
            stack_frame_ids: vec![11],
        }),
        Record::AllocationSites {
            flags: 0,
            cutoff_ratio: 0,
            total_live_bytes: 0,
            total_live_instances: 0,
            total_bytes_allocated: 0,
            total_instances_allocated: 0,
            number_of_sites: 0,
            allocation_sites: vec![],
        },
        Record::StartThread {
            thread_serial_number: 31,
            thread_object_id: 32,
            stack_trace_serial_number: 21,
            thread_name_id: 1,
            thread_group_name_id: 1,
            thread_group_parent_name_id: 1,
        },
        Record::EndThread { thread_serial_number: 31 },
        Record::HeapSummary {
            total_live_bytes: 1,
            total_live_instances: 2,
            total_bytes_allocated: 3,
            total_instances_allocated: 4,
        },
        Record::HeapDumpStart { length: 0 },
        Record::HeapDumpEnd { length: 0 },
        Record::ControlSettings { flags: 0, stack_trace_depth: 0 },
        Record::CpuSamples { total_number_of_samples: 0, number_of_traces: 0, cpu_samples: vec![] },
        Record::GcSegment(GcRecord::RootUnknown { object_id: 1 }),
        Record::GcSegment(GcRecord::RootThreadObject {
            thread_object_id: 1,
            thread_sequence_number: 1,
            stack_sequence_number: 1,
        }),
        Record::GcSegment(GcRecord::RootJniGlobal { object_id: 1, jni_global_ref_id: 1 }),
        Record::GcSegment(GcRecord::RootJniLocal {
            object_id: 1,
            thread_serial_number: 1,
            frame_number_in_stack_trace: 1,
        }),
        Record::GcSegment(GcRecord::RootJavaFrame {
            object_id: 1,
            thread_serial_number: 1,
            frame_number_in_stack_trace: 1,
        }),
        Record::GcSegment(GcRecord::RootNativeStack { object_id: 1, thread_serial_number: 1 }),
        Record::GcSegment(GcRecord::RootStickyClass { object_id: 1 }),
        Record::GcSegment(GcRecord::RootThreadBlock { object_id: 1, thread_serial_number: 1 }),
        Record::GcSegment(GcRecord::RootMonitorUsed { object_id: 1 }),
        class_dump(7, 0, 16, vec![]),
        Record::GcSegment(instance(100, 7, vec![])),
        Record::GcSegment(object_array(200, 9, 3)),
        Record::GcSegment(primitive_array(300, FieldType::Int, 4)),
    ]
}

#[test]
fn a_new_recorder_is_empty() {
    let recorder = ResultRecorder::new(8);
    assert_eq!(recorder.id_size, 8);
    assert_eq!(counters(&recorder), vec![0; 24]);
    assert!(recorder.utf8_strings_by_id.is_empty());
    assert!(recorder.load_class.is_empty());
    assert!(recorder.class_data_by_serial_number.is_empty());
    assert!(recorder.classes_single_instance_size_by_id.is_empty());
    assert!(recorder.classes_dump.is_empty());
    assert!(recorder.classes_all_instance_total_size_by_id.is_empty());
    assert!(recorder.primitive_array_counters.is_empty());
    assert!(recorder.object_array_counters.is_empty());
    assert!(recorder.stack_trace_by_serial_number.is_empty());
    assert!(recorder.stack_frame_by_id.is_empty());
    assert!(recorder.dump_instances.is_empty());
    assert!(recorder.dump_primitive_array_dump.is_empty());
    assert!(recorder.dump_object_array_dump.is_empty());
    assert!(recorder.instances.is_empty());
    assert!(recorder.thread_start.is_empty());
    assert!(recorder.thread_end.is_empty());
}

#[test]
fn one_record_of_each_kind() {
    let mut recorder = ResultRecorder::new(8);
    let mut records = one_of_each();
    let n = records.len();
    recorder.record_records(&mut records);
    assert_eq!(records.len(), n);
    assert_eq!(
        counters(&recorder),
        vec![1, 1, 1, 0, 0, 1, 1, 1, 1, 1, 13, 1, 1, 1, 1, 1, 1, 1, 1, 1, 1, 1, 1, 1]
    );
    assert_eq!(recorder.utf8_strings_by_id[&1], b"java/lang/Object".to_vec());
    assert_eq!(recorder.load_class[&7].class_name_id, 1);
    assert_eq!(recorder.class_data_by_serial_number[&5], 7);
    assert_eq!(recorder.stack_frame_by_id[&11].line_number, -1);
    assert_eq!(recorder.stack_trace_by_serial_number[&21].stack_frame_ids, vec![11]);
    assert_eq!(
        recorder.thread_start[&31],
        ThreadStartData {
            thread_serial_number: 31,
            thread_object_id: 32,
            stack_trace_serial_number: 21,
            thread_name_id: 1,
            thread_group_name_id: 1,
            thread_group_parent_name_id: 1,
        }
    );
    assert_eq!(recorder.thread_end[&31], ThreadEndData { thread_serial_number: 31 });
    assert_eq!(recorder.classes_dump[&7].instance_size, 16);
    assert_eq!(recorder.classes_single_instance_size_by_id[&7], ClassInfo::new(0, 16));
    assert_eq!(recorder.classes_all_instance_total_size_by_id[&7].number_of_instances(), 1);
    assert_eq!(recorder.object_array_counters[&9].number_of_arrays(), 1);
    assert_eq!(recorder.object_array_counters[&9].total_number_of_elements(), 3);
    assert_eq!(recorder.primitive_array_counters[&10].number_of_arrays(), 1);
    assert_eq!(recorder.primitive_array_counters[&10].max_size_seen(), 4);
    assert_eq!(recorder.dump_instances, vec![instance(100, 7, vec![])]);
    assert_eq!(recorder.dump_object_array_dump, vec![object_array(200, 9, 3)]);
    assert_eq!(recorder.dump_primitive_array_dump, vec![primitive_array(300, FieldType::Int, 4)]);
    assert!(recorder.instances.is_empty());
}

#[test]
fn tag_counters_sum_to_the_number_of_counted_records() {
    let mut recorder = ResultRecorder::new(8);
    let mut records: Vec<Record> = one_of_each()
        .into_iter()
        .filter(|r| {
            !matches!(
                r,
                Record::Utf8String { .. }
                    | Record::LoadClass(_)
                    | Record::StartThread { .. }
                    | Record::EndThread { .. }
                    | Record::HeapDumpEnd { .. }
            )
        })
        .collect();
    let n = records.len() as i32;
    assert_eq!(n, 21);
    recorder.record_records(&mut records);
    let c = counters(&recorder);
    let tag_total: i32 = c[..11].iter().sum();
    assert_eq!(tag_total, n);
    let gc_total: i32 = c[11..].iter().sum();
    assert_eq!(gc_total, recorder.heap_dump_segments_all_sub_records);
}

#[test]
fn uncounted_kinds_raise_no_counter() {
    let mut recorder = ResultRecorder::new(8);
    let mut records = vec![
        Record::Utf8String { id: 1, bytes: vec![] },
        Record::LoadClass(LoadClassData {
            serial_number: 1,
            class_object_id: 2,
            stack_trace_serial_number: 3,
            class_name_id: 4,
        }),
        Record::StartThread {
            thread_serial_number: 1,
            thread_object_id: 2,
            stack_trace_serial_number: 3,
            thread_name_id: 4,
            thread_group_name_id: 5,
            thread_group_parent_name_id: 6,
        },
        Record::EndThread { thread_serial_number: 1 },
        Record::HeapDumpEnd { length: 0 },
    ];
    recorder.record_records(&mut records);
    assert_eq!(counters(&recorder), vec![0; 24]);
    assert_eq!(recorder.utf8_strings_by_id.len(), 1);
    assert_eq!(recorder.load_class.len(), 1);
    assert_eq!(recorder.thread_start.len(), 1);
    assert_eq!(recorder.thread_end.len(), 1);
}

#[test]
fn a_later_string_replaces_an_earlier_one() {
    let mut recorder = ResultRecorder::new(8);
    recorder.record_one(Record::Utf8String { id: 1, bytes: b"first".to_vec() });
    recorder.record_one(Record::Utf8String { id: 2, bytes: b"other".to_vec() });
    recorder.record_one(Record::Utf8String { id: 1, bytes: b"second".to_vec() });
    assert_eq!(recorder.utf8_strings_by_id.len(), 2);
    assert_eq!(recorder.utf8_strings_by_id[&1], b"second".to_vec());
    assert_eq!(recorder.utf8_strings_by_id[&2], b"other".to_vec());
}

#[test]
fn the_size_of_a_class_is_kept_from_its_first_dump() {
    let mut recorder = ResultRecorder::new(8);
    recorder.record_one(class_dump(7, 8, 16, vec![]));
    recorder.record_one(class_dump(
        7,
        9,
        32,
        vec![FieldInfo { name_id: 1, field_type: FieldType::Int }],
    ));
    assert_eq!(recorder.heap_dump_segments_gc_class_dump, 2);
    let info = recorder.classes_single_instance_size_by_id[&7];
    assert_eq!(info.super_class_object_id(), 8);
    assert_eq!(info.instance_size(), 16);
    assert_eq!(recorder.classes_dump[&7].super_class_object_id, 9);
    assert_eq!(recorder.classes_dump[&7].instance_size, 32);
    assert_eq!(recorder.classes_dump[&7].instance_fields.len(), 1);
}

#[test]
fn instances_are_counted_by_class() {
    let mut recorder = ResultRecorder::new(8);
    let mut records = vec![
        Record::GcSegment(instance(1, 7, vec![1])),
        Record::GcSegment(instance(2, 8, vec![2])),
        Record::GcSegment(instance(3, 7, vec![3])),
    ];
    recorder.record_records(&mut records);
    assert_eq!(recorder.classes_all_instance_total_size_by_id[&7].number_of_instances(), 2);
    assert_eq!(recorder.classes_all_instance_total_size_by_id[&8].number_of_instances(), 1);
    assert_eq!(recorder.heap_dump_segments_gc_instance_dump, 3);
    assert_eq!(recorder.heap_dump_segments_all_sub_records, 3);
    assert_eq!(
        recorder.dump_instances,
        vec![instance(1, 7, vec![1]), instance(2, 8, vec![2]), instance(3, 7, vec![3])]
    );
}

#[test]
fn arrays_are_counted_by_class_and_by_element_type() {
    let mut recorder = ResultRecorder::new(8);
    let mut records = vec![
        Record::GcSegment(object_array(1, 9, 3)),
        Record::GcSegment(object_array(2, 9, 10)),
        Record::GcSegment(object_array(3, 9, 0)),
        Record::GcSegment(object_array(4, 5, 1)),
        Record::GcSegment(primitive_array(5, FieldType::Byte, 100)),
        Record::GcSegment(primitive_array(6, FieldType::Byte, 50)),
        Record::GcSegment(primitive_array(7, FieldType::Long, 2)),
    ];
    recorder.record_records(&mut records);
    let nine = recorder.object_array_counters[&9];
    assert_eq!(nine.number_of_arrays(), 3);
    assert_eq!(nine.total_number_of_elements(), 13);
    assert_eq!(nine.max_size_seen(), 10);
    let five = recorder.object_array_counters[&5];
    assert_eq!((five.number_of_arrays(), five.total_number_of_elements(), five.max_size_seen()), (1, 1, 1));
    let bytes = recorder.primitive_array_counters[&FieldType::Byte.to_u64()];
    assert_eq!((bytes.number_of_arrays(), bytes.total_number_of_elements(), bytes.max_size_seen()), (2, 150, 100));
    let longs = recorder.primitive_array_counters[&11];
    assert_eq!((longs.number_of_arrays(), longs.total_number_of_elements(), longs.max_size_seen()), (1, 2, 2));
    assert_eq!(recorder.heap_dump_segments_gc_object_array_dump, 4);
    assert_eq!(recorder.heap_dump_segments_gc_primitive_array_dump, 3);
    assert_eq!(recorder.dump_object_array_dump.len(), 4);
    assert_eq!(recorder.dump_primitive_array_dump.len(), 3);
}

#[test]
fn counters_never_go_down() {
    let mut recorder = ResultRecorder::new(8);
    let mut before = counters(&recorder);
    for record in one_of_each().into_iter().chain(one_of_each()) {
        recorder.record_one(record);
        let after = counters(&recorder);
        for (old, new) in before.iter().zip(after.iter()) {
            assert!(old <= new);
            assert!(new - old <= 1);
        }
        before = after;
    }
}

#[test]
fn the_aggregate_does_not_depend_on_the_batches() {
    let mut all: Vec<Record> = one_of_each();
    all.extend(one_of_each());
    all.push(Record::Utf8String { id: 1, bytes: b"again".to_vec() });

    let mut at_once = ResultRecorder::new(8);
    at_once.record_records(&mut all.clone());

    for size in [1usize, 2, 3, 7, 100] {
        let mut in_batches = ResultRecorder::new(8);
        for batch in all.chunks(size) {
            let mut batch = batch.to_vec();
            in_batches.record_records(&mut batch);
        }
        same_aggregate(&at_once, &in_batches);
    }

    let mut one_by_one = ResultRecorder::new(8);
    for record in all.clone() {
        one_by_one.record_one(record);
    }
    same_aggregate(&at_once, &one_by_one);

    let mut replay = ResultRecorder::new(8);
    replay.record_records(&mut all.clone());
    same_aggregate(&at_once, &replay);
}

#[test]
fn an_empty_batch_changes_nothing() {
    let mut recorder = ResultRecorder::new(8);
    recorder.record_records(&mut one_of_each());
    let mut same = ResultRecorder::new(8);
    same.record_records(&mut one_of_each());
    same.record_records(&mut Vec::new());
    same_aggregate(&recorder, &same);
}

#[test]
fn class_instance_counter_counts() {
    let mut counter = ClassInstanceCounter::empty();
    assert_eq!(counter.number_of_instances(), 0);
    counter.add_instance();
    counter.add_instance();
    counter.add_instance();
    assert_eq!(counter.number_of_instances(), 3);
}

#[test]
fn array_counter_counts() {
    let mut counter = ArrayCounter::empty();
    assert_eq!(
        (counter.number_of_arrays(), counter.total_number_of_elements(), counter.max_size_seen()),
        (0, 0, 0)
    );
    counter.add_elements_from_array(5);
    counter.add_elements_from_array(0);
    counter.add_elements_from_array(u32::MAX);
    counter.add_elements_from_array(7);
    assert_eq!(counter.number_of_arrays(), 4);
    assert_eq!(counter.total_number_of_elements(), 12 + u32::MAX as u64);
    assert_eq!(counter.max_size_seen(), u32::MAX);
}

#[test]
fn class_info_keeps_what_it_is_given() {
    let info = ClassInfo::new(8, 24);
    assert_eq!(info.super_class_object_id(), 8);
    assert_eq!(info.instance_size(), 24);
}

#[test]
fn a_heap_takes_over_what_a_recorder_holds() {
    let mut recorder = ResultRecorder::new(8);
    recorder.record_records(&mut one_of_each());
    let heap = Heap::from(recorder);
    assert_eq!(
        heap.counter,
        HeapCounter {
            id_size: 8,
            classes_unloaded: 1,
            stack_frames: 1,
            stack_traces: 1,
            start_threads: 0,
            end_threads: 0,
            heap_summaries: 1,
            heap_dumps: 1,
            allocation_sites: 1,
            control_settings: 1,
            cpu_samples: 1,
            heap_dump_segments_all_sub_records: 13,
            heap_dump_segments_gc_root_unknown: 1,
            heap_dump_segments_gc_root_thread_object: 1,
            heap_dump_segments_gc_root_jni_global: 1,
            heap_dump_segments_gc_root_jni_local: 1,
            heap_dump_segments_gc_root_java_frame: 1,
            heap_dump_segments_gc_root_native_stack: 1,
            heap_dump_segments_gc_root_sticky_class: 1,
            heap_dump_segments_gc_root_thread_block: 1,
            heap_dump_segments_gc_root_monitor_used: 1,
            heap_dump_segments_gc_object_array_dump: 1,
            heap_dump_segments_gc_instance_dump: 1,
            heap_dump_segments_gc_primitive_array_dump: 1,
            heap_dump_segments_gc_class_dump: 1,
        }
    );
    assert_eq!(heap.utf8_strings[&1], b"java/lang/Object".to_vec());
    assert_eq!(heap.class_data[&7].serial_number, 5);
    assert_eq!(heap.classes_dump[&7].class_object_id, 7);
    assert_eq!(heap.stack_trace_by_serial_number[&21].number_of_frames, 1);
    assert_eq!(heap.stack_frame_by_id[&11].stack_frame_id, 11);
    assert!(heap.instances_pool.is_empty());
}

#[test]
fn class_names_have_dots_for_slashes() {
    let mut recorder = ResultRecorder::new(8);
    recorder.record_records(&mut one_of_each());
    assert_eq!(recorder.get_class_name_string(&7), Some(b"java.lang.Object".to_vec()));
    assert_eq!(recorder.get_class_name_string(&8), None);
    recorder.record_one(Record::LoadClass(LoadClassData {
        serial_number: 6,
        class_object_id: 8,
        stack_trace_serial_number: 0,
        class_name_id: 99,
    }));
    assert_eq!(recorder.get_class_name_string(&8), None);
    recorder.record_one(Record::Utf8String { id: 99, bytes: b"/a//b.c/".to_vec() });
    assert_eq!(recorder.get_class_name_string(&8), Some(b".a..b.c.".to_vec()));
    recorder.record_one(Record::Utf8String { id: 99, bytes: vec![] });
    assert_eq!(recorder.get_class_name_string(&8), Some(vec![]));
}

#[test]
fn a_batch_is_folded_and_handed_back_empty() {
    let mut by_batch = ResultRecorder::new(8);
    let mut batch = Vec::with_capacity(64);
    batch.extend(one_of_each());
    let pooled = by_batch.record_batch(batch);
    assert!(pooled.is_empty());
    assert!(pooled.capacity() >= 64);
    let mut by_records = ResultRecorder::new(8);
    by_records.record_records(&mut one_of_each());
    same_aggregate(&by_batch, &by_records);
}

#[test]
fn a_recorder_that_is_fed_stays_well_formed() {
    let mut recorder = ResultRecorder::new(8);
    assert!(recorder.is_well_formed());
    for record in one_of_each().into_iter().chain(one_of_each()) {
        recorder.record_one(record);
        assert!(recorder.is_well_formed());
    }
}

#[test]
fn counters_that_disagree_are_not_well_formed() {
    let mut recorder = ResultRecorder::new(8);
    recorder.record_records(&mut one_of_each());
    recorder.heap_dump_segments_gc_instance_dump = 0;
    assert!(!recorder.is_well_formed());
    recorder.heap_dump_segments_gc_instance_dump = 1;
    assert!(recorder.is_well_formed());
    recorder.heap_dump_segments_gc_object_array_dump = -1;
    assert!(!recorder.is_well_formed());
    recorder.heap_dump_segments_gc_object_array_dump = 1;
    recorder.heap_dump_segments_gc_primitive_array_dump = 0;
    assert!(!recorder.is_well_formed());
    recorder.heap_dump_segments_gc_primitive_array_dump = 5;
    assert!(recorder.is_well_formed());
}

#[test]
fn room_is_what_the_fullest_counter_leaves() {
    let mut recorder = ResultRecorder::new(8);
    assert!(recorder.has_room_for(0));
    assert!(recorder.has_room_for(i32::MAX as usize));
    assert!(!recorder.has_room_for(i32::MAX as usize + 1));
    assert!(!recorder.has_room_for(usize::MAX));
    recorder.stack_frames = 10;
    assert!(recorder.has_room_for(i32::MAX as usize - 10));
    assert!(!recorder.has_room_for(i32::MAX as usize - 9));
    recorder.heap_dump_segments_gc_class_dump = i32::MAX;
    assert!(recorder.has_room_for(0));
    assert!(!recorder.has_room_for(1));
    recorder.heap_dump_segments_gc_class_dump = 0;
    recorder.start_threads = i32::MAX;
    recorder.end_threads = i32::MAX;
    assert!(recorder.has_room_for(i32::MAX as usize - 10));
}
