//! The aggregate that the records of a dump are folded into.

use vstd::prelude::*;
use vstd::std_specs::hash::spec_hash_map_iter;
use vstd::std_specs::iter::IteratorSpec;
use std::collections::HashMap;
use std::sync::Arc;
use crate::parser::gc_record::{
    ClassDumpFields, ClassDumpFieldsView, GcRecord, GcRecordView, Values, ValuesView,
};
use crate::parser::record::{
    LoadClassData, Record, RecordView, StackFrameData, StackTraceData, StackTraceDataView,
    ThreadEndData, ThreadStartData,
};
use crate::HeapCounter;

verus! {

/// What the size of an instance of a class depends on: the class above it
/// and the bytes that the class itself adds.
#[derive(Debug, Copy, Clone, PartialEq, Eq)]
pub struct ClassInfo {
    super_class_object_id: u64,
    instance_size: u32,
}

/// What a [`ClassInfo`] says of its class.
pub struct ClassInfoView {
    /// The id of the super class; zero where there is none.
    pub super_class_object_id: u64,
    /// The number of bytes that the class's own fields take in an instance.
    pub instance_size: u32,
}

impl View for ClassInfo {
    type V = ClassInfoView;

    closed spec fn view(&self) -> ClassInfoView {
        ClassInfoView {
            super_class_object_id: self.super_class_object_id,
            instance_size: self.instance_size,
        }
    }
}

impl ClassInfo {
    pub fn new(super_class_object_id: u64, instance_size: u32) -> (info: Self)
        ensures
            info@ == (ClassInfoView { super_class_object_id, instance_size }),
    {
        Self { super_class_object_id, instance_size }
    }

    /// The id of the super class; zero where there is none.
    pub fn super_class_object_id(&self) -> (id: u64)
        ensures
            id == self@.super_class_object_id,
    {
        self.super_class_object_id
    }

    /// The number of bytes that the class's own fields take in an instance.
    pub fn instance_size(&self) -> (size: u32)
        ensures
            size == self@.instance_size,
    {
        self.instance_size
    }
}

/// How many instances of one class were seen.
#[derive(Debug, Copy, Clone, PartialEq, Eq)]
pub struct ClassInstanceCounter {
    number_of_instances: u64,
}

impl View for ClassInstanceCounter {
    type V = u64;

    /// The number of instances counted.
    closed spec fn view(&self) -> u64 {
        self.number_of_instances
    }
}

impl ClassInstanceCounter {
    pub fn add_instance(&mut self)
        requires
            old(self)@ < u64::MAX,
        ensures
            final(self)@ == old(self)@ + 1,
    {
        self.number_of_instances += 1;
    }

    pub fn empty() -> (counter: ClassInstanceCounter)
        ensures
            counter@ == 0,
    {
        ClassInstanceCounter { number_of_instances: 0 }
    }

    /// The number of instances counted.
    pub fn number_of_instances(&self) -> (n: u64)
        ensures
            n == self@,
    {
        self.number_of_instances
    }
}

/// How many arrays of one kind were seen, how many elements they hold
/// together, and how many the largest of them holds.
#[derive(Debug, Copy, Clone, PartialEq, Eq)]
pub struct ArrayCounter {
    number_of_arrays: u64,
    max_size_seen: u32,
    total_number_of_elements: u64,
}

/// What an [`ArrayCounter`] has counted.
pub struct ArrayCounterView {
    /// The number of arrays.
    pub number_of_arrays: u64,
    /// The number of elements of the largest array.
    pub max_size_seen: u32,
    /// The number of elements of all the arrays.
    pub total_number_of_elements: u64,
}

impl ArrayCounterView {
    /// The count of no array.
    pub open spec fn zero() -> ArrayCounterView {
        ArrayCounterView { number_of_arrays: 0, max_size_seen: 0, total_number_of_elements: 0 }
    }

    /// The count after one more array, of `elements` elements.
    pub open spec fn plus_array(self, elements: u32) -> ArrayCounterView {
        ArrayCounterView {
            number_of_arrays: (self.number_of_arrays + 1) as u64,
            max_size_seen: if elements > self.max_size_seen {
                elements
            } else {
                self.max_size_seen
            },
            total_number_of_elements: (self.total_number_of_elements + elements) as u64,
        }
    }
}

impl View for ArrayCounter {
    type V = ArrayCounterView;

    closed spec fn view(&self) -> ArrayCounterView {
        ArrayCounterView {
            number_of_arrays: self.number_of_arrays,
            max_size_seen: self.max_size_seen,
            total_number_of_elements: self.total_number_of_elements,
        }
    }
}

impl ArrayCounter {
    pub fn add_elements_from_array(&mut self, elements: u32)
        requires
            old(self)@.number_of_arrays < u64::MAX,
            old(self)@.total_number_of_elements + elements <= u64::MAX,
        ensures
            final(self)@ == old(self)@.plus_array(elements),
            final(self)@.number_of_arrays == old(self)@.number_of_arrays + 1,
            final(self)@.total_number_of_elements == old(self)@.total_number_of_elements
                + elements,
    {
        self.number_of_arrays += 1;
        self.total_number_of_elements += elements as u64;
        if elements > self.max_size_seen {
            self.max_size_seen = elements
        }
    }

    pub fn empty() -> (counter: ArrayCounter)
        ensures
            counter@ == ArrayCounterView::zero(),
    {
        ArrayCounter { number_of_arrays: 0, total_number_of_elements: 0, max_size_seen: 0 }
    }

    /// The number of arrays counted.
    pub fn number_of_arrays(&self) -> (n: u64)
        ensures
            n == self@.number_of_arrays,
    {
        self.number_of_arrays
    }

    /// The number of elements of the largest array counted.
    pub fn max_size_seen(&self) -> (n: u32)
        ensures
            n == self@.max_size_seen,
    {
        self.max_size_seen
    }

    /// The number of elements of all the arrays counted.
    pub fn total_number_of_elements(&self) -> (n: u64)
        ensures
            n == self@.total_number_of_elements,
    {
        self.total_number_of_elements
    }
}

/// The four parts of a rendered report.
pub struct RenderedResult {
    pub summary: String,
    pub thread_info: String,
    pub memory_usage: String,
    pub captured_strings: Option<String>,
}

/// One object of the heap, with its fields decoded: first the fields that
/// its own class declares, then those of the classes above it.
#[derive(Debug, Clone, PartialEq, Eq)]
pub struct Instance {
    pub object_id: u64,
    pub stack_trace_serial_number: u32,
    pub class_object_id: u64,
    pub data_size: u32,
    pub fields: Vec<(u64, Values)>,
    pub super_fields: Vec<(u64, Values)>,
}

/// An [`Instance`] with its fields as sequences.
pub struct InstanceView {
    pub object_id: u64,
    pub stack_trace_serial_number: u32,
    pub class_object_id: u64,
    pub data_size: u32,
    pub fields: Seq<(u64, ValuesView)>,
    pub super_fields: Seq<(u64, ValuesView)>,
}

impl DeepView for Instance {
    type V = InstanceView;

    open spec fn deep_view(&self) -> InstanceView {
        InstanceView {
            object_id: self.object_id,
            stack_trace_serial_number: self.stack_trace_serial_number,
            class_object_id: self.class_object_id,
            data_size: self.data_size,
            fields: self.fields.deep_view(),
            super_fields: self.super_fields.deep_view(),
        }
    }
}

/// The map that holds, for each key of `m`, the view of its value.
pub open spec fn views_of<K, V: DeepView>(m: Map<K, V>) -> Map<K, V::V> {
    m.map_values(|v: V| v.deep_view())
}

/// Folds the records of a dump into one aggregate: tables of strings,
/// classes, stack traces and threads, counters for every kind of record,
/// and the dumps of instances and arrays, kept as they came for the pass
/// that decodes them.
pub struct ResultRecorder {
    pub id_size: u32,
    // Tag counters
    pub classes_unloaded: i32,
    pub stack_frames: i32,
    pub stack_traces: i32,
    pub start_threads: i32,
    pub end_threads: i32,
    pub heap_summaries: i32,
    pub heap_dumps: i32,
    pub allocation_sites: i32,
    pub control_settings: i32,
    pub cpu_samples: i32,
    // GC tag counters
    pub heap_dump_segments_all_sub_records: i32,
    pub heap_dump_segments_gc_root_unknown: i32,
    pub heap_dump_segments_gc_root_thread_object: i32,
    pub heap_dump_segments_gc_root_jni_global: i32,
    pub heap_dump_segments_gc_root_jni_local: i32,
    pub heap_dump_segments_gc_root_java_frame: i32,
    pub heap_dump_segments_gc_root_native_stack: i32,
    pub heap_dump_segments_gc_root_sticky_class: i32,
    pub heap_dump_segments_gc_root_thread_block: i32,
    pub heap_dump_segments_gc_root_monitor_used: i32,
    pub heap_dump_segments_gc_object_array_dump: i32,
    pub heap_dump_segments_gc_instance_dump: i32,
    pub heap_dump_segments_gc_primitive_array_dump: i32,
    pub heap_dump_segments_gc_class_dump: i32,
    // Captured state
    pub utf8_strings_by_id: HashMap<u64, Vec<u8>>,
    /// The one table of loaded classes, by the id of the class object.
    pub load_class: HashMap<u64, LoadClassData>,
    /// For each class serial number, the key of its class in `load_class`.
    pub class_data_by_serial_number: HashMap<u32, u64>,
    pub classes_single_instance_size_by_id: HashMap<u64, ClassInfo>,
    pub classes_dump: HashMap<u64, ClassDumpFields>,
    pub classes_all_instance_total_size_by_id: HashMap<u64, ClassInstanceCounter>,
    /// Counters of primitive arrays, by the code of the element type.
    pub primitive_array_counters: HashMap<u64, ArrayCounter>,
    pub object_array_counters: HashMap<u64, ArrayCounter>,
    pub stack_trace_by_serial_number: HashMap<u32, StackTraceData>,
    pub stack_frame_by_id: HashMap<u64, StackFrameData>,
    pub dump_instances: Vec<GcRecord>,
    pub dump_primitive_array_dump: Vec<GcRecord>,
    pub dump_object_array_dump: Vec<GcRecord>,
    pub instances: HashMap<u64, Arc<Instance>>,
    pub thread_start: HashMap<u32, ThreadStartData>,
    pub thread_end: HashMap<u32, ThreadEndData>,
}

/// What a [`ResultRecorder`] holds, as counters, maps and sequences.
pub struct ResultRecorderView {
    pub counter: HeapCounter,
    pub utf8_strings_by_id: Map<u64, Seq<u8>>,
    pub load_class: Map<u64, LoadClassData>,
    pub class_data_by_serial_number: Map<u32, u64>,
    pub classes_single_instance_size_by_id: Map<u64, ClassInfoView>,
    pub classes_dump: Map<u64, ClassDumpFieldsView>,
    pub classes_all_instance_total_size_by_id: Map<u64, u64>,
    pub primitive_array_counters: Map<u64, ArrayCounterView>,
    pub object_array_counters: Map<u64, ArrayCounterView>,
    pub stack_trace_by_serial_number: Map<u32, StackTraceDataView>,
    pub stack_frame_by_id: Map<u64, StackFrameData>,
    pub dump_instances: Seq<GcRecordView>,
    pub dump_primitive_array_dump: Seq<GcRecordView>,
    pub dump_object_array_dump: Seq<GcRecordView>,
    pub instances: Map<u64, InstanceView>,
    pub thread_start: Map<u32, ThreadStartData>,
    pub thread_end: Map<u32, ThreadEndData>,
}

impl DeepView for ResultRecorder {
    type V = ResultRecorderView;

    open spec fn deep_view(&self) -> ResultRecorderView {
        ResultRecorderView {
            counter: self.counter(),
            utf8_strings_by_id: self.utf8_strings_by_id@.map_values(|bytes: Vec<u8>| bytes@),
            load_class: self.load_class@,
            class_data_by_serial_number: self.class_data_by_serial_number@,
            classes_single_instance_size_by_id: self.classes_single_instance_size_by_id@.map_values(
                |info: ClassInfo| info@,
            ),
            classes_dump: views_of(self.classes_dump@),
            classes_all_instance_total_size_by_id: instance_counts(
                self.classes_all_instance_total_size_by_id@,
            ),
            primitive_array_counters: array_counts(self.primitive_array_counters@),
            object_array_counters: array_counts(self.object_array_counters@),
            stack_trace_by_serial_number: views_of(self.stack_trace_by_serial_number@),
            stack_frame_by_id: self.stack_frame_by_id@,
            dump_instances: self.dump_instances.deep_view(),
            dump_primitive_array_dump: self.dump_primitive_array_dump.deep_view(),
            dump_object_array_dump: self.dump_object_array_dump.deep_view(),
            instances: views_of(self.instances@),
            thread_start: self.thread_start@,
            thread_end: self.thread_end@,
        }
    }
}

/// For each class of `counters`, the number of instances counted.
pub open spec fn instance_counts(counters: Map<u64, ClassInstanceCounter>) -> Map<u64, u64> {
    counters.map_values(|counter: ClassInstanceCounter| counter@)
}

/// For each key of `counters`, what its counter has counted.
pub open spec fn array_counts(counters: Map<u64, ArrayCounter>) -> Map<u64, ArrayCounterView> {
    counters.map_values(|counter: ArrayCounter| counter@)
}

/// The number of instances of class `id` that `m` has counted.
pub open spec fn instances_of(m: Map<u64, u64>, id: u64) -> u64 {
    if m.contains_key(id) {
        m[id]
    } else {
        0
    }
}

/// What `m` has counted of the arrays under key `id`.
pub open spec fn arrays_of(m: Map<u64, ArrayCounterView>, id: u64) -> ArrayCounterView {
    if m.contains_key(id) {
        m[id]
    } else {
        ArrayCounterView::zero()
    }
}

/// The counters after one more sub-record `gc` of a heap-dump segment.
pub open spec fn count_gc_record(c: HeapCounter, gc: GcRecordView) -> HeapCounter {
    let c = HeapCounter {
        heap_dump_segments_all_sub_records: (c.heap_dump_segments_all_sub_records + 1) as i32,
        ..c
    };
    match gc {
        GcRecordView::RootUnknown { .. } => HeapCounter {
            heap_dump_segments_gc_root_unknown: (c.heap_dump_segments_gc_root_unknown + 1) as i32,
            ..c
        },
        GcRecordView::RootThreadObject { .. } => HeapCounter {
            heap_dump_segments_gc_root_thread_object: (c.heap_dump_segments_gc_root_thread_object
                + 1) as i32,
            ..c
        },
        GcRecordView::RootJniGlobal { .. } => HeapCounter {
            heap_dump_segments_gc_root_jni_global: (c.heap_dump_segments_gc_root_jni_global
                + 1) as i32,
            ..c
        },
        GcRecordView::RootJniLocal { .. } => HeapCounter {
            heap_dump_segments_gc_root_jni_local: (c.heap_dump_segments_gc_root_jni_local
                + 1) as i32,
            ..c
        },
        GcRecordView::RootJavaFrame { .. } => HeapCounter {
            heap_dump_segments_gc_root_java_frame: (c.heap_dump_segments_gc_root_java_frame
                + 1) as i32,
            ..c
        },
        GcRecordView::RootNativeStack { .. } => HeapCounter {
            heap_dump_segments_gc_root_native_stack: (c.heap_dump_segments_gc_root_native_stack
                + 1) as i32,
            ..c
        },
        GcRecordView::RootStickyClass { .. } => HeapCounter {
            heap_dump_segments_gc_root_sticky_class: (c.heap_dump_segments_gc_root_sticky_class
                + 1) as i32,
            ..c
        },
        GcRecordView::RootThreadBlock { .. } => HeapCounter {
            heap_dump_segments_gc_root_thread_block: (c.heap_dump_segments_gc_root_thread_block
                + 1) as i32,
            ..c
        },
        GcRecordView::RootMonitorUsed { .. } => HeapCounter {
            heap_dump_segments_gc_root_monitor_used: (c.heap_dump_segments_gc_root_monitor_used
                + 1) as i32,
            ..c
        },
        GcRecordView::InstanceDump { .. } => HeapCounter {
            heap_dump_segments_gc_instance_dump: (c.heap_dump_segments_gc_instance_dump + 1) as i32,
            ..c
        },
        GcRecordView::ObjectArrayDump { .. } => HeapCounter {
            heap_dump_segments_gc_object_array_dump: (c.heap_dump_segments_gc_object_array_dump
                + 1) as i32,
            ..c
        },
        GcRecordView::PrimitiveArrayDump { .. } => HeapCounter {
            heap_dump_segments_gc_primitive_array_dump: (
            c.heap_dump_segments_gc_primitive_array_dump + 1) as i32,
            ..c
        },
        GcRecordView::ClassDump(_) => HeapCounter {
            heap_dump_segments_gc_class_dump: (c.heap_dump_segments_gc_class_dump + 1) as i32,
            ..c
        },
    }
}

/// The counters after one more record `r`. A string, a loaded class, the
/// start and the end of a thread and the end of a heap dump are kept in
/// tables or passed over; no counter counts them.
pub open spec fn count_record(c: HeapCounter, r: RecordView) -> HeapCounter {
    match r {
        RecordView::UnloadClass { .. } => HeapCounter {
            classes_unloaded: (c.classes_unloaded + 1) as i32,
            ..c
        },
        RecordView::StackFrame(_) => HeapCounter { stack_frames: (c.stack_frames + 1) as i32, ..c },
        RecordView::StackTrace(_) => HeapCounter { stack_traces: (c.stack_traces + 1) as i32, ..c },
        RecordView::AllocationSites { .. } => HeapCounter {
            allocation_sites: (c.allocation_sites + 1) as i32,
            ..c
        },
        RecordView::HeapSummary { .. } => HeapCounter {
            heap_summaries: (c.heap_summaries + 1) as i32,
            ..c
        },
        RecordView::ControlSettings { .. } => HeapCounter {
            control_settings: (c.control_settings + 1) as i32,
            ..c
        },
        RecordView::CpuSamples { .. } => HeapCounter { cpu_samples: (c.cpu_samples + 1) as i32, ..c },
        RecordView::HeapDumpStart { .. } => HeapCounter { heap_dumps: (c.heap_dumps + 1) as i32, ..c },
        RecordView::GcSegment(gc) => count_gc_record(c, gc),
        RecordView::Utf8String { .. } => c,
        RecordView::LoadClass(_) => c,
        RecordView::StartThread { .. } => c,
        RecordView::EndThread { .. } => c,
        RecordView::HeapDumpEnd { .. } => c,
    }
}

/// Whether the counters that `r` raises have room for one more.
pub open spec fn can_count(c: HeapCounter, r: RecordView) -> bool {
    match r {
        RecordView::UnloadClass { .. } => c.classes_unloaded < i32::MAX,
        RecordView::StackFrame(_) => c.stack_frames < i32::MAX,
        RecordView::StackTrace(_) => c.stack_traces < i32::MAX,
        RecordView::AllocationSites { .. } => c.allocation_sites < i32::MAX,
        RecordView::HeapSummary { .. } => c.heap_summaries < i32::MAX,
        RecordView::ControlSettings { .. } => c.control_settings < i32::MAX,
        RecordView::CpuSamples { .. } => c.cpu_samples < i32::MAX,
        RecordView::HeapDumpStart { .. } => c.heap_dumps < i32::MAX,
        RecordView::GcSegment(gc) => c.heap_dump_segments_all_sub_records < i32::MAX && match gc {
            GcRecordView::RootUnknown { .. } => c.heap_dump_segments_gc_root_unknown < i32::MAX,
            GcRecordView::RootThreadObject { .. } => c.heap_dump_segments_gc_root_thread_object
                < i32::MAX,
            GcRecordView::RootJniGlobal { .. } => c.heap_dump_segments_gc_root_jni_global < i32::MAX,
            GcRecordView::RootJniLocal { .. } => c.heap_dump_segments_gc_root_jni_local < i32::MAX,
            GcRecordView::RootJavaFrame { .. } => c.heap_dump_segments_gc_root_java_frame < i32::MAX,
            GcRecordView::RootNativeStack { .. } => c.heap_dump_segments_gc_root_native_stack
                < i32::MAX,
            GcRecordView::RootStickyClass { .. } => c.heap_dump_segments_gc_root_sticky_class
                < i32::MAX,
            GcRecordView::RootThreadBlock { .. } => c.heap_dump_segments_gc_root_thread_block
                < i32::MAX,
            GcRecordView::RootMonitorUsed { .. } => c.heap_dump_segments_gc_root_monitor_used
                < i32::MAX,
            GcRecordView::InstanceDump { .. } => c.heap_dump_segments_gc_instance_dump < i32::MAX,
            GcRecordView::ObjectArrayDump { .. } => c.heap_dump_segments_gc_object_array_dump
                < i32::MAX,
            GcRecordView::PrimitiveArrayDump { .. } => c.heap_dump_segments_gc_primitive_array_dump
                < i32::MAX,
            GcRecordView::ClassDump(_) => c.heap_dump_segments_gc_class_dump < i32::MAX,
        },
        RecordView::Utf8String { .. } => true,
        RecordView::LoadClass(_) => true,
        RecordView::StartThread { .. } => true,
        RecordView::EndThread { .. } => true,
        RecordView::HeapDumpEnd { .. } => true,
    }
}

/// The tables after the sub-record `gc`. A dump of an instance or of an
/// array raises the counter of its class or of its element type and is kept
/// behind the dumps of its kind. A class dump replaces the one that its
/// class had; the size of the class is kept from the first.
pub open spec fn record_gc_record(m: ResultRecorderView, gc: GcRecordView) -> ResultRecorderView {
    match gc {
        GcRecordView::InstanceDump { class_object_id, .. } => ResultRecorderView {
            classes_all_instance_total_size_by_id: m.classes_all_instance_total_size_by_id.insert(
                class_object_id,
                (instances_of(m.classes_all_instance_total_size_by_id, class_object_id) + 1) as u64,
            ),
            dump_instances: m.dump_instances.push(gc),
            ..m
        },
        GcRecordView::ObjectArrayDump { number_of_elements, array_class_id, .. } => {
            ResultRecorderView {
                object_array_counters: m.object_array_counters.insert(
                    array_class_id,
                    arrays_of(m.object_array_counters, array_class_id).plus_array(
                        number_of_elements,
                    ),
                ),
                dump_object_array_dump: m.dump_object_array_dump.push(gc),
                ..m
            }
        },
        GcRecordView::PrimitiveArrayDump { number_of_elements, element_type, .. } => {
            ResultRecorderView {
                primitive_array_counters: m.primitive_array_counters.insert(
                    element_type.code() as u64,
                    arrays_of(m.primitive_array_counters, element_type.code() as u64).plus_array(
                        number_of_elements,
                    ),
                ),
                dump_primitive_array_dump: m.dump_primitive_array_dump.push(gc),
                ..m
            }
        },
        GcRecordView::ClassDump(fields) => ResultRecorderView {
            classes_dump: m.classes_dump.insert(fields.class_object_id, fields),
            classes_single_instance_size_by_id: if m.classes_single_instance_size_by_id.contains_key(
                fields.class_object_id,
            ) {
                m.classes_single_instance_size_by_id
            } else {
                m.classes_single_instance_size_by_id.insert(
                    fields.class_object_id,
                    ClassInfoView {
                        super_class_object_id: fields.super_class_object_id,
                        instance_size: fields.instance_size,
                    },
                )
            },
            ..m
        },
        _ => m,
    }
}

/// The aggregate after the record `r`: its counters by [`count_record`],
/// its tables with what `r` brings put under its key, where a later entry
/// replaces an earlier one.
pub open spec fn record_one(m: ResultRecorderView, r: RecordView) -> ResultRecorderView {
    let m = ResultRecorderView { counter: count_record(m.counter, r), ..m };
    match r {
        RecordView::Utf8String { id, bytes } => ResultRecorderView {
            utf8_strings_by_id: m.utf8_strings_by_id.insert(id, bytes),
            ..m
        },
        RecordView::LoadClass(data) => ResultRecorderView {
            load_class: m.load_class.insert(data.class_object_id, data),
            class_data_by_serial_number: m.class_data_by_serial_number.insert(
                data.serial_number,
                data.class_object_id,
            ),
            ..m
        },
        RecordView::StackFrame(data) => ResultRecorderView {
            stack_frame_by_id: m.stack_frame_by_id.insert(data.stack_frame_id, data),
            ..m
        },
        RecordView::StackTrace(data) => ResultRecorderView {
            stack_trace_by_serial_number: m.stack_trace_by_serial_number.insert(
                data.serial_number,
                data,
            ),
            ..m
        },
        RecordView::StartThread {
            thread_serial_number,
            thread_object_id,
            stack_trace_serial_number,
            thread_name_id,
            thread_group_name_id,
            thread_group_parent_name_id,
        } => ResultRecorderView {
            thread_start: m.thread_start.insert(
                thread_serial_number,
                ThreadStartData {
                    thread_serial_number,
                    thread_object_id,
                    stack_trace_serial_number,
                    thread_name_id,
                    thread_group_name_id,
                    thread_group_parent_name_id,
                },
            ),
            ..m
        },
        RecordView::EndThread { thread_serial_number } => ResultRecorderView {
            thread_end: m.thread_end.insert(
                thread_serial_number,
                ThreadEndData { thread_serial_number },
            ),
            ..m
        },
        RecordView::GcSegment(gc) => record_gc_record(m, gc),
        _ => m,
    }
}

/// The aggregate after the records `rs`, one after another.
pub open spec fn record_all(m: ResultRecorderView, rs: Seq<RecordView>) -> ResultRecorderView
    decreases rs.len(),
{
    if rs.len() == 0 {
        m
    } else {
        record_one(record_all(m, rs.drop_last()), rs.last())
    }
}

/// Whether every counter has room for each of the records `rs` when its
/// turn comes.
pub open spec fn can_record_all(m: ResultRecorderView, rs: Seq<RecordView>) -> bool
    decreases rs.len(),
{
    if rs.len() == 0 {
        true
    } else {
        can_record_all(m, rs.drop_last()) && can_count(
            record_all(m, rs.drop_last()).counter,
            rs.last(),
        )
    }
}

/// Whether no class of `counts` has more instances than `limit`.
pub open spec fn instances_within(counts: Map<u64, u64>, limit: int) -> bool {
    forall|id: u64| #[trigger] counts.contains_key(id) ==> counts[id] <= limit
}

/// Whether no key of `counts` has more arrays than `limit`, and none
/// more elements than so many arrays can hold.
pub open spec fn arrays_within(counts: Map<u64, ArrayCounterView>, limit: int) -> bool {
    forall|id: u64| #[trigger]
        counts.contains_key(id) ==> counts[id].number_of_arrays <= limit
            && counts[id].total_number_of_elements <= counts[id].number_of_arrays * u32::MAX
}

impl ResultRecorderView {
    /// Whether the counters of classes and of arrays count no more than
    /// the dumps that were counted: no class has more instances than there
    /// were instance dumps, no key more arrays than there were array dumps
    /// of its kind, and no array more elements than 32 bits can count.
    pub open spec fn wf(self) -> bool {
        &&& 0 <= self.counter.heap_dump_segments_gc_instance_dump
        &&& 0 <= self.counter.heap_dump_segments_gc_object_array_dump
        &&& 0 <= self.counter.heap_dump_segments_gc_primitive_array_dump
        &&& instances_within(
            self.classes_all_instance_total_size_by_id,
            self.counter.heap_dump_segments_gc_instance_dump as int,
        )
        &&& arrays_within(
            self.object_array_counters,
            self.counter.heap_dump_segments_gc_object_array_dump as int,
        )
        &&& arrays_within(
            self.primitive_array_counters,
            self.counter.heap_dump_segments_gc_primitive_array_dump as int,
        )
    }
}

/// A record that the counters have room for keeps the aggregate well
/// formed.
pub proof fn lemma_record_one_wf(m: ResultRecorderView, r: RecordView)
    requires
        m.wf(),
        can_count(m.counter, r),
    ensures
        record_one(m, r).wf(),
{
}

impl ResultRecorder {
    /// The counters of the recorder, as one value.
    pub open spec fn counter(&self) -> HeapCounter {
        HeapCounter {
            id_size: self.id_size,
            classes_unloaded: self.classes_unloaded,
            stack_frames: self.stack_frames,
            stack_traces: self.stack_traces,
            start_threads: self.start_threads,
            end_threads: self.end_threads,
            heap_summaries: self.heap_summaries,
            heap_dumps: self.heap_dumps,
            allocation_sites: self.allocation_sites,
            control_settings: self.control_settings,
            cpu_samples: self.cpu_samples,
            heap_dump_segments_all_sub_records: self.heap_dump_segments_all_sub_records,
            heap_dump_segments_gc_root_unknown: self.heap_dump_segments_gc_root_unknown,
            heap_dump_segments_gc_root_thread_object: self.heap_dump_segments_gc_root_thread_object,
            heap_dump_segments_gc_root_jni_global: self.heap_dump_segments_gc_root_jni_global,
            heap_dump_segments_gc_root_jni_local: self.heap_dump_segments_gc_root_jni_local,
            heap_dump_segments_gc_root_java_frame: self.heap_dump_segments_gc_root_java_frame,
            heap_dump_segments_gc_root_native_stack: self.heap_dump_segments_gc_root_native_stack,
            heap_dump_segments_gc_root_sticky_class: self.heap_dump_segments_gc_root_sticky_class,
            heap_dump_segments_gc_root_thread_block: self.heap_dump_segments_gc_root_thread_block,
            heap_dump_segments_gc_root_monitor_used: self.heap_dump_segments_gc_root_monitor_used,
            heap_dump_segments_gc_object_array_dump: self.heap_dump_segments_gc_object_array_dump,
            heap_dump_segments_gc_instance_dump: self.heap_dump_segments_gc_instance_dump,
            heap_dump_segments_gc_primitive_array_dump: self.heap_dump_segments_gc_primitive_array_dump,
            heap_dump_segments_gc_class_dump: self.heap_dump_segments_gc_class_dump,
        }
    }

    /// The aggregate of no record: every counter zero, every table empty.
    pub open spec fn empty_view(id_size: u32) -> ResultRecorderView {
        ResultRecorderView {
            counter: HeapCounter {
                id_size,
                classes_unloaded: 0,
                stack_frames: 0,
                stack_traces: 0,
                start_threads: 0,
                end_threads: 0,
                heap_summaries: 0,
                heap_dumps: 0,
                allocation_sites: 0,
                control_settings: 0,
                cpu_samples: 0,
                heap_dump_segments_all_sub_records: 0,
                heap_dump_segments_gc_root_unknown: 0,
                heap_dump_segments_gc_root_thread_object: 0,
                heap_dump_segments_gc_root_jni_global: 0,
                heap_dump_segments_gc_root_jni_local: 0,
                heap_dump_segments_gc_root_java_frame: 0,
                heap_dump_segments_gc_root_native_stack: 0,
                heap_dump_segments_gc_root_sticky_class: 0,
                heap_dump_segments_gc_root_thread_block: 0,
                heap_dump_segments_gc_root_monitor_used: 0,
                heap_dump_segments_gc_object_array_dump: 0,
                heap_dump_segments_gc_instance_dump: 0,
                heap_dump_segments_gc_primitive_array_dump: 0,
                heap_dump_segments_gc_class_dump: 0,
            },
            utf8_strings_by_id: Map::empty(),
            load_class: Map::empty(),
            class_data_by_serial_number: Map::empty(),
            classes_single_instance_size_by_id: Map::empty(),
            classes_dump: Map::empty(),
            classes_all_instance_total_size_by_id: Map::empty(),
            primitive_array_counters: Map::empty(),
            object_array_counters: Map::empty(),
            stack_trace_by_serial_number: Map::empty(),
            stack_frame_by_id: Map::empty(),
            dump_instances: Seq::empty(),
            dump_primitive_array_dump: Seq::empty(),
            dump_object_array_dump: Seq::empty(),
            instances: Map::empty(),
            thread_start: Map::empty(),
            thread_end: Map::empty(),
        }
    }

    pub fn new(id_size: u32) -> (recorder: Self)
        ensures
            recorder.deep_view() == Self::empty_view(id_size),
            recorder.deep_view().wf(),
    {
        let recorder = ResultRecorder {
            id_size,
            classes_unloaded: 0,
            stack_frames: 0,
            stack_traces: 0,
            start_threads: 0,
            end_threads: 0,
            heap_summaries: 0,
            heap_dumps: 0,
            allocation_sites: 0,
            control_settings: 0,
            cpu_samples: 0,
            heap_dump_segments_all_sub_records: 0,
            heap_dump_segments_gc_root_unknown: 0,
            heap_dump_segments_gc_root_thread_object: 0,
            heap_dump_segments_gc_root_jni_global: 0,
            heap_dump_segments_gc_root_jni_local: 0,
            heap_dump_segments_gc_root_java_frame: 0,
            heap_dump_segments_gc_root_native_stack: 0,
            heap_dump_segments_gc_root_sticky_class: 0,
            heap_dump_segments_gc_root_thread_block: 0,
            heap_dump_segments_gc_root_monitor_used: 0,
            heap_dump_segments_gc_object_array_dump: 0,
            heap_dump_segments_gc_primitive_array_dump: 0,
            heap_dump_segments_gc_instance_dump: 0,
            heap_dump_segments_gc_class_dump: 0,
            utf8_strings_by_id: HashMap::new(),
            load_class: HashMap::new(),
            class_data_by_serial_number: HashMap::new(),
            classes_single_instance_size_by_id: HashMap::new(),
            classes_all_instance_total_size_by_id: HashMap::new(),
            primitive_array_counters: HashMap::new(),
            object_array_counters: HashMap::new(),
            classes_dump: HashMap::new(),
            stack_trace_by_serial_number: HashMap::new(),
            stack_frame_by_id: HashMap::new(),
            dump_instances: Vec::new(),
            dump_primitive_array_dump: Vec::new(),
            instances: HashMap::new(),
            thread_start: HashMap::new(),
            thread_end: HashMap::new(),
            dump_object_array_dump: Vec::new(),
        };
        proof {
            let v = recorder.deep_view();
            let e = Self::empty_view(id_size);
            assert(v.utf8_strings_by_id =~= e.utf8_strings_by_id);
            assert(v.classes_single_instance_size_by_id =~= e.classes_single_instance_size_by_id);
            assert(v.classes_all_instance_total_size_by_id
                =~= e.classes_all_instance_total_size_by_id);
            assert(v.primitive_array_counters =~= e.primitive_array_counters);
            assert(v.object_array_counters =~= e.object_array_counters);
            assert(v.classes_dump =~= e.classes_dump);
            assert(v.stack_trace_by_serial_number =~= e.stack_trace_by_serial_number);
            assert(v.instances =~= e.instances);
            assert(v.dump_instances =~= e.dump_instances);
            assert(v.dump_primitive_array_dump =~= e.dump_primitive_array_dump);
            assert(v.dump_object_array_dump =~= e.dump_object_array_dump);
        }
        recorder
    }
}

impl ResultRecorder {
    /// Folds one sub-record of a heap-dump segment into the tables.
    fn record_gc_record(&mut self, gc_record: GcRecord)
        requires
            old(self).deep_view().wf(),
            can_count(old(self).counter(), RecordView::GcSegment(gc_record.deep_view())),
        ensures
            final(self).deep_view() == record_one(
                old(self).deep_view(),
                RecordView::GcSegment(gc_record.deep_view()),
            ),
    {
        broadcast use vstd::std_specs::hash::group_hash_axioms;

        let ghost before = self.deep_view();
        let ghost view = gc_record.deep_view();
        let ghost after = record_one(before, RecordView::GcSegment(view));
        self.heap_dump_segments_all_sub_records += 1;
        match gc_record {
            GcRecord::RootUnknown { .. } => self.heap_dump_segments_gc_root_unknown += 1,
            GcRecord::RootThreadObject { .. } => self.heap_dump_segments_gc_root_thread_object += 1,
            GcRecord::RootJniGlobal { .. } => self.heap_dump_segments_gc_root_jni_global += 1,
            GcRecord::RootJniLocal { .. } => self.heap_dump_segments_gc_root_jni_local += 1,
            GcRecord::RootJavaFrame { .. } => self.heap_dump_segments_gc_root_java_frame += 1,
            GcRecord::RootNativeStack { .. } => self.heap_dump_segments_gc_root_native_stack += 1,
            GcRecord::RootStickyClass { .. } => self.heap_dump_segments_gc_root_sticky_class += 1,
            GcRecord::RootThreadBlock { .. } => self.heap_dump_segments_gc_root_thread_block += 1,
            GcRecord::RootMonitorUsed { .. } => self.heap_dump_segments_gc_root_monitor_used += 1,
            GcRecord::InstanceDump {
                object_id,
                stack_trace_serial_number,
                class_object_id,
                data_size,
                bytes_ref,
            } => {
                let mut counter = match self.classes_all_instance_total_size_by_id.get(
                    &class_object_id,
                ) {
                    Some(counter) => *counter,
                    None => ClassInstanceCounter::empty(),
                };
                counter.add_instance();
                self.classes_all_instance_total_size_by_id.insert(class_object_id, counter);
                self.heap_dump_segments_gc_instance_dump += 1;
                let ghost kept = self.dump_instances.deep_view();
                self.dump_instances.push(
                    GcRecord::InstanceDump {
                        object_id,
                        stack_trace_serial_number,
                        class_object_id,
                        data_size,
                        bytes_ref,
                    },
                );
                assert(self.dump_instances.deep_view() =~= kept.push(view));
            },
            GcRecord::ObjectArrayDump {
                object_id,
                stack_trace_serial_number,
                number_of_elements,
                array_class_id,
                bytes_ref,
            } => {
                let mut counter = match self.object_array_counters.get(&array_class_id) {
                    Some(counter) => *counter,
                    None => ArrayCounter::empty(),
                };
                counter.add_elements_from_array(number_of_elements);
                self.object_array_counters.insert(array_class_id, counter);
                let ghost kept = self.dump_object_array_dump.deep_view();
                self.dump_object_array_dump.push(
                    GcRecord::ObjectArrayDump {
                        object_id,
                        stack_trace_serial_number,
                        number_of_elements,
                        array_class_id,
                        bytes_ref,
                    },
                );
                assert(self.dump_object_array_dump.deep_view() =~= kept.push(view));
                self.heap_dump_segments_gc_object_array_dump += 1
            },
            GcRecord::PrimitiveArrayDump {
                object_id,
                stack_trace_serial_number,
                number_of_elements,
                element_type,
                bytes_ref,
            } => {
                let key = element_type.to_u64();
                let mut counter = match self.primitive_array_counters.get(&key) {
                    Some(counter) => *counter,
                    None => ArrayCounter::empty(),
                };
                counter.add_elements_from_array(number_of_elements);
                self.primitive_array_counters.insert(key, counter);
                self.heap_dump_segments_gc_primitive_array_dump += 1;
                let ghost kept = self.dump_primitive_array_dump.deep_view();
                self.dump_primitive_array_dump.push(
                    GcRecord::PrimitiveArrayDump {
                        object_id,
                        stack_trace_serial_number,
                        number_of_elements,
                        element_type,
                        bytes_ref,
                    },
                );
                assert(self.dump_primitive_array_dump.deep_view() =~= kept.push(view));
            },
            GcRecord::ClassDump(class_dump_fields) => {
                let class_object_id = class_dump_fields.class_object_id;
                let instance_size = class_dump_fields.instance_size;
                let super_class_object_id = class_dump_fields.super_class_object_id;
                self.classes_dump.insert(class_object_id, *class_dump_fields);
                if !self.classes_single_instance_size_by_id.contains_key(&class_object_id) {
                    self.classes_single_instance_size_by_id.insert(
                        class_object_id,
                        ClassInfo::new(super_class_object_id, instance_size),
                    );
                }
                self.heap_dump_segments_gc_class_dump += 1;
                assert(self.deep_view().classes_dump =~= after.classes_dump);
            },
        }
        proof {
            let now = self.deep_view();
            assert(now.counter == after.counter);
            assert(now.utf8_strings_by_id =~= after.utf8_strings_by_id);
            assert(now.stack_trace_by_serial_number =~= after.stack_trace_by_serial_number);
            assert(now.instances =~= after.instances);
            assert(now.classes_dump =~= after.classes_dump);
            assert(now.classes_single_instance_size_by_id
                =~= after.classes_single_instance_size_by_id);
            assert(now.classes_all_instance_total_size_by_id
                =~= after.classes_all_instance_total_size_by_id);
            assert(now.primitive_array_counters =~= after.primitive_array_counters);
            assert(now.object_array_counters =~= after.object_array_counters);
        }
    }

    /// Folds one record into the aggregate.
    pub fn record_one(&mut self, record: Record)
        requires
            old(self).deep_view().wf(),
            can_count(old(self).counter(), record.deep_view()),
        ensures
            final(self).deep_view() == record_one(old(self).deep_view(), record.deep_view()),
            final(self).deep_view().wf(),
    {
        broadcast use vstd::std_specs::hash::group_hash_axioms;

        let ghost before = self.deep_view();
        let ghost after = record_one(before, record.deep_view());
        proof {
            lemma_record_one_wf(before, record.deep_view());
        }
        match record {
            Record::Utf8String { id, bytes } => {
                self.utf8_strings_by_id.insert(id, bytes);
            },
            Record::LoadClass(load_class_data) => {
                self.class_data_by_serial_number.insert(
                    load_class_data.serial_number,
                    load_class_data.class_object_id,
                );
                self.load_class.insert(load_class_data.class_object_id, load_class_data);
            },
            Record::UnloadClass { .. } => self.classes_unloaded += 1,
            Record::StackFrame(stack_frame_data) => {
                self.stack_frames += 1;
                self.stack_frame_by_id.insert(stack_frame_data.stack_frame_id, stack_frame_data);
            },
            Record::StackTrace(stack_trace_data) => {
                self.stack_traces += 1;
                self.stack_trace_by_serial_number.insert(
                    stack_trace_data.serial_number,
                    stack_trace_data,
                );
            },
            Record::StartThread {
                thread_serial_number,
                thread_object_id,
                stack_trace_serial_number,
                thread_name_id,
                thread_group_name_id,
                thread_group_parent_name_id,
            } => {
                self.thread_start.insert(
                    thread_serial_number,
                    ThreadStartData {
                        thread_serial_number,
                        thread_object_id,
                        stack_trace_serial_number,
                        thread_name_id,
                        thread_group_name_id,
                        thread_group_parent_name_id,
                    },
                );
            },
            Record::EndThread { thread_serial_number } => {
                self.thread_end.insert(
                    thread_serial_number,
                    ThreadEndData { thread_serial_number },
                );
            },
            Record::AllocationSites { .. } => self.allocation_sites += 1,
            Record::HeapSummary { .. } => self.heap_summaries += 1,
            Record::ControlSettings { .. } => self.control_settings += 1,
            Record::CpuSamples { .. } => self.cpu_samples += 1,
            Record::HeapDumpEnd { .. } => (),
            Record::HeapDumpStart { .. } => self.heap_dumps += 1,
            Record::GcSegment(gc_record) => {
                self.record_gc_record(gc_record);
            },
        }
        proof {
            let now = self.deep_view();
            assert(now.counter == after.counter);
            assert(now.utf8_strings_by_id =~= after.utf8_strings_by_id);
            assert(now.stack_trace_by_serial_number =~= after.stack_trace_by_serial_number);
            assert(now.instances =~= after.instances);
            assert(now.classes_dump =~= after.classes_dump);
            assert(now.classes_single_instance_size_by_id
                =~= after.classes_single_instance_size_by_id);
            assert(now.classes_all_instance_total_size_by_id
                =~= after.classes_all_instance_total_size_by_id);
            assert(now.primitive_array_counters =~= after.primitive_array_counters);
            assert(now.object_array_counters =~= after.object_array_counters);
        }
    }
}

/// Where the counters have room for a run of records, they have room for
/// every run that it starts with.
pub proof fn lemma_can_record_prefix(m: ResultRecorderView, rs: Seq<RecordView>, k: int)
    requires
        can_record_all(m, rs),
        0 <= k <= rs.len(),
    ensures
        can_record_all(m, rs.take(k)),
    decreases rs.len(),
{
    if k == rs.len() {
        assert(rs.take(k) =~= rs);
    } else {
        assert(rs.take(k) =~= rs.drop_last().take(k));
        lemma_can_record_prefix(m, rs.drop_last(), k);
    }
}

/// Records that the counters have room for keep the aggregate well formed.
pub proof fn lemma_record_all_wf(m: ResultRecorderView, rs: Seq<RecordView>)
    requires
        m.wf(),
        can_record_all(m, rs),
    ensures
        record_all(m, rs).wf(),
    decreases rs.len(),
{
    if rs.len() > 0 {
        lemma_record_all_wf(m, rs.drop_last());
        lemma_record_one_wf(record_all(m, rs.drop_last()), rs.last());
    }
}

impl ResultRecorder {
    /// Folds the records of a batch into the aggregate, in their order.
    /// What the records held is moved out of them; the batch keeps its
    /// length, for its owner to clear and use again.
    pub fn record_records(&mut self, records: &mut Vec<Record>)
        requires
            old(self).deep_view().wf(),
            can_record_all(old(self).deep_view(), old(records).deep_view()),
        ensures
            final(self).deep_view() == record_all(old(self).deep_view(), old(records).deep_view()),
            final(self).deep_view().wf(),
            final(records)@.len() == old(records)@.len(),
    {
        let ghost start = self.deep_view();
        let ghost all = old(records).deep_view();
        let n = records.len();
        let mut i: usize = 0;
        proof {
            assert(all.take(0) =~= Seq::<RecordView>::empty());
        }
        while i < n
            invariant
                i <= n,
                n == records@.len(),
                n == all.len(),
                all == old(records).deep_view(),
                forall|j: int| i <= j < n ==> records@[j] == old(records)@[j],
                start.wf(),
                can_record_all(start, all),
                self.deep_view() == record_all(start, all.take(i as int)),
                self.deep_view().wf(),
            decreases n - i,
        {
            proof {
                let upto = all.take(i + 1);
                lemma_can_record_prefix(start, all, i + 1);
                assert(upto.drop_last() =~= all.take(i as int));
                assert(upto.last() == all[i as int]);
            }
            let mut record = Record::HeapDumpEnd { length: 0 };
            std::mem::swap(&mut records[i], &mut record);
            self.record_one(record);
            i += 1;
        }
        proof {
            assert(all.take(n as int) =~= all);
        }
    }
}

/// What batch after batch amounts to: the aggregate after the records of
/// `batches`, each batch folded after the one before it.
pub open spec fn record_batches(m: ResultRecorderView, batches: Seq<Seq<RecordView>>) -> ResultRecorderView
    decreases batches.len(),
{
    if batches.len() == 0 {
        m
    } else {
        record_all(record_batches(m, batches.drop_last()), batches.last())
    }
}

/// Folding two runs of records one after the other is folding them as one.
pub proof fn lemma_record_all_append(m: ResultRecorderView, a: Seq<RecordView>, b: Seq<RecordView>)
    ensures
        record_all(m, a + b) == record_all(record_all(m, a), b),
    decreases b.len(),
{
    if b.len() == 0 {
        assert(a + b =~= a);
    } else {
        assert((a + b).drop_last() =~= a + b.drop_last());
        lemma_record_all_append(m, a, b.drop_last());
    }
}

/// The aggregate is a fold over the records alone: how the records came
/// in batches leaves no trace in it. The same batches in the same order
/// give the same aggregate, and so does any other cut of the same records.
pub proof fn lemma_fold_is_pure(m: ResultRecorderView, batches: Seq<Seq<RecordView>>)
    ensures
        record_batches(m, batches) == record_all(m, batches.flatten()),
    decreases batches.len(),
{
    if batches.len() == 0 {
        assert(batches.flatten() =~= Seq::<RecordView>::empty());
    } else {
        let front = batches.drop_last();
        lemma_fold_is_pure(m, front);
        assert(batches =~= front.push(batches.last()));
        front.lemma_flatten_push(batches.last());
        lemma_record_all_append(m, front.flatten(), batches.last());
    }
}

/// Whether a counter counts the record `r`. Strings, loaded classes, the
/// starts and ends of threads and the ends of heap dumps are not counted.
pub open spec fn is_counted(r: RecordView) -> bool {
    !(r is Utf8String || r is LoadClass || r is StartThread || r is EndThread || r is HeapDumpEnd)
}

/// The number of records among `rs` that a counter counts.
pub open spec fn counted(rs: Seq<RecordView>) -> int
    decreases rs.len(),
{
    if rs.len() == 0 {
        0
    } else {
        counted(rs.drop_last()) + if is_counted(rs.last()) {
            1int
        } else {
            0int
        }
    }
}

/// The sum of the counters of top-level records and of the counter of all
/// sub-records.
pub open spec fn tag_total(c: HeapCounter) -> int {
    c.classes_unloaded + c.stack_frames + c.stack_traces + c.start_threads + c.end_threads
        + c.heap_summaries + c.heap_dumps + c.allocation_sites + c.control_settings + c.cpu_samples
        + c.heap_dump_segments_all_sub_records
}

/// The sum of the counters of the kinds of sub-records.
pub open spec fn gc_total(c: HeapCounter) -> int {
    c.heap_dump_segments_gc_root_unknown + c.heap_dump_segments_gc_root_thread_object
        + c.heap_dump_segments_gc_root_jni_global + c.heap_dump_segments_gc_root_jni_local
        + c.heap_dump_segments_gc_root_java_frame + c.heap_dump_segments_gc_root_native_stack
        + c.heap_dump_segments_gc_root_sticky_class + c.heap_dump_segments_gc_root_thread_block
        + c.heap_dump_segments_gc_root_monitor_used + c.heap_dump_segments_gc_object_array_dump
        + c.heap_dump_segments_gc_instance_dump + c.heap_dump_segments_gc_primitive_array_dump
        + c.heap_dump_segments_gc_class_dump
}

/// Whether no counter of `a` is above its counterpart in `b`.
pub open spec fn counters_le(a: HeapCounter, b: HeapCounter) -> bool {
    &&& a.classes_unloaded <= b.classes_unloaded
    &&& a.stack_frames <= b.stack_frames
    &&& a.stack_traces <= b.stack_traces
    &&& a.start_threads <= b.start_threads
    &&& a.end_threads <= b.end_threads
    &&& a.heap_summaries <= b.heap_summaries
    &&& a.heap_dumps <= b.heap_dumps
    &&& a.allocation_sites <= b.allocation_sites
    &&& a.control_settings <= b.control_settings
    &&& a.cpu_samples <= b.cpu_samples
    &&& a.heap_dump_segments_all_sub_records <= b.heap_dump_segments_all_sub_records
    &&& a.heap_dump_segments_gc_root_unknown <= b.heap_dump_segments_gc_root_unknown
    &&& a.heap_dump_segments_gc_root_thread_object <= b.heap_dump_segments_gc_root_thread_object
    &&& a.heap_dump_segments_gc_root_jni_global <= b.heap_dump_segments_gc_root_jni_global
    &&& a.heap_dump_segments_gc_root_jni_local <= b.heap_dump_segments_gc_root_jni_local
    &&& a.heap_dump_segments_gc_root_java_frame <= b.heap_dump_segments_gc_root_java_frame
    &&& a.heap_dump_segments_gc_root_native_stack <= b.heap_dump_segments_gc_root_native_stack
    &&& a.heap_dump_segments_gc_root_sticky_class <= b.heap_dump_segments_gc_root_sticky_class
    &&& a.heap_dump_segments_gc_root_thread_block <= b.heap_dump_segments_gc_root_thread_block
    &&& a.heap_dump_segments_gc_root_monitor_used <= b.heap_dump_segments_gc_root_monitor_used
    &&& a.heap_dump_segments_gc_object_array_dump <= b.heap_dump_segments_gc_object_array_dump
    &&& a.heap_dump_segments_gc_instance_dump <= b.heap_dump_segments_gc_instance_dump
    &&& a.heap_dump_segments_gc_primitive_array_dump
        <= b.heap_dump_segments_gc_primitive_array_dump
    &&& a.heap_dump_segments_gc_class_dump <= b.heap_dump_segments_gc_class_dump
}

/// Whether no counter of `c` is above `bound`.
pub open spec fn counters_below(c: HeapCounter, bound: int) -> bool {
    &&& c.classes_unloaded <= bound
    &&& c.stack_frames <= bound
    &&& c.stack_traces <= bound
    &&& c.heap_summaries <= bound
    &&& c.heap_dumps <= bound
    &&& c.allocation_sites <= bound
    &&& c.control_settings <= bound
    &&& c.cpu_samples <= bound
    &&& c.heap_dump_segments_all_sub_records <= bound
    &&& c.heap_dump_segments_gc_root_unknown <= bound
    &&& c.heap_dump_segments_gc_root_thread_object <= bound
    &&& c.heap_dump_segments_gc_root_jni_global <= bound
    &&& c.heap_dump_segments_gc_root_jni_local <= bound
    &&& c.heap_dump_segments_gc_root_java_frame <= bound
    &&& c.heap_dump_segments_gc_root_native_stack <= bound
    &&& c.heap_dump_segments_gc_root_sticky_class <= bound
    &&& c.heap_dump_segments_gc_root_thread_block <= bound
    &&& c.heap_dump_segments_gc_root_monitor_used <= bound
    &&& c.heap_dump_segments_gc_object_array_dump <= bound
    &&& c.heap_dump_segments_gc_instance_dump <= bound
    &&& c.heap_dump_segments_gc_primitive_array_dump <= bound
    &&& c.heap_dump_segments_gc_class_dump <= bound
}

/// What one sub-record does to the counters: none goes down, the counter
/// of all sub-records and the counter of its kind go up by one, and no
/// other changes.
proof fn lemma_count_gc_record(c: HeapCounter, gc: GcRecordView, bound: int)
    requires
        can_count(c, RecordView::GcSegment(gc)),
    ensures
        counters_le(c, count_gc_record(c, gc)),
        count_gc_record(c, gc).id_size == c.id_size,
        tag_total(count_gc_record(c, gc)) == tag_total(c) + 1,
        gc_total(count_gc_record(c, gc)) == gc_total(c) + 1,
        count_gc_record(c, gc).heap_dump_segments_all_sub_records
            == c.heap_dump_segments_all_sub_records + 1,
        counters_below(c, bound) ==> counters_below(count_gc_record(c, gc), bound + 1),
{
}

/// What one record does to the counters: none goes down, the counted
/// kinds raise the sum of the tag counters by one, a sub-record raises the
/// counter of all sub-records and the counter of its kind together, and no
/// counter goes up by more than one.
pub proof fn lemma_count_record(c: HeapCounter, r: RecordView, bound: int)
    requires
        can_count(c, r),
    ensures
        counters_le(c, count_record(c, r)),
        count_record(c, r).id_size == c.id_size,
        tag_total(count_record(c, r)) == tag_total(c) + if is_counted(r) {
            1int
        } else {
            0int
        },
        count_record(c, r).heap_dump_segments_all_sub_records - gc_total(count_record(c, r))
            == c.heap_dump_segments_all_sub_records - gc_total(c),
        counters_below(c, bound) ==> counters_below(count_record(c, r), bound + 1),
{
    if let RecordView::GcSegment(gc) = r {
        lemma_count_gc_record(c, gc, bound);
    }
}

/// Folding records never lowers a counter: each counter of the aggregate
/// after the records is at least what it was before them. The sum of the
/// tag counters goes up by the number of records of counted kinds, and the
/// counter of all sub-records stays the sum of the counters of their kinds
/// where it was so before.
pub proof fn lemma_counters_grow(m: ResultRecorderView, rs: Seq<RecordView>)
    requires
        can_record_all(m, rs),
    ensures
        counters_le(m.counter, record_all(m, rs).counter),
        record_all(m, rs).counter.id_size == m.counter.id_size,
        tag_total(record_all(m, rs).counter) == tag_total(m.counter) + counted(rs),
        record_all(m, rs).counter.heap_dump_segments_all_sub_records - gc_total(
            record_all(m, rs).counter,
        ) == m.counter.heap_dump_segments_all_sub_records - gc_total(m.counter),
    decreases rs.len(),
{
    if rs.len() > 0 {
        lemma_counters_grow(m, rs.drop_last());
        lemma_count_record(record_all(m, rs.drop_last()).counter, rs.last(), 0);
    }
}

/// Where every record is of a counted kind, the sum of the tag counters
/// goes up by the number of the records.
pub proof fn lemma_tag_counters_count_records(m: ResultRecorderView, rs: Seq<RecordView>)
    requires
        can_record_all(m, rs),
        forall|i: int| 0 <= i < rs.len() ==> is_counted(#[trigger] rs[i]),
    ensures
        tag_total(record_all(m, rs).counter) == tag_total(m.counter) + rs.len(),
{
    lemma_counters_grow(m, rs);
    lemma_counted_all(rs);
}

/// Where every record is of a counted kind, all are counted.
proof fn lemma_counted_all(rs: Seq<RecordView>)
    requires
        forall|i: int| 0 <= i < rs.len() ==> is_counted(#[trigger] rs[i]),
    ensures
        counted(rs) == rs.len(),
    decreases rs.len(),
{
    if rs.len() > 0 {
        assert forall|i: int| 0 <= i < rs.drop_last().len() implies is_counted(
            #[trigger] rs.drop_last()[i],
        ) by {
            assert(rs.drop_last()[i] == rs[i]);
        }
        lemma_counted_all(rs.drop_last());
    }
}

/// Counters that leave room for as many records as `rs` holds have room
/// for `rs`: each record raises a counter by one at most.
pub proof fn lemma_room_for_records(m: ResultRecorderView, rs: Seq<RecordView>, bound: int)
    requires
        counters_below(m.counter, bound),
        bound + rs.len() <= i32::MAX,
    ensures
        can_record_all(m, rs),
        counters_below(record_all(m, rs).counter, bound + rs.len()),
    decreases rs.len(),
{
    if rs.len() > 0 {
        lemma_room_for_records(m, rs.drop_last(), bound);
        lemma_count_record(
            record_all(m, rs.drop_last()).counter,
            rs.last(),
            bound + rs.len() - 1,
        );
    }
}

/// The counters have room for two runs of records, one behind the other,
/// where they have room for the first and, after it, for the second.
pub proof fn lemma_can_record_append(m: ResultRecorderView, a: Seq<RecordView>, b: Seq<RecordView>)
    ensures
        can_record_all(m, a + b) <==> can_record_all(m, a) && can_record_all(record_all(m, a), b),
    decreases b.len(),
{
    if b.len() == 0 {
        assert(a + b =~= a);
    } else {
        assert((a + b).drop_last() =~= a + b.drop_last());
        lemma_can_record_append(m, a, b.drop_last());
        lemma_record_all_append(m, a, b.drop_last());
    }
}

/// The name `s` of a class with a dot in the place of every slash.
pub open spec fn dotted(s: Seq<u8>) -> Seq<u8> {
    s.map_values(|b: u8| if b == 0x2F { 0x2Eu8 } else { b })
}

/// The name of the class `class_id` in `m`, with dots for slashes: the
/// string that the loaded class names. There is none where the class was
/// not loaded or its name is not among the strings.
pub open spec fn class_name(m: ResultRecorderView, class_id: u64) -> Option<Seq<u8>> {
    if m.load_class.contains_key(class_id) && m.utf8_strings_by_id.contains_key(
        m.load_class[class_id].class_name_id,
    ) {
        Some(dotted(m.utf8_strings_by_id[m.load_class[class_id].class_name_id]))
    } else {
        None
    }
}

impl ResultRecorder {
    /// The name of the class `class_id`, with dots for slashes.
    pub fn get_class_name_string(&self, class_id: &u64) -> (name: Option<Vec<u8>>)
        ensures
            match name {
                Some(name) => class_name(self.deep_view(), *class_id) == Some(name@),
                None => class_name(self.deep_view(), *class_id) is None,
            },
    {
        broadcast use vstd::std_specs::hash::group_hash_axioms;

        let class_data = match self.load_class.get(class_id) {
            Some(class_data) => class_data,
            None => {
                return None;
            },
        };
        let raw = match self.utf8_strings_by_id.get(&class_data.class_name_id) {
            Some(raw) => raw,
            None => {
                return None;
            },
        };
        let mut name: Vec<u8> = Vec::with_capacity(raw.len());
        let mut i: usize = 0;
        while i < raw.len()
            invariant
                i <= raw.len(),
                name@.len() == i,
                forall|j: int| 0 <= j < i ==> name@[j] == dotted(raw@)[j],
            decreases raw.len() - i,
        {
            let byte = raw[i];
            name.push(if byte == 0x2F { 0x2E } else { byte });
            i += 1;
        }
        assert(name@ =~= dotted(raw@));
        Some(name)
    }

    /// Folds a batch of records into the aggregate and hands the batch
    /// back empty, with its storage, to be filled again.
    pub fn record_batch(&mut self, records: Vec<Record>) -> (pooled: Vec<Record>)
        requires
            old(self).deep_view().wf(),
            can_record_all(old(self).deep_view(), records.deep_view()),
        ensures
            final(self).deep_view() == record_all(old(self).deep_view(), records.deep_view()),
            final(self).deep_view().wf(),
            pooled@.len() == 0,
    {
        let mut records = records;
        self.record_records(&mut records);
        // clear values but retain underlying storage
        records.clear();
        records
    }
}

fn instance_counters_within(counters: &HashMap<u64, ClassInstanceCounter>, limit: i32) -> (within:
    bool)
    requires
        0 <= limit,
    ensures
        within == instances_within(instance_counts(counters@), limit as int),
{
    broadcast use vstd::std_specs::hash::group_hash_axioms;

    let ghost entries = spec_hash_map_iter(counters).remaining();
    for entry in it: counters.iter()
        invariant
            0 <= limit,
            entries == it.seq(),
            it.seq() == spec_hash_map_iter(counters).remaining(),
            forall|i: int| 0 <= i < it.index() ==> (*it.seq()[i].1)@ <= limit,
    {
        let (id, counter) = entry;
        if counter.number_of_instances() > limit as u64 {
            assert(counters@.contains_key(*id) && counters@[*id] == *counter);
            assert(instance_counts(counters@).contains_key(*id));
            return false;
        }
    }
    assert forall|id: u64| #[trigger]
        instance_counts(counters@).contains_key(id) implies instance_counts(counters@)[id]
        <= limit by {
        let pair = (&id, &counters@[id]);
        assert(entries.contains(pair));
        let i = choose|i: int| 0 <= i < entries.len() && entries[i] == pair;
        assert((*entries[i].1)@ <= limit);
    }
    true
}

fn array_counters_within(counters: &HashMap<u64, ArrayCounter>, limit: i32) -> (within: bool)
    requires
        0 <= limit,
    ensures
        within == arrays_within(array_counts(counters@), limit as int),
{
    broadcast use vstd::std_specs::hash::group_hash_axioms;

    let ghost entries = spec_hash_map_iter(counters).remaining();
    for entry in it: counters.iter()
        invariant
            0 <= limit,
            entries == it.seq(),
            it.seq() == spec_hash_map_iter(counters).remaining(),
            forall|i: int|
                0 <= i < it.index() ==> (*it.seq()[i].1)@.number_of_arrays <= limit && (
                *it.seq()[i].1)@.total_number_of_elements <= (*it.seq()[i].1)@.number_of_arrays
                    * u32::MAX,
    {
        let (id, counter) = entry;
        assert(counters@.contains_key(*id) && counters@[*id] == *counter);
        assert(array_counts(counters@).contains_key(*id));
        if counter.number_of_arrays() > limit as u64 {
            return false;
        }
        if counter.total_number_of_elements() > counter.number_of_arrays() * (u32::MAX as u64) {
            return false;
        }
    }
    assert forall|id: u64| #[trigger]
        array_counts(counters@).contains_key(id) implies array_counts(
        counters@,
    )[id].number_of_arrays <= limit && array_counts(counters@)[id].total_number_of_elements
        <= array_counts(counters@)[id].number_of_arrays * u32::MAX by {
        let pair = (&id, &counters@[id]);
        assert(entries.contains(pair));
        let i = choose|i: int| 0 <= i < entries.len() && entries[i] == pair;
        assert((*entries[i].1)@.number_of_arrays <= limit);
    }
    true
}

impl ResultRecorder {
    /// Whether the counters of classes and of arrays count no more than
    /// the dumps that were counted. A recorder that was made by
    /// [`ResultRecorder::new`] and fed by its own methods always is.
    pub fn is_well_formed(&self) -> (well_formed: bool)
        ensures
            well_formed == self.deep_view().wf(),
    {
        if self.heap_dump_segments_gc_instance_dump < 0
            || self.heap_dump_segments_gc_object_array_dump < 0
            || self.heap_dump_segments_gc_primitive_array_dump < 0 {
            return false;
        }
        instance_counters_within(
            &self.classes_all_instance_total_size_by_id,
            self.heap_dump_segments_gc_instance_dump,
        ) && array_counters_within(
            &self.object_array_counters,
            self.heap_dump_segments_gc_object_array_dump,
        ) && array_counters_within(
            &self.primitive_array_counters,
            self.heap_dump_segments_gc_primitive_array_dump,
        )
    }

    /// Whether every counter can go up by `count` without passing the
    /// largest number that it can hold. Counters that can have room for
    /// any `count` records.
    pub fn has_room_for(&self, count: usize) -> (room: bool)
        ensures
            room == counters_below(self.counter(), i32::MAX - count),
    {
        if count > u32::MAX as usize {
            // the bound lies below every number that a counter can hold
            return false;
        }
        let bound: i64 = i32::MAX as i64 - count as i64;
        self.classes_unloaded as i64 <= bound && self.stack_frames as i64 <= bound
            && self.stack_traces as i64 <= bound && self.heap_summaries as i64 <= bound
            && self.heap_dumps as i64 <= bound && self.allocation_sites as i64 <= bound
            && self.control_settings as i64 <= bound && self.cpu_samples as i64 <= bound
            && self.heap_dump_segments_all_sub_records as i64 <= bound
            && self.heap_dump_segments_gc_root_unknown as i64 <= bound
            && self.heap_dump_segments_gc_root_thread_object as i64 <= bound
            && self.heap_dump_segments_gc_root_jni_global as i64 <= bound
            && self.heap_dump_segments_gc_root_jni_local as i64 <= bound
            && self.heap_dump_segments_gc_root_java_frame as i64 <= bound
            && self.heap_dump_segments_gc_root_native_stack as i64 <= bound
            && self.heap_dump_segments_gc_root_sticky_class as i64 <= bound
            && self.heap_dump_segments_gc_root_thread_block as i64 <= bound
            && self.heap_dump_segments_gc_root_monitor_used as i64 <= bound
            && self.heap_dump_segments_gc_object_array_dump as i64 <= bound
            && self.heap_dump_segments_gc_instance_dump as i64 <= bound
            && self.heap_dump_segments_gc_primitive_array_dump as i64 <= bound
            && self.heap_dump_segments_gc_class_dump as i64 <= bound
    }
}

} // verus!
