//! Ingestion of HPROF heap dumps.
//!
//! A dump is a header and a body of tagged records. [`parser`] holds the
//! layout: what the bytes of a header, of a record and of a sub-record of a
//! heap-dump segment decode to, and how a body that arrives in chunks splits
//! into records. [`prefetch_reader`] plans the chunks. [`result_recorder`]
//! folds the records into one aggregate of counters and tables. [`slurp`]
//! joins the three and decodes the instances that the aggregate kept as raw
//! bytes; what comes out is a [`Heap`].
//!
//! Every function states what it returns over plain sequences and maps, and
//! is proved to return it. The laws of the pipeline are proved beside the
//! functions: the records of a stream do not depend on how it is cut into
//! chunks, the aggregate is a fold over the records alone, and a decoded
//! instance body encodes to the bytes that it was read from.

use vstd::prelude::*;
use std::collections::HashMap;
use std::sync::Arc;
use crate::parser::gc_record::{ClassDumpFields, ClassDumpFieldsView};
use crate::parser::record::{LoadClassData, StackFrameData, StackTraceData, StackTraceDataView};
use crate::result_recorder::{views_of, Instance, InstanceView, ResultRecorder};

pub mod errors;
pub mod parser;
pub mod prefetch_reader;
pub mod result_recorder;
pub mod slurp;

verus! {

/// How many records of each kind a dump holds. The first group counts
/// top-level records, the second the sub-records of heap-dump segments.
#[derive(Debug, Clone, Copy, PartialEq, Eq)]
pub struct HeapCounter {
    pub id_size: u32,
    pub classes_unloaded: i32,
    pub stack_frames: i32,
    pub stack_traces: i32,
    pub start_threads: i32,
    pub end_threads: i32,
    pub heap_summaries: i32,
    pub heap_dumps: i32,
    pub allocation_sites: i32,
    pub control_settings: i32,
    pub cpu_samples: i32,
    pub heap_dump_segments_all_sub_records: i32,
    pub heap_dump_segments_gc_root_unknown: i32,
    pub heap_dump_segments_gc_root_thread_object: i32,
    pub heap_dump_segments_gc_root_jni_global: i32,
    pub heap_dump_segments_gc_root_jni_local: i32,
    pub heap_dump_segments_gc_root_java_frame: i32,
    pub heap_dump_segments_gc_root_native_stack: i32,
    pub heap_dump_segments_gc_root_sticky_class: i32,
    pub heap_dump_segments_gc_root_thread_block: i32,
    pub heap_dump_segments_gc_root_monitor_used: i32,
    pub heap_dump_segments_gc_object_array_dump: i32,
    pub heap_dump_segments_gc_instance_dump: i32,
    pub heap_dump_segments_gc_primitive_array_dump: i32,
    pub heap_dump_segments_gc_class_dump: i32,
}

/// A heap dump, ingested: the counters of its records and its tables of
/// strings, classes, stack traces and instances, each by its id.
#[derive(Debug, Clone)]
pub struct Heap {
    pub counter: HeapCounter,
    pub utf8_strings: HashMap<u64, Vec<u8>>,
    pub class_data: HashMap<u64, LoadClassData>,
    pub classes_dump: HashMap<u64, ClassDumpFields>,
    pub stack_trace_by_serial_number: HashMap<u32, StackTraceData>,
    pub stack_frame_by_id: HashMap<u64, StackFrameData>,
    pub instances_pool: HashMap<u64, Arc<Instance>>,
}

/// What a [`Heap`] holds, as maps of views.
pub struct HeapView {
    pub counter: HeapCounter,
    pub utf8_strings: Map<u64, Seq<u8>>,
    pub class_data: Map<u64, LoadClassData>,
    pub classes_dump: Map<u64, ClassDumpFieldsView>,
    pub stack_trace_by_serial_number: Map<u32, StackTraceDataView>,
    pub stack_frame_by_id: Map<u64, StackFrameData>,
    pub instances_pool: Map<u64, InstanceView>,
}

impl DeepView for Heap {
    type V = HeapView;

    open spec fn deep_view(&self) -> HeapView {
        HeapView {
            counter: self.counter,
            utf8_strings: self.utf8_strings@.map_values(|bytes: Vec<u8>| bytes@),
            class_data: self.class_data@,
            classes_dump: views_of(self.classes_dump@),
            stack_trace_by_serial_number: views_of(self.stack_trace_by_serial_number@),
            stack_frame_by_id: self.stack_frame_by_id@,
            instances_pool: views_of(self.instances_pool@),
        }
    }
}

impl Heap {
    /// The heap that holds what `recorder` holds: its counters, its tables
    /// and the instances that it has.
    pub open spec fn of_recorder(recorder: ResultRecorder) -> HeapView {
        let v = recorder.deep_view();
        HeapView {
            counter: v.counter,
            utf8_strings: v.utf8_strings_by_id,
            class_data: v.load_class,
            classes_dump: v.classes_dump,
            stack_trace_by_serial_number: v.stack_trace_by_serial_number,
            stack_frame_by_id: v.stack_frame_by_id,
            instances_pool: v.instances,
        }
    }
}

impl vstd::std_specs::convert::FromSpecImpl<ResultRecorder> for Heap {
    open spec fn obeys_from_spec() -> bool {
        true
    }

    open spec fn from_spec(value: ResultRecorder) -> Heap {
        Heap {
            counter: value.counter(),
            utf8_strings: value.utf8_strings_by_id,
            class_data: value.load_class,
            classes_dump: value.classes_dump,
            stack_trace_by_serial_number: value.stack_trace_by_serial_number,
            stack_frame_by_id: value.stack_frame_by_id,
            instances_pool: value.instances,
        }
    }
}

impl From<ResultRecorder> for Heap {
    fn from(value: ResultRecorder) -> (heap: Self)
        ensures
            heap.deep_view() == Heap::of_recorder(value),
    {
        let counter = HeapCounter {
            id_size: value.id_size,
            classes_unloaded: value.classes_unloaded,
            stack_frames: value.stack_frames,
            stack_traces: value.stack_traces,
            start_threads: value.start_threads,
            end_threads: value.end_threads,
            heap_summaries: value.heap_summaries,
            heap_dumps: value.heap_dumps,
            allocation_sites: value.allocation_sites,
            control_settings: value.control_settings,
            cpu_samples: value.cpu_samples,
            heap_dump_segments_all_sub_records: value.heap_dump_segments_all_sub_records,
            heap_dump_segments_gc_root_unknown: value.heap_dump_segments_gc_root_unknown,
            heap_dump_segments_gc_root_thread_object: value.heap_dump_segments_gc_root_thread_object,
            heap_dump_segments_gc_root_jni_global: value.heap_dump_segments_gc_root_jni_global,
            heap_dump_segments_gc_root_jni_local: value.heap_dump_segments_gc_root_jni_local,
            heap_dump_segments_gc_root_java_frame: value.heap_dump_segments_gc_root_java_frame,
            heap_dump_segments_gc_root_native_stack: value.heap_dump_segments_gc_root_native_stack,
            heap_dump_segments_gc_root_sticky_class: value.heap_dump_segments_gc_root_sticky_class,
            heap_dump_segments_gc_root_thread_block: value.heap_dump_segments_gc_root_thread_block,
            heap_dump_segments_gc_root_monitor_used: value.heap_dump_segments_gc_root_monitor_used,
            heap_dump_segments_gc_object_array_dump: value.heap_dump_segments_gc_object_array_dump,
            heap_dump_segments_gc_instance_dump: value.heap_dump_segments_gc_instance_dump,
            heap_dump_segments_gc_primitive_array_dump: value.heap_dump_segments_gc_primitive_array_dump,
            heap_dump_segments_gc_class_dump: value.heap_dump_segments_gc_class_dump,
        };
        Self {
            counter,
            utf8_strings: value.utf8_strings_by_id,
            class_data: value.load_class,
            classes_dump: value.classes_dump,
            stack_trace_by_serial_number: value.stack_trace_by_serial_number,
            stack_frame_by_id: value.stack_frame_by_id,
            instances_pool: value.instances,
        }
    }
}

} // verus!
