//! The top-level records of an HPROF file.

use vstd::prelude::*;
use crate::parser::gc_record::{GcRecord, GcRecordView};

verus! {

/// The announcement that a class was loaded.
#[derive(Debug, Clone, Copy, PartialEq, Eq)]
pub struct LoadClassData {
    pub serial_number: u32,
    pub class_object_id: u64,
    pub stack_trace_serial_number: u32,
    pub class_name_id: u64,
}

/// One frame of a stack trace.
#[derive(Debug, Clone, Copy, PartialEq, Eq)]
pub struct StackFrameData {
    pub stack_frame_id: u64,
    pub method_name_id: u64,
    pub method_signature_id: u64,
    pub source_file_name_id: u64,
    pub class_serial_number: u32,
    pub line_number: i32,
}

/// A stack trace: the ids of its frames, innermost first.
#[derive(Debug, Clone, PartialEq, Eq)]
pub struct StackTraceData {
    pub serial_number: u32,
    pub thread_serial_number: u32,
    pub number_of_frames: u32,
    pub stack_frame_ids: Vec<u64>,
}

/// A [`StackTraceData`] with its frame ids as a sequence.
pub struct StackTraceDataView {
    pub serial_number: u32,
    pub thread_serial_number: u32,
    pub number_of_frames: u32,
    pub stack_frame_ids: Seq<u64>,
}

impl DeepView for StackTraceData {
    type V = StackTraceDataView;

    open spec fn deep_view(&self) -> StackTraceDataView {
        StackTraceDataView {
            serial_number: self.serial_number,
            thread_serial_number: self.thread_serial_number,
            number_of_frames: self.number_of_frames,
            stack_frame_ids: self.stack_frame_ids@,
        }
    }
}

/// The start of a thread.
#[derive(Debug, Clone, Copy, PartialEq, Eq)]
pub struct ThreadStartData {
    pub thread_serial_number: u32,
    pub thread_object_id: u64,
    pub stack_trace_serial_number: u32,
    pub thread_name_id: u64,
    pub thread_group_name_id: u64,
    pub thread_group_parent_name_id: u64,
}

/// The end of a thread.
#[derive(Debug, Clone, Copy, PartialEq, Eq)]
pub struct ThreadEndData {
    pub thread_serial_number: u32,
}

/// One line of an allocation-sites record.
#[derive(Debug, Clone, Copy, PartialEq, Eq)]
pub struct AllocationSite {
    pub is_array: u8,
    pub class_serial_number: u32,
    pub stack_trace_serial_number: u32,
    pub bytes_alive: u32,
    pub instances_alive: u32,
    pub bytes_allocated: u32,
    pub instances_allocated: u32,
}

/// One line of a CPU-samples record.
#[derive(Debug, Clone, Copy, PartialEq, Eq)]
pub struct CpuSample {
    pub number_of_samples: u32,
    pub stack_trace_serial_number: u32,
}

/// One record of the stream. A heap-dump segment shows as a `HeapDumpStart`
/// followed by one `GcSegment` for each of its sub-records.
#[derive(Debug, Clone, PartialEq, Eq)]
#[allow(inconsistent_fields)]
pub enum Record {
    Utf8String { id: u64, bytes: Vec<u8> },
    LoadClass(LoadClassData),
    UnloadClass { serial_number: u32 },
    StackFrame(StackFrameData),
    StackTrace(StackTraceData),
    AllocationSites {
        flags: u16,
        cutoff_ratio: u32,
        total_live_bytes: u32,
        total_live_instances: u32,
        total_bytes_allocated: u64,
        total_instances_allocated: u64,
        number_of_sites: u32,
        allocation_sites: Vec<AllocationSite>,
    },
    StartThread {
        thread_serial_number: u32,
        thread_object_id: u64,
        stack_trace_serial_number: u32,
        thread_name_id: u64,
        thread_group_name_id: u64,
        thread_group_parent_name_id: u64,
    },
    EndThread { thread_serial_number: u32 },
    HeapSummary {
        total_live_bytes: u32,
        total_live_instances: u32,
        total_bytes_allocated: u64,
        total_instances_allocated: u64,
    },
    HeapDumpStart { length: u32 },
    HeapDumpEnd { length: u32 },
    ControlSettings { flags: u32, stack_trace_depth: u16 },
    CpuSamples { total_number_of_samples: u32, number_of_traces: u32, cpu_samples: Vec<CpuSample> },
    GcSegment(GcRecord),
}

/// A [`Record`] with its lists as sequences.
#[allow(inconsistent_fields)]
pub enum RecordView {
    Utf8String { id: u64, bytes: Seq<u8> },
    LoadClass(LoadClassData),
    UnloadClass { serial_number: u32 },
    StackFrame(StackFrameData),
    StackTrace(StackTraceDataView),
    AllocationSites {
        flags: u16,
        cutoff_ratio: u32,
        total_live_bytes: u32,
        total_live_instances: u32,
        total_bytes_allocated: u64,
        total_instances_allocated: u64,
        number_of_sites: u32,
        allocation_sites: Seq<AllocationSite>,
    },
    StartThread {
        thread_serial_number: u32,
        thread_object_id: u64,
        stack_trace_serial_number: u32,
        thread_name_id: u64,
        thread_group_name_id: u64,
        thread_group_parent_name_id: u64,
    },
    EndThread { thread_serial_number: u32 },
    HeapSummary {
        total_live_bytes: u32,
        total_live_instances: u32,
        total_bytes_allocated: u64,
        total_instances_allocated: u64,
    },
    HeapDumpStart { length: u32 },
    HeapDumpEnd { length: u32 },
    ControlSettings { flags: u32, stack_trace_depth: u16 },
    CpuSamples { total_number_of_samples: u32, number_of_traces: u32, cpu_samples: Seq<CpuSample> },
    GcSegment(GcRecordView),
}

impl DeepView for Record {
    type V = RecordView;

    open spec fn deep_view(&self) -> RecordView {
        match *self {
            Record::Utf8String { id, bytes } => RecordView::Utf8String { id, bytes: bytes@ },
            Record::LoadClass(data) => RecordView::LoadClass(data),
            Record::UnloadClass { serial_number } => RecordView::UnloadClass { serial_number },
            Record::StackFrame(data) => RecordView::StackFrame(data),
            Record::StackTrace(data) => RecordView::StackTrace(data.deep_view()),
            Record::AllocationSites {
                flags,
                cutoff_ratio,
                total_live_bytes,
                total_live_instances,
                total_bytes_allocated,
                total_instances_allocated,
                number_of_sites,
                allocation_sites,
            } => RecordView::AllocationSites {
                flags,
                cutoff_ratio,
                total_live_bytes,
                total_live_instances,
                total_bytes_allocated,
                total_instances_allocated,
                number_of_sites,
                allocation_sites: allocation_sites@,
            },
            Record::StartThread {
                thread_serial_number,
                thread_object_id,
                stack_trace_serial_number,
                thread_name_id,
                thread_group_name_id,
                thread_group_parent_name_id,
            } => RecordView::StartThread {
                thread_serial_number,
                thread_object_id,
                stack_trace_serial_number,
                thread_name_id,
                thread_group_name_id,
                thread_group_parent_name_id,
            },
            Record::EndThread { thread_serial_number } => RecordView::EndThread {
                thread_serial_number,
            },
            Record::HeapSummary {
                total_live_bytes,
                total_live_instances,
                total_bytes_allocated,
                total_instances_allocated,
            } => RecordView::HeapSummary {
                total_live_bytes,
                total_live_instances,
                total_bytes_allocated,
                total_instances_allocated,
            },
            Record::HeapDumpStart { length } => RecordView::HeapDumpStart { length },
            Record::HeapDumpEnd { length } => RecordView::HeapDumpEnd { length },
            Record::ControlSettings { flags, stack_trace_depth } => RecordView::ControlSettings {
                flags,
                stack_trace_depth,
            },
            Record::CpuSamples { total_number_of_samples, number_of_traces, cpu_samples } => {
                RecordView::CpuSamples {
                    total_number_of_samples,
                    number_of_traces,
                    cpu_samples: cpu_samples@,
                }
            },
            Record::GcSegment(gc_record) => RecordView::GcSegment(gc_record.deep_view()),
        }
    }
}

} // verus!
