//! The layout of records and sub-records: what their bytes decode to.

use vstd::prelude::*;
use crate::parser::gc_record::{
    ArrayValue, ClassDumpFields, ClassDumpFieldsView, ConstFieldInfo, FieldInfo, FieldType,
    FieldValue, GcRecord, GcRecordView,
};
use crate::parser::primitive_parsers::{
    as_i16, as_i32, as_i64, as_i8, be_u16, be_u32, be_u64, copy_bytes, read_u16, read_u32,
    read_u64, read_u8, to_i16, to_i32, to_i64, to_i8,
};
use crate::parser::record::{
    AllocationSite, CpuSample, LoadClassData, Record, RecordView, StackFrameData, StackTraceData,
    StackTraceDataView,
};

verus! {

pub const TAG_STRING: u8 = 0x01;

pub const TAG_LOAD_CLASS: u8 = 0x02;

pub const TAG_UNLOAD_CLASS: u8 = 0x03;

pub const TAG_STACK_FRAME: u8 = 0x04;

pub const TAG_STACK_TRACE: u8 = 0x05;

pub const TAG_ALLOC_SITES: u8 = 0x06;

pub const TAG_HEAP_SUMMARY: u8 = 0x07;

pub const TAG_START_THREAD: u8 = 0x0A;

pub const TAG_END_THREAD: u8 = 0x0B;

pub const TAG_HEAP_DUMP: u8 = 0x0C;

pub const TAG_CPU_SAMPLES: u8 = 0x0D;

pub const TAG_CONTROL_SETTING: u8 = 0x0E;

pub const TAG_HEAP_DUMP_SEGMENT: u8 = 0x1C;

pub const TAG_HEAP_DUMP_END: u8 = 0x2C;

pub const TAG_GC_ROOT_UNKNOWN: u8 = 0xFF;

pub const TAG_GC_ROOT_JNI_GLOBAL: u8 = 0x01;

pub const TAG_GC_ROOT_JNI_LOCAL: u8 = 0x02;

pub const TAG_GC_ROOT_JAVA_FRAME: u8 = 0x03;

pub const TAG_GC_ROOT_NATIVE_STACK: u8 = 0x04;

pub const TAG_GC_ROOT_STICKY_CLASS: u8 = 0x05;

pub const TAG_GC_ROOT_THREAD_BLOCK: u8 = 0x06;

pub const TAG_GC_ROOT_MONITOR_USED: u8 = 0x07;

pub const TAG_GC_ROOT_THREAD_OBJ: u8 = 0x08;

pub const TAG_GC_CLASS_DUMP: u8 = 0x20;

pub const TAG_GC_INSTANCE_DUMP: u8 = 0x21;

pub const TAG_GC_OBJ_ARRAY_DUMP: u8 = 0x22;

pub const TAG_GC_PRIM_ARRAY_DUMP: u8 = 0x23;

/// The value of type `t` that the bytes of `s` from `at` on hold: integers
/// most significant byte first and signed in two's complement, a boolean
/// true for every byte but zero, a float as its bits.
pub open spec fn decode_field_value(t: FieldType, s: Seq<u8>, at: int) -> FieldValue {
    match t {
        FieldType::Object => FieldValue::Object(be_u64(s, at)),
        FieldType::Bool => FieldValue::Bool(s[at] != 0),
        FieldType::Char => FieldValue::Char(be_u16(s, at)),
        FieldType::Float => FieldValue::Float(be_u32(s, at)),
        FieldType::Double => FieldValue::Double(be_u64(s, at)),
        FieldType::Byte => FieldValue::Byte(as_i8(s[at])),
        FieldType::Short => FieldValue::Short(as_i16(be_u16(s, at))),
        FieldType::Int => FieldValue::Int(as_i32(be_u32(s, at))),
        FieldType::Long => FieldValue::Long(as_i64(be_u64(s, at))),
    }
}

/// Decodes the value of type `field_type` that starts at `at`.
pub fn parse_field_value(field_type: FieldType, data: &[u8], at: usize) -> (value: FieldValue)
    requires
        at + field_type.byte_size() <= data.len(),
    ensures
        value == decode_field_value(field_type, data@, at as int),
        value.field_type() == field_type,
{
    match field_type {
        FieldType::Object => FieldValue::Object(read_u64(data, at)),
        FieldType::Bool => FieldValue::Bool(read_u8(data, at) != 0),
        FieldType::Char => FieldValue::Char(read_u16(data, at)),
        FieldType::Float => FieldValue::Float(read_u32(data, at)),
        FieldType::Double => FieldValue::Double(read_u64(data, at)),
        FieldType::Byte => FieldValue::Byte(to_i8(read_u8(data, at))),
        FieldType::Short => FieldValue::Short(to_i16(read_u16(data, at))),
        FieldType::Int => FieldValue::Int(to_i32(read_u32(data, at))),
        FieldType::Long => FieldValue::Long(to_i64(read_u64(data, at))),
    }
}

/// The `count` elements of type `t` that `s` starts with, where it holds
/// that many.
pub open spec fn decode_array(t: FieldType, count: int, s: Seq<u8>) -> Option<Seq<FieldValue>> {
    if s.len() < count * t.byte_size() {
        None
    } else {
        Some(Seq::new(count as nat, |i: int| decode_field_value(t, s, i * t.byte_size())))
    }
}

fn parse_bool_array(count: usize, data: &[u8]) -> (out: Vec<bool>)
    requires
        count <= data.len(),
    ensures
        out@.len() == count,
        forall|i: int| 0 <= i < count ==> out@[i] == (data@[i] != 0),
{
    let mut out: Vec<bool> = Vec::with_capacity(count);
    let mut i: usize = 0;
    while i < count
        invariant
            i <= count <= data.len(),
            out@.len() == i,
            forall|j: int| 0 <= j < i ==> out@[j] == (data@[j] != 0),
        decreases count - i,
    {
        out.push(read_u8(data, i) != 0);
        i += 1;
    }
    out
}

fn parse_i8_array(count: usize, data: &[u8]) -> (out: Vec<i8>)
    requires
        count <= data.len(),
    ensures
        out@.len() == count,
        forall|i: int| 0 <= i < count ==> out@[i] == as_i8(data@[i]),
{
    let mut out: Vec<i8> = Vec::with_capacity(count);
    let mut i: usize = 0;
    while i < count
        invariant
            i <= count <= data.len(),
            out@.len() == i,
            forall|j: int| 0 <= j < i ==> out@[j] == as_i8(data@[j]),
        decreases count - i,
    {
        out.push(to_i8(read_u8(data, i)));
        i += 1;
    }
    out
}

fn parse_u16_array(count: usize, data: &[u8]) -> (out: Vec<u16>)
    requires
        count * 2 <= data.len(),
    ensures
        out@.len() == count,
        forall|i: int| 0 <= i < count ==> out@[i] == be_u16(data@, i * 2),
{
    let mut out: Vec<u16> = Vec::with_capacity(count);
    let mut i: usize = 0;
    while i < count
        invariant
            i <= count,
            count * 2 <= data.len(),
            out@.len() == i,
            forall|j: int| 0 <= j < i ==> out@[j] == be_u16(data@, j * 2),
        decreases count - i,
    {
        out.push(read_u16(data, i * 2));
        i += 1;
    }
    out
}

fn parse_i16_array(count: usize, data: &[u8]) -> (out: Vec<i16>)
    requires
        count * 2 <= data.len(),
    ensures
        out@.len() == count,
        forall|i: int| 0 <= i < count ==> out@[i] == as_i16(be_u16(data@, i * 2)),
{
    let mut out: Vec<i16> = Vec::with_capacity(count);
    let mut i: usize = 0;
    while i < count
        invariant
            i <= count,
            count * 2 <= data.len(),
            out@.len() == i,
            forall|j: int| 0 <= j < i ==> out@[j] == as_i16(be_u16(data@, j * 2)),
        decreases count - i,
    {
        out.push(to_i16(read_u16(data, i * 2)));
        i += 1;
    }
    out
}

fn parse_u32_array(count: usize, data: &[u8]) -> (out: Vec<u32>)
    requires
        count * 4 <= data.len(),
    ensures
        out@.len() == count,
        forall|i: int| 0 <= i < count ==> out@[i] == be_u32(data@, i * 4),
{
    let mut out: Vec<u32> = Vec::with_capacity(count);
    let mut i: usize = 0;
    while i < count
        invariant
            i <= count,
            count * 4 <= data.len(),
            out@.len() == i,
            forall|j: int| 0 <= j < i ==> out@[j] == be_u32(data@, j * 4),
        decreases count - i,
    {
        out.push(read_u32(data, i * 4));
        i += 1;
    }
    out
}

fn parse_i32_array(count: usize, data: &[u8]) -> (out: Vec<i32>)
    requires
        count * 4 <= data.len(),
    ensures
        out@.len() == count,
        forall|i: int| 0 <= i < count ==> out@[i] == as_i32(be_u32(data@, i * 4)),
{
    let mut out: Vec<i32> = Vec::with_capacity(count);
    let mut i: usize = 0;
    while i < count
        invariant
            i <= count,
            count * 4 <= data.len(),
            out@.len() == i,
            forall|j: int| 0 <= j < i ==> out@[j] == as_i32(be_u32(data@, j * 4)),
        decreases count - i,
    {
        out.push(to_i32(read_u32(data, i * 4)));
        i += 1;
    }
    out
}

fn parse_u64_array(count: usize, data: &[u8], from: usize) -> (out: Vec<u64>)
    requires
        from + count * 8 <= data.len(),
    ensures
        out@.len() == count,
        forall|i: int| 0 <= i < count ==> out@[i] == be_u64(data@, from + i * 8),
{
    let mut out: Vec<u64> = Vec::with_capacity(count);
    let mut i: usize = 0;
    while i < count
        invariant
            i <= count,
            from + count * 8 <= data.len(),
            out@.len() == i,
            forall|j: int| 0 <= j < i ==> out@[j] == be_u64(data@, from + j * 8),
        decreases count - i,
    {
        out.push(read_u64(data, from + i * 8));
        i += 1;
    }
    out
}

fn parse_i64_array(count: usize, data: &[u8]) -> (out: Vec<i64>)
    requires
        count * 8 <= data.len(),
    ensures
        out@.len() == count,
        forall|i: int| 0 <= i < count ==> out@[i] == as_i64(be_u64(data@, i * 8)),
{
    let mut out: Vec<i64> = Vec::with_capacity(count);
    let mut i: usize = 0;
    while i < count
        invariant
            i <= count,
            count * 8 <= data.len(),
            out@.len() == i,
            forall|j: int| 0 <= j < i ==> out@[j] == as_i64(be_u64(data@, j * 8)),
        decreases count - i,
    {
        out.push(to_i64(read_u64(data, i * 8)));
        i += 1;
    }
    out
}

/// Decodes the `number_of_elements` elements of type `element_type` that
/// `data` starts with; `None` where `data` holds fewer.
pub fn parse_array_value(element_type: FieldType, number_of_elements: u32, data: &[u8]) -> (array:
    Option<ArrayValue>)
    ensures
        match array {
            Some(a) => a.element_type() == element_type && decode_array(
                element_type,
                number_of_elements as int,
                data@,
            ) == Some(a.deep_view()),
            None => decode_array(element_type, number_of_elements as int, data@) is None,
        },
{
    let size = element_type.size_in_bytes();
    let needed: u64 = if size == 1 {
        number_of_elements as u64
    } else if size == 2 {
        (number_of_elements as u64) * 2
    } else if size == 4 {
        (number_of_elements as u64) * 4
    } else {
        (number_of_elements as u64) * 8
    };
    assert(needed == number_of_elements * element_type.byte_size());
    if (data.len() as u64) < needed {
        return None;
    }
    let count = number_of_elements as usize;
    let array = match element_type {
        FieldType::Object => ArrayValue::Object(parse_u64_array(count, data, 0)),
        FieldType::Bool => ArrayValue::Bool(parse_bool_array(count, data)),
        FieldType::Char => ArrayValue::Char(parse_u16_array(count, data)),
        FieldType::Float => ArrayValue::Float(parse_u32_array(count, data)),
        FieldType::Double => ArrayValue::Double(parse_u64_array(count, data, 0)),
        FieldType::Byte => ArrayValue::Byte(parse_i8_array(count, data)),
        FieldType::Short => ArrayValue::Short(parse_i16_array(count, data)),
        FieldType::Int => ArrayValue::Int(parse_i32_array(count, data)),
        FieldType::Long => ArrayValue::Long(parse_i64_array(count, data)),
    };
    proof {
        let expected = decode_array(element_type, number_of_elements as int, data@);
        assert(expected is Some);
        assert(array.deep_view() =~= expected->0);
    }
    Some(array)
}

/// How far a decoder got on the bytes that it was given.
pub enum Parsed<T> {
    /// A whole value, and the number of bytes that it takes.
    Done { value: T, used: int },
    /// The bytes end before the value does.
    Incomplete,
    /// The byte at offset `at` should name a kind and names none.
    UnknownTag { tag: u8, at: int },
}

/// How far a decoder got on the bytes that it was given.
#[derive(Debug)]
pub enum Partial<T> {
    /// A whole value, and the number of bytes that it takes.
    Done(T, usize),
    /// The bytes end before the value does.
    Incomplete,
    /// The byte at the given offset should name a kind and names none.
    UnknownTag(u8, usize),
}

/// `items` put in front of what `rest` decoded.
pub open spec fn prepend<T>(items: Seq<T>, rest: Parsed<Seq<T>>) -> Parsed<Seq<T>> {
    match rest {
        Parsed::Done { value, used } => Parsed::Done { value: items + value, used },
        other => other,
    }
}

/// The `count` entries of a constant pool that start at `at`, and where they
/// end. An entry is an index of two bytes, a type byte and a value.
pub open spec fn decode_const_fields(w: Seq<u8>, at: int, count: int) -> Parsed<
    Seq<(ConstFieldInfo, FieldValue)>,
>
    decreases count,
{
    if count <= 0 {
        Parsed::Done { value: Seq::empty(), used: at }
    } else if w.len() < at + 3 {
        Parsed::Incomplete
    } else if !FieldType::is_code(w[at + 2] as int) {
        Parsed::UnknownTag { tag: w[at + 2], at: at + 2 }
    } else {
        let t = FieldType::of_code(w[at + 2] as int);
        if w.len() < at + 3 + t.byte_size() {
            Parsed::Incomplete
        } else {
            let info = ConstFieldInfo { const_pool_idx: be_u16(w, at), const_type: t };
            let item = (info, decode_field_value(t, w, at + 3));
            prepend(seq![item], decode_const_fields(w, at + 3 + t.byte_size(), count - 1))
        }
    }
}

/// The `count` static fields that start at `at`, and where they end. An
/// entry is the id of a name, a type byte and a value.
pub open spec fn decode_static_fields(w: Seq<u8>, at: int, count: int) -> Parsed<
    Seq<(FieldInfo, FieldValue)>,
>
    decreases count,
{
    if count <= 0 {
        Parsed::Done { value: Seq::empty(), used: at }
    } else if w.len() < at + 9 {
        Parsed::Incomplete
    } else if !FieldType::is_code(w[at + 8] as int) {
        Parsed::UnknownTag { tag: w[at + 8], at: at + 8 }
    } else {
        let t = FieldType::of_code(w[at + 8] as int);
        if w.len() < at + 9 + t.byte_size() {
            Parsed::Incomplete
        } else {
            let info = FieldInfo { name_id: be_u64(w, at), field_type: t };
            let item = (info, decode_field_value(t, w, at + 9));
            prepend(seq![item], decode_static_fields(w, at + 9 + t.byte_size(), count - 1))
        }
    }
}

/// The `count` instance-field descriptors that start at `at`, and where
/// they end. An entry is the id of a name and a type byte.
pub open spec fn decode_instance_fields(w: Seq<u8>, at: int, count: int) -> Parsed<Seq<FieldInfo>>
    decreases count,
{
    if count <= 0 {
        Parsed::Done { value: Seq::empty(), used: at }
    } else if w.len() < at + 9 {
        Parsed::Incomplete
    } else if !FieldType::is_code(w[at + 8] as int) {
        Parsed::UnknownTag { tag: w[at + 8], at: at + 8 }
    } else {
        let info = FieldInfo {
            name_id: be_u64(w, at),
            field_type: FieldType::of_code(w[at + 8] as int),
        };
        prepend(seq![info], decode_instance_fields(w, at + 9, count - 1))
    }
}

/// The number of bytes of a class dump that come before its constant pool:
/// the tag, the ids of the class, of its super class, of its loader, signers
/// and protection domain, two reserved ids, and the size of an instance.
pub const CLASS_DUMP_HEAD: usize = 65;

/// The class dump that `w` starts with: its head, then the constant pool,
/// the static fields and the instance fields, each a count of two bytes and
/// its entries.
pub open spec fn decode_class_dump(w: Seq<u8>) -> Parsed<ClassDumpFieldsView> {
    if w.len() < CLASS_DUMP_HEAD + 2 {
        Parsed::Incomplete
    } else {
        match decode_const_fields(w, CLASS_DUMP_HEAD + 2, be_u16(w, CLASS_DUMP_HEAD as int) as int) {
            Parsed::Done { value: const_fields, used: statics_at } => {
                if w.len() < statics_at + 2 {
                    Parsed::Incomplete
                } else {
                    match decode_static_fields(w, statics_at + 2, be_u16(w, statics_at) as int) {
                        Parsed::Done { value: static_fields, used: fields_at } => {
                            if w.len() < fields_at + 2 {
                                Parsed::Incomplete
                            } else {
                                match decode_instance_fields(
                                    w,
                                    fields_at + 2,
                                    be_u16(w, fields_at) as int,
                                ) {
                                    Parsed::Done { value: instance_fields, used } => Parsed::Done {
                                        value: ClassDumpFieldsView {
                                            class_object_id: be_u64(w, 1),
                                            stack_trace_serial_number: be_u32(w, 9),
                                            super_class_object_id: be_u64(w, 13),
                                            instance_size: be_u32(w, 61),
                                            const_fields,
                                            static_fields,
                                            instance_fields,
                                        },
                                        used,
                                    },
                                    Parsed::Incomplete => Parsed::Incomplete,
                                    Parsed::UnknownTag { tag, at } => Parsed::UnknownTag { tag, at },
                                }
                            }
                        },
                        Parsed::Incomplete => Parsed::Incomplete,
                        Parsed::UnknownTag { tag, at } => Parsed::UnknownTag { tag, at },
                    }
                }
            },
            Parsed::Incomplete => Parsed::Incomplete,
            Parsed::UnknownTag { tag, at } => Parsed::UnknownTag { tag, at },
        }
    }
}

/// The sub-record of a heap-dump segment that `w` starts with. Its first
/// byte names its kind, and the kind fixes its layout: a root is an id and
/// up to two 32-bit numbers; a dump of an instance or of an array is a head
/// and a payload whose length the head gives.
pub open spec fn decode_gc_record(w: Seq<u8>) -> Parsed<GcRecordView> {
    if w.len() < 1 {
        Parsed::Incomplete
    } else {
        let tag = w[0];
        if tag == TAG_GC_ROOT_UNKNOWN {
            if w.len() < 9 {
                Parsed::Incomplete
            } else {
                Parsed::Done { value: GcRecordView::RootUnknown { object_id: be_u64(w, 1) }, used: 9 }
            }
        } else if tag == TAG_GC_ROOT_JNI_GLOBAL {
            if w.len() < 17 {
                Parsed::Incomplete
            } else {
                Parsed::Done {
                    value: GcRecordView::RootJniGlobal {
                        object_id: be_u64(w, 1),
                        jni_global_ref_id: be_u64(w, 9),
                    },
                    used: 17,
                }
            }
        } else if tag == TAG_GC_ROOT_JNI_LOCAL {
            if w.len() < 17 {
                Parsed::Incomplete
            } else {
                Parsed::Done {
                    value: GcRecordView::RootJniLocal {
                        object_id: be_u64(w, 1),
                        thread_serial_number: be_u32(w, 9),
                        frame_number_in_stack_trace: be_u32(w, 13),
                    },
                    used: 17,
                }
            }
        } else if tag == TAG_GC_ROOT_JAVA_FRAME {
            if w.len() < 17 {
                Parsed::Incomplete
            } else {
                Parsed::Done {
                    value: GcRecordView::RootJavaFrame {
                        object_id: be_u64(w, 1),
                        thread_serial_number: be_u32(w, 9),
                        frame_number_in_stack_trace: be_u32(w, 13),
                    },
                    used: 17,
                }
            }
        } else if tag == TAG_GC_ROOT_NATIVE_STACK {
            if w.len() < 13 {
                Parsed::Incomplete
            } else {
                Parsed::Done {
                    value: GcRecordView::RootNativeStack {
                        object_id: be_u64(w, 1),
                        thread_serial_number: be_u32(w, 9),
                    },
                    used: 13,
                }
            }
        } else if tag == TAG_GC_ROOT_STICKY_CLASS {
            if w.len() < 9 {
                Parsed::Incomplete
            } else {
                Parsed::Done {
                    value: GcRecordView::RootStickyClass { object_id: be_u64(w, 1) },
                    used: 9,
                }
            }
        } else if tag == TAG_GC_ROOT_THREAD_BLOCK {
            if w.len() < 13 {
                Parsed::Incomplete
            } else {
                Parsed::Done {
                    value: GcRecordView::RootThreadBlock {
                        object_id: be_u64(w, 1),
                        thread_serial_number: be_u32(w, 9),
                    },
                    used: 13,
                }
            }
        } else if tag == TAG_GC_ROOT_MONITOR_USED {
            if w.len() < 9 {
                Parsed::Incomplete
            } else {
                Parsed::Done {
                    value: GcRecordView::RootMonitorUsed { object_id: be_u64(w, 1) },
                    used: 9,
                }
            }
        } else if tag == TAG_GC_ROOT_THREAD_OBJ {
            if w.len() < 17 {
                Parsed::Incomplete
            } else {
                Parsed::Done {
                    value: GcRecordView::RootThreadObject {
                        thread_object_id: be_u64(w, 1),
                        thread_sequence_number: be_u32(w, 9),
                        stack_sequence_number: be_u32(w, 13),
                    },
                    used: 17,
                }
            }
        } else if tag == TAG_GC_CLASS_DUMP {
            match decode_class_dump(w) {
                Parsed::Done { value, used } => Parsed::Done {
                    value: GcRecordView::ClassDump(value),
                    used,
                },
                Parsed::Incomplete => Parsed::Incomplete,
                Parsed::UnknownTag { tag, at } => Parsed::UnknownTag { tag, at },
            }
        } else if tag == TAG_GC_INSTANCE_DUMP {
            if w.len() < 25 || w.len() < 25 + be_u32(w, 21) {
                Parsed::Incomplete
            } else {
                let data_size = be_u32(w, 21);
                Parsed::Done {
                    value: GcRecordView::InstanceDump {
                        object_id: be_u64(w, 1),
                        stack_trace_serial_number: be_u32(w, 9),
                        class_object_id: be_u64(w, 13),
                        data_size,
                        bytes_ref: w.subrange(25, 25 + data_size),
                    },
                    used: 25 + data_size,
                }
            }
        } else if tag == TAG_GC_OBJ_ARRAY_DUMP {
            if w.len() < 25 || w.len() < 25 + be_u32(w, 13) * 8 {
                Parsed::Incomplete
            } else {
                let number_of_elements = be_u32(w, 13);
                Parsed::Done {
                    value: GcRecordView::ObjectArrayDump {
                        object_id: be_u64(w, 1),
                        stack_trace_serial_number: be_u32(w, 9),
                        number_of_elements,
                        array_class_id: be_u64(w, 17),
                        bytes_ref: w.subrange(25, 25 + number_of_elements * 8),
                    },
                    used: 25 + number_of_elements * 8,
                }
            }
        } else if tag == TAG_GC_PRIM_ARRAY_DUMP {
            if w.len() < 18 {
                Parsed::Incomplete
            } else if !FieldType::is_code(w[17] as int) {
                Parsed::UnknownTag { tag: w[17], at: 17 }
            } else {
                let number_of_elements = be_u32(w, 13);
                let element_type = FieldType::of_code(w[17] as int);
                let end = 18 + number_of_elements * element_type.byte_size();
                if w.len() < end {
                    Parsed::Incomplete
                } else {
                    Parsed::Done {
                        value: GcRecordView::PrimitiveArrayDump {
                            object_id: be_u64(w, 1),
                            stack_trace_serial_number: be_u32(w, 9),
                            number_of_elements,
                            element_type,
                            bytes_ref: w.subrange(18, end),
                        },
                        used: end,
                    }
                }
            }
        } else {
            Parsed::UnknownTag { tag, at: 0 }
        }
    }
}

impl<T: DeepView> Partial<T> {
    /// Whether this is the outcome `p`, with the value taken by its view.
    pub open spec fn agrees(self, p: Parsed<T::V>) -> bool {
        match self {
            Partial::Done(value, used) => p == (Parsed::Done {
                value: value.deep_view(),
                used: used as int,
            }),
            Partial::Incomplete => p is Incomplete,
            Partial::UnknownTag(tag, at) => p == (Parsed::<T::V>::UnknownTag { tag, at: at as int }),
        }
    }
}

fn parse_const_fields(data: &[u8], from: usize, count: u16) -> (r: Partial<
    Vec<(ConstFieldInfo, FieldValue)>,
>)
    requires
        from <= data.len(),
    ensures
        match r {
            Partial::Done(fields, end) => end <= data.len() && decode_const_fields(
                data@,
                from as int,
                count as int,
            ) == (Parsed::Done { value: fields@, used: end as int }),
            Partial::Incomplete => decode_const_fields(data@, from as int, count as int)
                is Incomplete,
            Partial::UnknownTag(tag, at) => decode_const_fields(data@, from as int, count as int)
                == (Parsed::<Seq<(ConstFieldInfo, FieldValue)>>::UnknownTag { tag, at: at as int }),
        },
{
    let mut fields: Vec<(ConstFieldInfo, FieldValue)> = Vec::new();
    let mut at: usize = from;
    let mut i: u16 = 0;
    while i < count
        invariant
            i <= count,
            at <= data.len(),
            decode_const_fields(data@, from as int, count as int) == prepend(
                fields@,
                decode_const_fields(data@, at as int, count - i),
            ),
        decreases count - i,
    {
        if data.len() - at < 3 {
            return Partial::Incomplete;
        }
        let type_byte = read_u8(data, at + 2);
        match FieldType::from_byte(type_byte) {
            None => {
                return Partial::UnknownTag(type_byte, at + 2);
            },
            Some(const_type) => {
                let size = const_type.size_in_bytes();
                if data.len() - at - 3 < size {
                    return Partial::Incomplete;
                }
                let info = ConstFieldInfo { const_pool_idx: read_u16(data, at), const_type };
                let value = parse_field_value(const_type, data, at + 3);
                proof {
                    let rest = decode_const_fields(data@, at + 3 + size, count - i - 1);
                    assert(decode_const_fields(data@, at as int, count - i) == prepend(
                        seq![(info, value)],
                        rest,
                    ));
                    assert(fields@.push((info, value)) =~= fields@ + seq![(info, value)]);
                    if let Parsed::Done { value: tail, used } = rest {
                        assert(fields@ + (seq![(info, value)] + tail) =~= fields@.push((info, value))
                            + tail);
                    }
                }
                fields.push((info, value));
                at = at + 3 + size;
                i += 1;
            },
        }
    }
    assert(fields@ + Seq::<(ConstFieldInfo, FieldValue)>::empty() =~= fields@);
    Partial::Done(fields, at)
}

fn parse_static_fields(data: &[u8], from: usize, count: u16) -> (r: Partial<
    Vec<(FieldInfo, FieldValue)>,
>)
    requires
        from <= data.len(),
    ensures
        match r {
            Partial::Done(fields, end) => end <= data.len() && decode_static_fields(
                data@,
                from as int,
                count as int,
            ) == (Parsed::Done { value: fields@, used: end as int }),
            Partial::Incomplete => decode_static_fields(data@, from as int, count as int)
                is Incomplete,
            Partial::UnknownTag(tag, at) => decode_static_fields(data@, from as int, count as int)
                == (Parsed::<Seq<(FieldInfo, FieldValue)>>::UnknownTag { tag, at: at as int }),
        },
{
    let mut fields: Vec<(FieldInfo, FieldValue)> = Vec::new();
    let mut at: usize = from;
    let mut i: u16 = 0;
    while i < count
        invariant
            i <= count,
            at <= data.len(),
            decode_static_fields(data@, from as int, count as int) == prepend(
                fields@,
                decode_static_fields(data@, at as int, count - i),
            ),
        decreases count - i,
    {
        if data.len() - at < 9 {
            return Partial::Incomplete;
        }
        let type_byte = read_u8(data, at + 8);
        match FieldType::from_byte(type_byte) {
            None => {
                return Partial::UnknownTag(type_byte, at + 8);
            },
            Some(field_type) => {
                let size = field_type.size_in_bytes();
                if data.len() - at - 9 < size {
                    return Partial::Incomplete;
                }
                let info = FieldInfo { name_id: read_u64(data, at), field_type };
                let value = parse_field_value(field_type, data, at + 9);
                proof {
                    let rest = decode_static_fields(data@, at + 9 + size, count - i - 1);
                    assert(decode_static_fields(data@, at as int, count - i) == prepend(
                        seq![(info, value)],
                        rest,
                    ));
                    assert(fields@.push((info, value)) =~= fields@ + seq![(info, value)]);
                    if let Parsed::Done { value: tail, used } = rest {
                        assert(fields@ + (seq![(info, value)] + tail) =~= fields@.push((info, value))
                            + tail);
                    }
                }
                fields.push((info, value));
                at = at + 9 + size;
                i += 1;
            },
        }
    }
    assert(fields@ + Seq::<(FieldInfo, FieldValue)>::empty() =~= fields@);
    Partial::Done(fields, at)
}

fn parse_instance_fields(data: &[u8], from: usize, count: u16) -> (r: Partial<Vec<FieldInfo>>)
    requires
        from <= data.len(),
    ensures
        match r {
            Partial::Done(fields, end) => end <= data.len() && decode_instance_fields(
                data@,
                from as int,
                count as int,
            ) == (Parsed::Done { value: fields@, used: end as int }),
            Partial::Incomplete => decode_instance_fields(data@, from as int, count as int)
                is Incomplete,
            Partial::UnknownTag(tag, at) => decode_instance_fields(data@, from as int, count as int)
                == (Parsed::<Seq<FieldInfo>>::UnknownTag { tag, at: at as int }),
        },
{
    let mut fields: Vec<FieldInfo> = Vec::new();
    let mut at: usize = from;
    let mut i: u16 = 0;
    while i < count
        invariant
            i <= count,
            at <= data.len(),
            decode_instance_fields(data@, from as int, count as int) == prepend(
                fields@,
                decode_instance_fields(data@, at as int, count - i),
            ),
        decreases count - i,
    {
        if data.len() - at < 9 {
            return Partial::Incomplete;
        }
        let type_byte = read_u8(data, at + 8);
        match FieldType::from_byte(type_byte) {
            None => {
                return Partial::UnknownTag(type_byte, at + 8);
            },
            Some(field_type) => {
                let info = FieldInfo { name_id: read_u64(data, at), field_type };
                proof {
                    let rest = decode_instance_fields(data@, at + 9, count - i - 1);
                    assert(decode_instance_fields(data@, at as int, count - i) == prepend(
                        seq![info],
                        rest,
                    ));
                    assert(fields@.push(info) =~= fields@ + seq![info]);
                    if let Parsed::Done { value: tail, used } = rest {
                        assert(fields@ + (seq![info] + tail) =~= fields@.push(info) + tail);
                    }
                }
                fields.push(info);
                at = at + 9;
                i += 1;
            },
        }
    }
    assert(fields@ + Seq::<FieldInfo>::empty() =~= fields@);
    Partial::Done(fields, at)
}

/// Decodes the class dump that `data` starts with.
pub fn parse_class_dump(data: &[u8]) -> (r: Partial<ClassDumpFields>)
    ensures
        r.agrees(decode_class_dump(data@)),
        r matches Partial::Done(_, used) ==> used <= data.len(),
{
    if data.len() < CLASS_DUMP_HEAD + 2 {
        return Partial::Incomplete;
    }
    let class_object_id = read_u64(data, 1);
    let stack_trace_serial_number = read_u32(data, 9);
    let super_class_object_id = read_u64(data, 13);
    let instance_size = read_u32(data, 61);
    let const_count = read_u16(data, CLASS_DUMP_HEAD);
    let (const_fields, statics_at) = match parse_const_fields(data, CLASS_DUMP_HEAD + 2, const_count) {
        Partial::Done(fields, end) => (fields, end),
        Partial::Incomplete => {
            return Partial::Incomplete;
        },
        Partial::UnknownTag(tag, at) => {
            return Partial::UnknownTag(tag, at);
        },
    };
    if data.len() - statics_at < 2 {
        return Partial::Incomplete;
    }
    let static_count = read_u16(data, statics_at);
    let (static_fields, fields_at) = match parse_static_fields(data, statics_at + 2, static_count) {
        Partial::Done(fields, end) => (fields, end),
        Partial::Incomplete => {
            return Partial::Incomplete;
        },
        Partial::UnknownTag(tag, at) => {
            return Partial::UnknownTag(tag, at);
        },
    };
    if data.len() - fields_at < 2 {
        return Partial::Incomplete;
    }
    let field_count = read_u16(data, fields_at);
    match parse_instance_fields(data, fields_at + 2, field_count) {
        Partial::Done(instance_fields, end) => Partial::Done(
            ClassDumpFields::new(
                class_object_id,
                stack_trace_serial_number,
                super_class_object_id,
                instance_size,
                const_fields,
                static_fields,
                instance_fields,
            ),
            end,
        ),
        Partial::Incomplete => Partial::Incomplete,
        Partial::UnknownTag(tag, at) => Partial::UnknownTag(tag, at),
    }
}

/// Decodes the sub-record of a heap-dump segment that `data` starts with.
pub fn parse_gc_record(data: &[u8]) -> (r: Partial<GcRecord>)
    ensures
        r.agrees(decode_gc_record(data@)),
        r matches Partial::Done(_, used) ==> 9 <= used <= data.len(),
{
    let len = data.len();
    if len < 1 {
        return Partial::Incomplete;
    }
    let tag = read_u8(data, 0);
    if tag == TAG_GC_ROOT_UNKNOWN {
        if len < 9 {
            return Partial::Incomplete;
        }
        Partial::Done(GcRecord::RootUnknown { object_id: read_u64(data, 1) }, 9)
    } else if tag == TAG_GC_ROOT_JNI_GLOBAL {
        if len < 17 {
            return Partial::Incomplete;
        }
        Partial::Done(
            GcRecord::RootJniGlobal {
                object_id: read_u64(data, 1),
                jni_global_ref_id: read_u64(data, 9),
            },
            17,
        )
    } else if tag == TAG_GC_ROOT_JNI_LOCAL {
        if len < 17 {
            return Partial::Incomplete;
        }
        Partial::Done(
            GcRecord::RootJniLocal {
                object_id: read_u64(data, 1),
                thread_serial_number: read_u32(data, 9),
                frame_number_in_stack_trace: read_u32(data, 13),
            },
            17,
        )
    } else if tag == TAG_GC_ROOT_JAVA_FRAME {
        if len < 17 {
            return Partial::Incomplete;
        }
        Partial::Done(
            GcRecord::RootJavaFrame {
                object_id: read_u64(data, 1),
                thread_serial_number: read_u32(data, 9),
                frame_number_in_stack_trace: read_u32(data, 13),
            },
            17,
        )
    } else if tag == TAG_GC_ROOT_NATIVE_STACK {
        if len < 13 {
            return Partial::Incomplete;
        }
        Partial::Done(
            GcRecord::RootNativeStack {
                object_id: read_u64(data, 1),
                thread_serial_number: read_u32(data, 9),
            },
            13,
        )
    } else if tag == TAG_GC_ROOT_STICKY_CLASS {
        if len < 9 {
            return Partial::Incomplete;
        }
        Partial::Done(GcRecord::RootStickyClass { object_id: read_u64(data, 1) }, 9)
    } else if tag == TAG_GC_ROOT_THREAD_BLOCK {
        if len < 13 {
            return Partial::Incomplete;
        }
        Partial::Done(
            GcRecord::RootThreadBlock {
                object_id: read_u64(data, 1),
                thread_serial_number: read_u32(data, 9),
            },
            13,
        )
    } else if tag == TAG_GC_ROOT_MONITOR_USED {
        if len < 9 {
            return Partial::Incomplete;
        }
        Partial::Done(GcRecord::RootMonitorUsed { object_id: read_u64(data, 1) }, 9)
    } else if tag == TAG_GC_ROOT_THREAD_OBJ {
        if len < 17 {
            return Partial::Incomplete;
        }
        Partial::Done(
            GcRecord::RootThreadObject {
                thread_object_id: read_u64(data, 1),
                thread_sequence_number: read_u32(data, 9),
                stack_sequence_number: read_u32(data, 13),
            },
            17,
        )
    } else if tag == TAG_GC_CLASS_DUMP {
        match parse_class_dump(data) {
            Partial::Done(fields, used) => {
                proof {
                    lemma_class_dump_length(data@);
                }
                Partial::Done(GcRecord::ClassDump(Box::new(fields)), used)
            },
            Partial::Incomplete => Partial::Incomplete,
            Partial::UnknownTag(tag, at) => Partial::UnknownTag(tag, at),
        }
    } else if tag == TAG_GC_INSTANCE_DUMP {
        if len < 25 {
            return Partial::Incomplete;
        }
        let data_size = read_u32(data, 21);
        if ((len - 25) as u64) < data_size as u64 {
            return Partial::Incomplete;
        }
        let end = 25 + data_size as usize;
        Partial::Done(
            GcRecord::InstanceDump {
                object_id: read_u64(data, 1),
                stack_trace_serial_number: read_u32(data, 9),
                class_object_id: read_u64(data, 13),
                data_size,
                bytes_ref: copy_bytes(data, 25, end),
            },
            end,
        )
    } else if tag == TAG_GC_OBJ_ARRAY_DUMP {
        if len < 25 {
            return Partial::Incomplete;
        }
        let number_of_elements = read_u32(data, 13);
        if ((len - 25) as u64) < (number_of_elements as u64) * 8 {
            return Partial::Incomplete;
        }
        let end = 25 + (number_of_elements as usize) * 8;
        Partial::Done(
            GcRecord::ObjectArrayDump {
                object_id: read_u64(data, 1),
                stack_trace_serial_number: read_u32(data, 9),
                number_of_elements,
                array_class_id: read_u64(data, 17),
                bytes_ref: copy_bytes(data, 25, end),
            },
            end,
        )
    } else if tag == TAG_GC_PRIM_ARRAY_DUMP {
        if len < 18 {
            return Partial::Incomplete;
        }
        let type_byte = read_u8(data, 17);
        match FieldType::from_byte(type_byte) {
            None => Partial::UnknownTag(type_byte, 17),
            Some(element_type) => {
                let number_of_elements = read_u32(data, 13);
                let size = element_type.size_in_bytes();
                let payload: u64 = if size == 1 {
                    number_of_elements as u64
                } else if size == 2 {
                    (number_of_elements as u64) * 2
                } else if size == 4 {
                    (number_of_elements as u64) * 4
                } else {
                    (number_of_elements as u64) * 8
                };
                assert(payload == number_of_elements * element_type.byte_size());
                if ((len - 18) as u64) < payload {
                    return Partial::Incomplete;
                }
                let end = 18 + payload as usize;
                Partial::Done(
                    GcRecord::PrimitiveArrayDump {
                        object_id: read_u64(data, 1),
                        stack_trace_serial_number: read_u32(data, 9),
                        number_of_elements,
                        element_type,
                        bytes_ref: copy_bytes(data, 18, end),
                    },
                    end,
                )
            },
        }
    } else {
        Partial::UnknownTag(tag, 0)
    }
}

/// A list of entries ends no earlier than it starts.
pub proof fn lemma_lists_advance(w: Seq<u8>, at: int, count: int)
    ensures
        decode_const_fields(w, at, count) matches Parsed::Done { value, used } ==> at <= used
            && value.len() == if count < 0 { 0 } else { count },
        decode_static_fields(w, at, count) matches Parsed::Done { value, used } ==> at <= used
            && value.len() == if count < 0 { 0 } else { count },
        decode_instance_fields(w, at, count) matches Parsed::Done { value, used } ==> at <= used
            && value.len() == if count < 0 { 0 } else { count },
    decreases count,
{
    if count > 0 {
        if w.len() >= at + 3 && FieldType::is_code(w[at + 2] as int) {
            let t = FieldType::of_code(w[at + 2] as int);
            lemma_lists_advance(w, at + 3 + t.byte_size(), count - 1);
        }
        if w.len() >= at + 9 && FieldType::is_code(w[at + 8] as int) {
            let t = FieldType::of_code(w[at + 8] as int);
            lemma_lists_advance(w, at + 9 + t.byte_size(), count - 1);
            lemma_lists_advance(w, at + 9, count - 1);
        }
    }
}

/// A class dump takes at least its head and its three counts.
pub proof fn lemma_class_dump_length(w: Seq<u8>)
    ensures
        decode_class_dump(w) matches Parsed::Done { value, used } ==> CLASS_DUMP_HEAD + 6 <= used,
{
    if w.len() >= CLASS_DUMP_HEAD + 2 {
        let const_count = be_u16(w, CLASS_DUMP_HEAD as int) as int;
        lemma_lists_advance(w, CLASS_DUMP_HEAD + 2, const_count);
        if let Parsed::Done { value, used: statics_at } = decode_const_fields(
            w,
            CLASS_DUMP_HEAD + 2,
            const_count,
        ) {
            if w.len() >= statics_at + 2 {
                lemma_lists_advance(w, statics_at + 2, be_u16(w, statics_at) as int);
                if let Parsed::Done { value, used: fields_at } = decode_static_fields(
                    w,
                    statics_at + 2,
                    be_u16(w, statics_at) as int,
                ) {
                    if w.len() >= fields_at + 2 {
                        lemma_lists_advance(w, fields_at + 2, be_u16(w, fields_at) as int);
                    }
                }
            }
        }
    }
}

/// Whether `tag` names a kind of top-level record.
pub open spec fn is_record_tag(tag: u8) -> bool {
    ||| tag == TAG_STRING
    ||| tag == TAG_LOAD_CLASS
    ||| tag == TAG_UNLOAD_CLASS
    ||| tag == TAG_STACK_FRAME
    ||| tag == TAG_STACK_TRACE
    ||| tag == TAG_ALLOC_SITES
    ||| tag == TAG_HEAP_SUMMARY
    ||| tag == TAG_START_THREAD
    ||| tag == TAG_END_THREAD
    ||| tag == TAG_HEAP_DUMP
    ||| tag == TAG_CPU_SAMPLES
    ||| tag == TAG_CONTROL_SETTING
    ||| tag == TAG_HEAP_DUMP_SEGMENT
    ||| tag == TAG_HEAP_DUMP_END
}

/// Whether `tag` opens a heap-dump segment, whose body is a run of
/// sub-records.
pub open spec fn is_heap_dump_tag(tag: u8) -> bool {
    tag == TAG_HEAP_DUMP || tag == TAG_HEAP_DUMP_SEGMENT
}

/// Whether `tag` names a kind of top-level record.
pub fn record_tag_known(tag: u8) -> (known: bool)
    ensures
        known == is_record_tag(tag),
{
    tag == TAG_STRING || tag == TAG_LOAD_CLASS || tag == TAG_UNLOAD_CLASS || tag == TAG_STACK_FRAME
        || tag == TAG_STACK_TRACE || tag == TAG_ALLOC_SITES || tag == TAG_HEAP_SUMMARY || tag
        == TAG_START_THREAD || tag == TAG_END_THREAD || tag == TAG_HEAP_DUMP || tag
        == TAG_CPU_SAMPLES || tag == TAG_CONTROL_SETTING || tag == TAG_HEAP_DUMP_SEGMENT || tag
        == TAG_HEAP_DUMP_END
}

/// The line of an allocation-sites record that starts at `at`.
pub open spec fn allocation_site_at(body: Seq<u8>, at: int) -> AllocationSite {
    AllocationSite {
        is_array: body[at],
        class_serial_number: be_u32(body, at + 1),
        stack_trace_serial_number: be_u32(body, at + 5),
        bytes_alive: be_u32(body, at + 9),
        instances_alive: be_u32(body, at + 13),
        bytes_allocated: be_u32(body, at + 17),
        instances_allocated: be_u32(body, at + 21),
    }
}

/// The line of a CPU-samples record that starts at `at`.
pub open spec fn cpu_sample_at(body: Seq<u8>, at: int) -> CpuSample {
    CpuSample { number_of_samples: be_u32(body, at), stack_trace_serial_number: be_u32(body, at + 4) }
}

/// The record of kind `tag` whose body is `body`, where the length of the
/// body is one that the layout of the kind allows. The body of a string is
/// an id and the bytes of the string; a list is a count and as many entries
/// of one size; every other body has one fixed length.
pub open spec fn decode_record_body(tag: u8, body: Seq<u8>) -> Option<RecordView> {
    if tag == TAG_STRING {
        if body.len() < 8 {
            None
        } else {
            Some(RecordView::Utf8String { id: be_u64(body, 0), bytes: body.skip(8) })
        }
    } else if tag == TAG_LOAD_CLASS {
        if body.len() != 24 {
            None
        } else {
            Some(
                RecordView::LoadClass(
                    LoadClassData {
                        serial_number: be_u32(body, 0),
                        class_object_id: be_u64(body, 4),
                        stack_trace_serial_number: be_u32(body, 12),
                        class_name_id: be_u64(body, 16),
                    },
                ),
            )
        }
    } else if tag == TAG_UNLOAD_CLASS {
        if body.len() != 4 {
            None
        } else {
            Some(RecordView::UnloadClass { serial_number: be_u32(body, 0) })
        }
    } else if tag == TAG_STACK_FRAME {
        if body.len() != 40 {
            None
        } else {
            Some(
                RecordView::StackFrame(
                    StackFrameData {
                        stack_frame_id: be_u64(body, 0),
                        method_name_id: be_u64(body, 8),
                        method_signature_id: be_u64(body, 16),
                        source_file_name_id: be_u64(body, 24),
                        class_serial_number: be_u32(body, 32),
                        line_number: as_i32(be_u32(body, 36)),
                    },
                ),
            )
        }
    } else if tag == TAG_STACK_TRACE {
        if body.len() < 12 || body.len() != 12 + 8 * be_u32(body, 8) {
            None
        } else {
            let number_of_frames = be_u32(body, 8);
            Some(
                RecordView::StackTrace(
                    StackTraceDataView {
                        serial_number: be_u32(body, 0),
                        thread_serial_number: be_u32(body, 4),
                        number_of_frames,
                        stack_frame_ids: Seq::new(
                            number_of_frames as nat,
                            |i: int| be_u64(body, 12 + i * 8),
                        ),
                    },
                ),
            )
        }
    } else if tag == TAG_ALLOC_SITES {
        if body.len() < 34 || body.len() != 34 + 25 * be_u32(body, 30) {
            None
        } else {
            let number_of_sites = be_u32(body, 30);
            Some(
                RecordView::AllocationSites {
                    flags: be_u16(body, 0),
                    cutoff_ratio: be_u32(body, 2),
                    total_live_bytes: be_u32(body, 6),
                    total_live_instances: be_u32(body, 10),
                    total_bytes_allocated: be_u64(body, 14),
                    total_instances_allocated: be_u64(body, 22),
                    number_of_sites,
                    allocation_sites: Seq::new(
                        number_of_sites as nat,
                        |i: int| allocation_site_at(body, 34 + i * 25),
                    ),
                },
            )
        }
    } else if tag == TAG_HEAP_SUMMARY {
        if body.len() != 24 {
            None
        } else {
            Some(
                RecordView::HeapSummary {
                    total_live_bytes: be_u32(body, 0),
                    total_live_instances: be_u32(body, 4),
                    total_bytes_allocated: be_u64(body, 8),
                    total_instances_allocated: be_u64(body, 16),
                },
            )
        }
    } else if tag == TAG_START_THREAD {
        if body.len() != 40 {
            None
        } else {
            Some(
                RecordView::StartThread {
                    thread_serial_number: be_u32(body, 0),
                    thread_object_id: be_u64(body, 4),
                    stack_trace_serial_number: be_u32(body, 12),
                    thread_name_id: be_u64(body, 16),
                    thread_group_name_id: be_u64(body, 24),
                    thread_group_parent_name_id: be_u64(body, 32),
                },
            )
        }
    } else if tag == TAG_END_THREAD {
        if body.len() != 4 {
            None
        } else {
            Some(RecordView::EndThread { thread_serial_number: be_u32(body, 0) })
        }
    } else if tag == TAG_CPU_SAMPLES {
        if body.len() < 8 || body.len() != 8 + 8 * be_u32(body, 4) {
            None
        } else {
            let number_of_traces = be_u32(body, 4);
            Some(
                RecordView::CpuSamples {
                    total_number_of_samples: be_u32(body, 0),
                    number_of_traces,
                    cpu_samples: Seq::new(
                        number_of_traces as nat,
                        |i: int| cpu_sample_at(body, 8 + i * 8),
                    ),
                },
            )
        }
    } else if tag == TAG_CONTROL_SETTING {
        if body.len() != 6 {
            None
        } else {
            Some(
                RecordView::ControlSettings {
                    flags: be_u32(body, 0),
                    stack_trace_depth: be_u16(body, 4),
                },
            )
        }
    } else if tag == TAG_HEAP_DUMP_END {
        if body.len() != 0 {
            None
        } else {
            Some(RecordView::HeapDumpEnd { length: 0 })
        }
    } else {
        None
    }
}

fn parse_allocation_sites(count: usize, body: &[u8]) -> (out: Vec<AllocationSite>)
    requires
        34 + count * 25 <= body.len(),
    ensures
        out@ == Seq::new(count as nat, |i: int| allocation_site_at(body@, 34 + i * 25)),
{
    let mut out: Vec<AllocationSite> = Vec::with_capacity(count);
    let mut i: usize = 0;
    while i < count
        invariant
            i <= count,
            34 + count * 25 <= body.len(),
            out@.len() == i,
            forall|j: int| 0 <= j < i ==> out@[j] == allocation_site_at(body@, 34 + j * 25),
        decreases count - i,
    {
        let at = 34 + i * 25;
        out.push(
            AllocationSite {
                is_array: read_u8(body, at),
                class_serial_number: read_u32(body, at + 1),
                stack_trace_serial_number: read_u32(body, at + 5),
                bytes_alive: read_u32(body, at + 9),
                instances_alive: read_u32(body, at + 13),
                bytes_allocated: read_u32(body, at + 17),
                instances_allocated: read_u32(body, at + 21),
            },
        );
        i += 1;
    }
    assert(out@ =~= Seq::new(count as nat, |i: int| allocation_site_at(body@, 34 + i * 25)));
    out
}

fn parse_cpu_samples(count: usize, body: &[u8]) -> (out: Vec<CpuSample>)
    requires
        8 + count * 8 <= body.len(),
    ensures
        out@ == Seq::new(count as nat, |i: int| cpu_sample_at(body@, 8 + i * 8)),
{
    let mut out: Vec<CpuSample> = Vec::with_capacity(count);
    let mut i: usize = 0;
    while i < count
        invariant
            i <= count,
            8 + count * 8 <= body.len(),
            out@.len() == i,
            forall|j: int| 0 <= j < i ==> out@[j] == cpu_sample_at(body@, 8 + j * 8),
        decreases count - i,
    {
        let at = 8 + i * 8;
        out.push(
            CpuSample {
                number_of_samples: read_u32(body, at),
                stack_trace_serial_number: read_u32(body, at + 4),
            },
        );
        i += 1;
    }
    assert(out@ =~= Seq::new(count as nat, |i: int| cpu_sample_at(body@, 8 + i * 8)));
    out
}

/// Decodes the body of a top-level record of kind `tag`; `None` where the
/// length of `body` is none that the layout of the kind allows.
pub fn parse_record_body(tag: u8, body: &[u8]) -> (record: Option<Record>)
    ensures
        record.deep_view() == decode_record_body(tag, body@),
{
    let len = body.len();
    if tag == TAG_STRING {
        if len < 8 {
            return None;
        }
        let bytes = copy_bytes(body, 8, len);
        assert(bytes@ =~= body@.skip(8));
        Some(Record::Utf8String { id: read_u64(body, 0), bytes })
    } else if tag == TAG_LOAD_CLASS {
        if len != 24 {
            return None;
        }
        Some(
            Record::LoadClass(
                LoadClassData {
                    serial_number: read_u32(body, 0),
                    class_object_id: read_u64(body, 4),
                    stack_trace_serial_number: read_u32(body, 12),
                    class_name_id: read_u64(body, 16),
                },
            ),
        )
    } else if tag == TAG_UNLOAD_CLASS {
        if len != 4 {
            return None;
        }
        Some(Record::UnloadClass { serial_number: read_u32(body, 0) })
    } else if tag == TAG_STACK_FRAME {
        if len != 40 {
            return None;
        }
        Some(
            Record::StackFrame(
                StackFrameData {
                    stack_frame_id: read_u64(body, 0),
                    method_name_id: read_u64(body, 8),
                    method_signature_id: read_u64(body, 16),
                    source_file_name_id: read_u64(body, 24),
                    class_serial_number: read_u32(body, 32),
                    line_number: to_i32(read_u32(body, 36)),
                },
            ),
        )
    } else if tag == TAG_STACK_TRACE {
        if len < 12 {
            return None;
        }
        let number_of_frames = read_u32(body, 8);
        if (len - 12) as u64 != (number_of_frames as u64) * 8 {
            return None;
        }
        let stack_frame_ids = parse_u64_array(number_of_frames as usize, body, 12);
        assert(stack_frame_ids@ =~= Seq::new(
            number_of_frames as nat,
            |i: int| be_u64(body@, 12 + i * 8),
        ));
        Some(
            Record::StackTrace(
                StackTraceData {
                    serial_number: read_u32(body, 0),
                    thread_serial_number: read_u32(body, 4),
                    number_of_frames,
                    stack_frame_ids,
                },
            ),
        )
    } else if tag == TAG_ALLOC_SITES {
        if len < 34 {
            return None;
        }
        let number_of_sites = read_u32(body, 30);
        if (len - 34) as u64 != (number_of_sites as u64) * 25 {
            return None;
        }
        Some(
            Record::AllocationSites {
                flags: read_u16(body, 0),
                cutoff_ratio: read_u32(body, 2),
                total_live_bytes: read_u32(body, 6),
                total_live_instances: read_u32(body, 10),
                total_bytes_allocated: read_u64(body, 14),
                total_instances_allocated: read_u64(body, 22),
                number_of_sites,
                allocation_sites: parse_allocation_sites(number_of_sites as usize, body),
            },
        )
    } else if tag == TAG_HEAP_SUMMARY {
        if len != 24 {
            return None;
        }
        Some(
            Record::HeapSummary {
                total_live_bytes: read_u32(body, 0),
                total_live_instances: read_u32(body, 4),
                total_bytes_allocated: read_u64(body, 8),
                total_instances_allocated: read_u64(body, 16),
            },
        )
    } else if tag == TAG_START_THREAD {
        if len != 40 {
            return None;
        }
        Some(
            Record::StartThread {
                thread_serial_number: read_u32(body, 0),
                thread_object_id: read_u64(body, 4),
                stack_trace_serial_number: read_u32(body, 12),
                thread_name_id: read_u64(body, 16),
                thread_group_name_id: read_u64(body, 24),
                thread_group_parent_name_id: read_u64(body, 32),
            },
        )
    } else if tag == TAG_END_THREAD {
        if len != 4 {
            return None;
        }
        Some(Record::EndThread { thread_serial_number: read_u32(body, 0) })
    } else if tag == TAG_CPU_SAMPLES {
        if len < 8 {
            return None;
        }
        let number_of_traces = read_u32(body, 4);
        if (len - 8) as u64 != (number_of_traces as u64) * 8 {
            return None;
        }
        Some(
            Record::CpuSamples {
                total_number_of_samples: read_u32(body, 0),
                number_of_traces,
                cpu_samples: parse_cpu_samples(number_of_traces as usize, body),
            },
        )
    } else if tag == TAG_CONTROL_SETTING {
        if len != 6 {
            return None;
        }
        Some(
            Record::ControlSettings {
                flags: read_u32(body, 0),
                stack_trace_depth: read_u16(body, 4),
            },
        )
    } else if tag == TAG_HEAP_DUMP_END {
        if len != 0 {
            return None;
        }
        Some(Record::HeapDumpEnd { length: 0 })
    } else {
        None
    }
}

/// A sub-record takes at least nine bytes of the bytes it is read from, and
/// no more than there are.
pub proof fn lemma_gc_record_length(w: Seq<u8>)
    ensures
        decode_gc_record(w) matches Parsed::Done { used, .. } ==> 9 <= used <= w.len(),
        decode_gc_record(w) matches Parsed::UnknownTag { at, .. } ==> 0 <= at < w.len(),
{
    if w.len() >= 1 && w[0] == TAG_GC_CLASS_DUMP {
        lemma_class_dump_length(w);
        lemma_class_dump_bounds(w);
    }
}

/// What a list of entries reads lies within the bytes.
pub proof fn lemma_lists_bounds(w: Seq<u8>, at: int, count: int)
    requires
        0 <= at <= w.len(),
    ensures
        decode_const_fields(w, at, count) matches Parsed::Done { used, .. } ==> used <= w.len(),
        decode_static_fields(w, at, count) matches Parsed::Done { used, .. } ==> used <= w.len(),
        decode_instance_fields(w, at, count) matches Parsed::Done { used, .. } ==> used <= w.len(),
        decode_const_fields(w, at, count) matches Parsed::UnknownTag { at: bad, .. } ==> 0 <= bad
            < w.len(),
        decode_static_fields(w, at, count) matches Parsed::UnknownTag { at: bad, .. } ==> 0 <= bad
            < w.len(),
        decode_instance_fields(w, at, count) matches Parsed::UnknownTag { at: bad, .. } ==> 0
            <= bad < w.len(),
    decreases count,
{
    if count > 0 {
        if w.len() >= at + 3 && FieldType::is_code(w[at + 2] as int) {
            let t = FieldType::of_code(w[at + 2] as int);
            if w.len() >= at + 3 + t.byte_size() {
                lemma_lists_bounds(w, at + 3 + t.byte_size(), count - 1);
            }
        }
        if w.len() >= at + 9 && FieldType::is_code(w[at + 8] as int) {
            let t = FieldType::of_code(w[at + 8] as int);
            if w.len() >= at + 9 + t.byte_size() {
                lemma_lists_bounds(w, at + 9 + t.byte_size(), count - 1);
            }
            lemma_lists_bounds(w, at + 9, count - 1);
        }
    }
}

/// What a class dump reads lies within the bytes.
pub proof fn lemma_class_dump_bounds(w: Seq<u8>)
    ensures
        decode_class_dump(w) matches Parsed::Done { used, .. } ==> used <= w.len(),
        decode_class_dump(w) matches Parsed::UnknownTag { at, .. } ==> 0 <= at < w.len(),
{
    if w.len() >= CLASS_DUMP_HEAD + 2 {
        let const_count = be_u16(w, CLASS_DUMP_HEAD as int) as int;
        lemma_lists_bounds(w, CLASS_DUMP_HEAD + 2, const_count);
        if let Parsed::Done { value, used: statics_at } = decode_const_fields(
            w,
            CLASS_DUMP_HEAD + 2,
            const_count,
        ) {
            if w.len() >= statics_at + 2 {
                lemma_lists_advance(w, CLASS_DUMP_HEAD + 2, const_count);
                lemma_lists_bounds(w, statics_at + 2, be_u16(w, statics_at) as int);
                if let Parsed::Done { value, used: fields_at } = decode_static_fields(
                    w,
                    statics_at + 2,
                    be_u16(w, statics_at) as int,
                ) {
                    if w.len() >= fields_at + 2 {
                        lemma_lists_advance(w, statics_at + 2, be_u16(w, statics_at) as int);
                        lemma_lists_bounds(w, fields_at + 2, be_u16(w, fields_at) as int);
                    }
                }
            }
        }
    }
}

/// Bytes read within a prefix are the bytes of the whole.
pub proof fn lemma_prefix_reads(a: Seq<u8>, b: Seq<u8>)
    requires
        a.is_prefix_of(b),
    ensures
        forall|i: int| 0 <= i < a.len() ==> a[i] == #[trigger] b[i],
        forall|i: int| 0 <= i && i + 2 <= a.len() ==> be_u16(a, i) == #[trigger] be_u16(b, i),
        forall|i: int| 0 <= i && i + 4 <= a.len() ==> be_u32(a, i) == #[trigger] be_u32(b, i),
        forall|i: int| 0 <= i && i + 8 <= a.len() ==> be_u64(a, i) == #[trigger] be_u64(b, i),
        forall|t: FieldType, i: int|
            0 <= i && i + t.byte_size() <= a.len() ==> decode_field_value(t, a, i)
                == #[trigger] decode_field_value(t, b, i),
        forall|i: int, j: int|
            0 <= i <= j <= a.len() ==> a.subrange(i, j) == #[trigger] b.subrange(i, j),
{
    assert forall|i: int| 0 <= i < a.len() implies a[i] == #[trigger] b[i] by {
        assert(a[i] == b.subrange(0, a.len() as int)[i]);
    }
    assert forall|i: int, j: int| 0 <= i <= j <= a.len() implies a.subrange(i, j)
        == #[trigger] b.subrange(i, j) by {
        assert(a.subrange(i, j) =~= b.subrange(i, j));
    }
}

/// Where a list of entries can be read from a prefix of some bytes, or is
/// refused there, the same holds of the whole.
proof fn lemma_lists_stable(a: Seq<u8>, b: Seq<u8>, at: int, count: int)
    requires
        a.is_prefix_of(b),
        0 <= at,
    ensures
        !(decode_const_fields(a, at, count) is Incomplete) ==> decode_const_fields(b, at, count)
            == decode_const_fields(a, at, count),
        !(decode_static_fields(a, at, count) is Incomplete) ==> decode_static_fields(b, at, count)
            == decode_static_fields(a, at, count),
        !(decode_instance_fields(a, at, count) is Incomplete) ==> decode_instance_fields(
            b,
            at,
            count,
        ) == decode_instance_fields(a, at, count),
    decreases count,
{
    lemma_prefix_reads(a, b);
    if count > 0 {
        if a.len() >= at + 3 && FieldType::is_code(a[at + 2] as int) {
            let t = FieldType::of_code(a[at + 2] as int);
            if a.len() >= at + 3 + t.byte_size() {
                lemma_lists_stable(a, b, at + 3 + t.byte_size(), count - 1);
            }
        }
        if a.len() >= at + 9 && FieldType::is_code(a[at + 8] as int) {
            let t = FieldType::of_code(a[at + 8] as int);
            if a.len() >= at + 9 + t.byte_size() {
                lemma_lists_stable(a, b, at + 9 + t.byte_size(), count - 1);
            }
            lemma_lists_stable(a, b, at + 9, count - 1);
        }
    }
}

/// Where a class dump can be read from a prefix of some bytes, or is
/// refused there, the same holds of the whole.
proof fn lemma_class_dump_stable(a: Seq<u8>, b: Seq<u8>)
    requires
        a.is_prefix_of(b),
    ensures
        !(decode_class_dump(a) is Incomplete) ==> decode_class_dump(b) == decode_class_dump(a),
{
    lemma_prefix_reads(a, b);
    if a.len() >= CLASS_DUMP_HEAD + 2 {
        let const_count = be_u16(a, CLASS_DUMP_HEAD as int) as int;
        lemma_lists_stable(a, b, CLASS_DUMP_HEAD + 2, const_count);
        lemma_lists_bounds(a, CLASS_DUMP_HEAD + 2, const_count);
        lemma_lists_advance(a, CLASS_DUMP_HEAD + 2, const_count);
        if let Parsed::Done { value, used: statics_at } = decode_const_fields(
            a,
            CLASS_DUMP_HEAD + 2,
            const_count,
        ) {
            if a.len() >= statics_at + 2 {
                let static_count = be_u16(a, statics_at) as int;
                lemma_lists_stable(a, b, statics_at + 2, static_count);
                lemma_lists_bounds(a, statics_at + 2, static_count);
                lemma_lists_advance(a, statics_at + 2, static_count);
                if let Parsed::Done { value, used: fields_at } = decode_static_fields(
                    a,
                    statics_at + 2,
                    static_count,
                ) {
                    if a.len() >= fields_at + 2 {
                        lemma_lists_stable(a, b, fields_at + 2, be_u16(a, fields_at) as int);
                    }
                }
            }
        }
    }
}

/// Where a sub-record can be read from a prefix of some bytes, or is
/// refused there, more bytes change nothing: the same holds of the whole.
pub proof fn lemma_gc_record_stable(a: Seq<u8>, b: Seq<u8>)
    requires
        a.is_prefix_of(b),
    ensures
        !(decode_gc_record(a) is Incomplete) ==> decode_gc_record(b) == decode_gc_record(a),
{
    lemma_prefix_reads(a, b);
    if a.len() >= 1 {
        if a[0] == TAG_GC_CLASS_DUMP {
            lemma_class_dump_stable(a, b);
        }
    }
}

} // verus!
