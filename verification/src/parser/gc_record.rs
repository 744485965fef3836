//! The sub-records of heap-dump segments and the values that they hold.

use vstd::prelude::*;

verus! {

/// The type of a field or of an array element, as the file encodes it.
#[derive(Clone, Copy, Debug, PartialEq, Eq, Structural, Hash)]
pub enum FieldType {
    Object,
    Bool,
    Char,
    Float,
    Double,
    Byte,
    Short,
    Int,
    Long,
}

impl FieldType {
    /// The number that stands for this type in the file.
    pub open spec fn code(self) -> int {
        match self {
            FieldType::Object => 2,
            FieldType::Bool => 4,
            FieldType::Char => 5,
            FieldType::Float => 6,
            FieldType::Double => 7,
            FieldType::Byte => 8,
            FieldType::Short => 9,
            FieldType::Int => 10,
            FieldType::Long => 11,
        }
    }

    /// Whether `v` is the code of some field type.
    pub open spec fn is_code(v: int) -> bool {
        v == 2 || 4 <= v <= 11
    }

    /// The field type whose code is `v`.
    pub open spec fn of_code(v: int) -> FieldType
        recommends
            Self::is_code(v),
    {
        if v == 2 {
            FieldType::Object
        } else if v == 4 {
            FieldType::Bool
        } else if v == 5 {
            FieldType::Char
        } else if v == 6 {
            FieldType::Float
        } else if v == 7 {
            FieldType::Double
        } else if v == 8 {
            FieldType::Byte
        } else if v == 9 {
            FieldType::Short
        } else if v == 10 {
            FieldType::Int
        } else {
            FieldType::Long
        }
    }

    pub fn from_value(v: i8) -> (t: FieldType)
        requires
            Self::is_code(v as int),
        ensures
            t == Self::of_code(v as int),
            t.code() == v,
    {
        match v {
            2 => FieldType::Object,
            4 => FieldType::Bool,
            5 => FieldType::Char,
            6 => FieldType::Float,
            7 => FieldType::Double,
            8 => FieldType::Byte,
            9 => FieldType::Short,
            10 => FieldType::Int,
            _ => FieldType::Long,
        }
    }

    pub fn to_u64(&self) -> (v: u64)
        ensures
            v == self.code(),
    {
        match self {
            FieldType::Object => 2,
            FieldType::Bool => 4,
            FieldType::Char => 5,
            FieldType::Float => 6,
            FieldType::Double => 7,
            FieldType::Byte => 8,
            FieldType::Short => 9,
            FieldType::Int => 10,
            FieldType::Long => 11,
        }
    }
}

/// The number of bytes that an identifier takes in the file.
pub const ID_SIZE: usize = 8;

impl FieldType {
    /// The number of bytes that a value of this type takes in the file.
    pub open spec fn byte_size(self) -> int {
        match self {
            FieldType::Byte | FieldType::Bool => 1,
            FieldType::Char | FieldType::Short => 2,
            FieldType::Float | FieldType::Int => 4,
            FieldType::Double | FieldType::Long => 8,
            FieldType::Object => 8,
        }
    }

    /// The field type that the byte `v` stands for, if any.
    pub fn from_byte(v: u8) -> (t: Option<FieldType>)
        ensures
            t is Some <==> Self::is_code(v as int),
            t matches Some(ft) ==> ft == Self::of_code(v as int) && ft.code() == v,
    {
        if v == 2 {
            Some(FieldType::Object)
        } else if v == 4 {
            Some(FieldType::Bool)
        } else if v == 5 {
            Some(FieldType::Char)
        } else if v == 6 {
            Some(FieldType::Float)
        } else if v == 7 {
            Some(FieldType::Double)
        } else if v == 8 {
            Some(FieldType::Byte)
        } else if v == 9 {
            Some(FieldType::Short)
        } else if v == 10 {
            Some(FieldType::Int)
        } else if v == 11 {
            Some(FieldType::Long)
        } else {
            None
        }
    }

    /// The number of bytes that a value of this type takes in the file.
    pub fn size_in_bytes(&self) -> (n: usize)
        ensures
            n == self.byte_size(),
    {
        match self {
            FieldType::Byte | FieldType::Bool => 1,
            FieldType::Char | FieldType::Short => 2,
            FieldType::Float | FieldType::Int => 4,
            FieldType::Double | FieldType::Long => 8,
            FieldType::Object => ID_SIZE,
        }
    }
}

/// The code of a field type names the type: two types with one code are one type.
pub proof fn lemma_code_names_type(a: FieldType, b: FieldType)
    ensures
        FieldType::is_code(a.code()),
        FieldType::of_code(a.code()) == a,
        a.code() == b.code() ==> a == b,
{
}

/// The width of a primitive array element. An array of primitives holds no
/// object references, so `Object` is left out.
pub fn primitive_byte_size(field_type: &FieldType) -> (n: u64)
    requires
        *field_type != FieldType::Object,
    ensures
        n == field_type.byte_size(),
{
    match field_type {
        FieldType::Byte | FieldType::Bool => 1,
        FieldType::Char | FieldType::Short => 2,
        FieldType::Float | FieldType::Int => 4,
        _ => 8,
    }
}

/// An entry of a class's constant pool: its index and the type of its value.
#[derive(Debug, Clone, Copy, PartialEq, Eq)]
pub struct ConstFieldInfo {
    pub const_pool_idx: u16,
    pub const_type: FieldType,
}

/// A declared field: the id of its name and its type.
#[derive(Debug, Clone, Copy, PartialEq, Eq)]
pub struct FieldInfo {
    pub name_id: u64,
    pub field_type: FieldType,
}

/// One decoded value. `Float` and `Double` hold the IEEE-754 bit pattern
/// that the file stores.
#[derive(Debug, Clone, Copy, PartialEq, Eq)]
pub enum FieldValue {
    Bool(bool),
    Byte(i8),
    Char(u16),
    Short(i16),
    Int(i32),
    Long(i64),
    Float(u32),
    Double(u64),
    Object(u64),
}

impl FieldValue {
    /// The type that this value has.
    pub open spec fn field_type(self) -> FieldType {
        match self {
            FieldValue::Bool(_) => FieldType::Bool,
            FieldValue::Byte(_) => FieldType::Byte,
            FieldValue::Char(_) => FieldType::Char,
            FieldValue::Short(_) => FieldType::Short,
            FieldValue::Int(_) => FieldType::Int,
            FieldValue::Long(_) => FieldType::Long,
            FieldValue::Float(_) => FieldType::Float,
            FieldValue::Double(_) => FieldType::Double,
            FieldValue::Object(_) => FieldType::Object,
        }
    }
}

/// The decoded elements of one array, all of one type. `Float` and `Double`
/// hold bit patterns, as in [`FieldValue`].
#[derive(Debug, Clone, PartialEq, Eq)]
pub enum ArrayValue {
    Bool(Vec<bool>),
    Byte(Vec<i8>),
    Char(Vec<u16>),
    Short(Vec<i16>),
    Int(Vec<i32>),
    Long(Vec<i64>),
    Float(Vec<u32>),
    Double(Vec<u64>),
    Object(Vec<u64>),
}

impl DeepView for ArrayValue {
    type V = Seq<FieldValue>;

    /// The elements, each as the value it is.
    open spec fn deep_view(&self) -> Seq<FieldValue> {
        match *self {
            ArrayValue::Bool(v) => Seq::new(v@.len(), |i: int| FieldValue::Bool(v@[i])),
            ArrayValue::Byte(v) => Seq::new(v@.len(), |i: int| FieldValue::Byte(v@[i])),
            ArrayValue::Char(v) => Seq::new(v@.len(), |i: int| FieldValue::Char(v@[i])),
            ArrayValue::Short(v) => Seq::new(v@.len(), |i: int| FieldValue::Short(v@[i])),
            ArrayValue::Int(v) => Seq::new(v@.len(), |i: int| FieldValue::Int(v@[i])),
            ArrayValue::Long(v) => Seq::new(v@.len(), |i: int| FieldValue::Long(v@[i])),
            ArrayValue::Float(v) => Seq::new(v@.len(), |i: int| FieldValue::Float(v@[i])),
            ArrayValue::Double(v) => Seq::new(v@.len(), |i: int| FieldValue::Double(v@[i])),
            ArrayValue::Object(v) => Seq::new(v@.len(), |i: int| FieldValue::Object(v@[i])),
        }
    }
}

impl ArrayValue {
    /// The type of the elements.
    pub open spec fn element_type(&self) -> FieldType {
        match *self {
            ArrayValue::Bool(_) => FieldType::Bool,
            ArrayValue::Byte(_) => FieldType::Byte,
            ArrayValue::Char(_) => FieldType::Char,
            ArrayValue::Short(_) => FieldType::Short,
            ArrayValue::Int(_) => FieldType::Int,
            ArrayValue::Long(_) => FieldType::Long,
            ArrayValue::Float(_) => FieldType::Float,
            ArrayValue::Double(_) => FieldType::Double,
            ArrayValue::Object(_) => FieldType::Object,
        }
    }
}

/// What a field of an instance holds: one value, or the elements of an array.
#[derive(Debug, Clone, PartialEq, Eq)]
pub enum Values {
    Single(FieldValue),
    Array(ArrayValue),
}

/// What a [`Values`] holds, with an array as the sequence of its elements.
pub enum ValuesView {
    Single(FieldValue),
    Array(FieldType, Seq<FieldValue>),
}

impl DeepView for Values {
    type V = ValuesView;

    open spec fn deep_view(&self) -> ValuesView {
        match *self {
            Values::Single(v) => ValuesView::Single(v),
            Values::Array(a) => ValuesView::Array(a.element_type(), a.deep_view()),
        }
    }
}

/// The metadata of one class, as its class dump gives it. The instance
/// fields stand in declaration order, which is the order of their bytes in
/// an instance's body.
#[derive(Debug, Clone, PartialEq, Eq)]
pub struct ClassDumpFields {
    pub class_object_id: u64,
    pub stack_trace_serial_number: u32,
    pub super_class_object_id: u64,
    pub instance_size: u32,
    pub const_fields: Vec<(ConstFieldInfo, FieldValue)>,
    pub static_fields: Vec<(FieldInfo, FieldValue)>,
    pub instance_fields: Vec<FieldInfo>,
}

/// A [`ClassDumpFields`] with its three lists as sequences.
pub struct ClassDumpFieldsView {
    pub class_object_id: u64,
    pub stack_trace_serial_number: u32,
    pub super_class_object_id: u64,
    pub instance_size: u32,
    pub const_fields: Seq<(ConstFieldInfo, FieldValue)>,
    pub static_fields: Seq<(FieldInfo, FieldValue)>,
    pub instance_fields: Seq<FieldInfo>,
}

impl DeepView for ClassDumpFields {
    type V = ClassDumpFieldsView;

    open spec fn deep_view(&self) -> ClassDumpFieldsView {
        ClassDumpFieldsView {
            class_object_id: self.class_object_id,
            stack_trace_serial_number: self.stack_trace_serial_number,
            super_class_object_id: self.super_class_object_id,
            instance_size: self.instance_size,
            const_fields: self.const_fields@,
            static_fields: self.static_fields@,
            instance_fields: self.instance_fields@,
        }
    }
}

impl ClassDumpFields {
    pub fn new(
        class_object_id: u64,
        stack_trace_serial_number: u32,
        super_class_object_id: u64,
        instance_size: u32,
        const_fields: Vec<(ConstFieldInfo, FieldValue)>,
        static_fields: Vec<(FieldInfo, FieldValue)>,
        instance_fields: Vec<FieldInfo>,
    ) -> (fields: Self)
        ensures
            fields.deep_view() == (ClassDumpFieldsView {
                class_object_id,
                stack_trace_serial_number,
                super_class_object_id,
                instance_size,
                const_fields: const_fields@,
                static_fields: static_fields@,
                instance_fields: instance_fields@,
            }),
    {
        Self {
            class_object_id,
            stack_trace_serial_number,
            super_class_object_id,
            instance_size,
            const_fields,
            static_fields,
            instance_fields,
        }
    }
}

/// One sub-record of a heap-dump segment: a root, or a dump whose payload is
/// kept as raw bytes until the instances are materialized.
#[derive(Debug, Clone, PartialEq, Eq)]
pub enum GcRecord {
    RootUnknown { object_id: u64 },
    RootThreadObject {
        thread_object_id: u64,
        thread_sequence_number: u32,
        stack_sequence_number: u32,
    },
    RootJniGlobal { object_id: u64, jni_global_ref_id: u64 },
    RootJniLocal { object_id: u64, thread_serial_number: u32, frame_number_in_stack_trace: u32 },
    RootJavaFrame { object_id: u64, thread_serial_number: u32, frame_number_in_stack_trace: u32 },
    RootNativeStack { object_id: u64, thread_serial_number: u32 },
    RootStickyClass { object_id: u64 },
    RootThreadBlock { object_id: u64, thread_serial_number: u32 },
    RootMonitorUsed { object_id: u64 },
    InstanceDump {
        object_id: u64,
        stack_trace_serial_number: u32,
        class_object_id: u64,
        data_size: u32,
        bytes_ref: Vec<u8>,
    },
    ObjectArrayDump {
        object_id: u64,
        stack_trace_serial_number: u32,
        number_of_elements: u32,
        array_class_id: u64,
        bytes_ref: Vec<u8>,
    },
    PrimitiveArrayDump {
        object_id: u64,
        stack_trace_serial_number: u32,
        number_of_elements: u32,
        element_type: FieldType,
        bytes_ref: Vec<u8>,
    },
    ClassDump(Box<ClassDumpFields>),
}

/// A [`GcRecord`] with its payload as a sequence of bytes.
pub enum GcRecordView {
    RootUnknown { object_id: u64 },
    RootThreadObject {
        thread_object_id: u64,
        thread_sequence_number: u32,
        stack_sequence_number: u32,
    },
    RootJniGlobal { object_id: u64, jni_global_ref_id: u64 },
    RootJniLocal { object_id: u64, thread_serial_number: u32, frame_number_in_stack_trace: u32 },
    RootJavaFrame { object_id: u64, thread_serial_number: u32, frame_number_in_stack_trace: u32 },
    RootNativeStack { object_id: u64, thread_serial_number: u32 },
    RootStickyClass { object_id: u64 },
    RootThreadBlock { object_id: u64, thread_serial_number: u32 },
    RootMonitorUsed { object_id: u64 },
    InstanceDump {
        object_id: u64,
        stack_trace_serial_number: u32,
        class_object_id: u64,
        data_size: u32,
        bytes_ref: Seq<u8>,
    },
    ObjectArrayDump {
        object_id: u64,
        stack_trace_serial_number: u32,
        number_of_elements: u32,
        array_class_id: u64,
        bytes_ref: Seq<u8>,
    },
    PrimitiveArrayDump {
        object_id: u64,
        stack_trace_serial_number: u32,
        number_of_elements: u32,
        element_type: FieldType,
        bytes_ref: Seq<u8>,
    },
    ClassDump(ClassDumpFieldsView),
}

impl DeepView for GcRecord {
    type V = GcRecordView;

    open spec fn deep_view(&self) -> GcRecordView {
        match *self {
            GcRecord::RootUnknown { object_id } => GcRecordView::RootUnknown { object_id },
            GcRecord::RootThreadObject {
                thread_object_id,
                thread_sequence_number,
                stack_sequence_number,
            } => GcRecordView::RootThreadObject {
                thread_object_id,
                thread_sequence_number,
                stack_sequence_number,
            },
            GcRecord::RootJniGlobal { object_id, jni_global_ref_id } => GcRecordView::RootJniGlobal {
                object_id,
                jni_global_ref_id,
            },
            GcRecord::RootJniLocal {
                object_id,
                thread_serial_number,
                frame_number_in_stack_trace,
            } => GcRecordView::RootJniLocal {
                object_id,
                thread_serial_number,
                frame_number_in_stack_trace,
            },
            GcRecord::RootJavaFrame {
                object_id,
                thread_serial_number,
                frame_number_in_stack_trace,
            } => GcRecordView::RootJavaFrame {
                object_id,
                thread_serial_number,
                frame_number_in_stack_trace,
            },
            GcRecord::RootNativeStack { object_id, thread_serial_number } => {
                GcRecordView::RootNativeStack { object_id, thread_serial_number }
            },
            GcRecord::RootStickyClass { object_id } => GcRecordView::RootStickyClass { object_id },
            GcRecord::RootThreadBlock { object_id, thread_serial_number } => {
                GcRecordView::RootThreadBlock { object_id, thread_serial_number }
            },
            GcRecord::RootMonitorUsed { object_id } => GcRecordView::RootMonitorUsed { object_id },
            GcRecord::InstanceDump {
                object_id,
                stack_trace_serial_number,
                class_object_id,
                data_size,
                bytes_ref,
            } => GcRecordView::InstanceDump {
                object_id,
                stack_trace_serial_number,
                class_object_id,
                data_size,
                bytes_ref: bytes_ref@,
            },
            GcRecord::ObjectArrayDump {
                object_id,
                stack_trace_serial_number,
                number_of_elements,
                array_class_id,
                bytes_ref,
            } => GcRecordView::ObjectArrayDump {
                object_id,
                stack_trace_serial_number,
                number_of_elements,
                array_class_id,
                bytes_ref: bytes_ref@,
            },
            GcRecord::PrimitiveArrayDump {
                object_id,
                stack_trace_serial_number,
                number_of_elements,
                element_type,
                bytes_ref,
            } => GcRecordView::PrimitiveArrayDump {
                object_id,
                stack_trace_serial_number,
                number_of_elements,
                element_type,
                bytes_ref: bytes_ref@,
            },
            GcRecord::ClassDump(fields) => GcRecordView::ClassDump(fields.deep_view()),
        }
    }
}

} // verus!
