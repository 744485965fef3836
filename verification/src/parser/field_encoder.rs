//! The layout of field values, written: the inverse of their decoding.

use vstd::prelude::*;
use crate::parser::gc_record::{
    ArrayValue, ClassDumpFieldsView, FieldInfo, FieldType, FieldValue, Values, ValuesView,
};
use crate::parser::primitive_parsers::{
    be_u16, be_u32, be_u64, bits_i16, bits_i32, bits_i64, bits_i8, from_i16, from_i32, from_i64,
    from_i8, lemma_bits_signed, lemma_read_of_written, lemma_signed_bits, lemma_written_of_read,
    u16_be_bytes, u32_be_bytes, u64_be_bytes, write_u16, write_u32, write_u64,
};
use crate::parser::record_parser::decode_field_value;
use crate::slurp::{decode_fields, decode_instance_data, decode_super_fields};

verus! {

/// The bytes that hold the value `v` in the layout of the file: integers
/// most significant byte first, a boolean as one or zero, a float as its
/// bits.
pub open spec fn encode_field_value(v: FieldValue) -> Seq<u8> {
    match v {
        FieldValue::Bool(b) => seq![if b { 1u8 } else { 0u8 }],
        FieldValue::Byte(x) => seq![bits_i8(x)],
        FieldValue::Char(x) => u16_be_bytes(x),
        FieldValue::Short(x) => u16_be_bytes(bits_i16(x)),
        FieldValue::Int(x) => u32_be_bytes(bits_i32(x)),
        FieldValue::Long(x) => u64_be_bytes(bits_i64(x)),
        FieldValue::Float(x) => u32_be_bytes(x),
        FieldValue::Double(x) => u64_be_bytes(x),
        FieldValue::Object(x) => u64_be_bytes(x),
    }
}

/// The bytes that hold the values `values`, one behind the other.
pub open spec fn encode_all(values: Seq<FieldValue>) -> Seq<u8>
    decreases values.len(),
{
    if values.len() == 0 {
        Seq::empty()
    } else {
        encode_all(values.drop_last()) + encode_field_value(values.last())
    }
}

/// The bytes that hold what a field holds.
pub open spec fn encode_values(v: ValuesView) -> Seq<u8> {
    match v {
        ValuesView::Single(value) => encode_field_value(value),
        ValuesView::Array(_, elements) => encode_all(elements),
    }
}

/// The bytes that hold the fields `fields`, one behind the other; the ids
/// of their names are not part of them.
pub open spec fn encode_fields(fields: Seq<(u64, ValuesView)>) -> Seq<u8>
    decreases fields.len(),
{
    if fields.len() == 0 {
        Seq::empty()
    } else {
        encode_values(fields.first().1) + encode_fields(fields.drop_first())
    }
}

/// Appends the bytes that hold `value` to `out`.
pub fn write_field_value(out: &mut Vec<u8>, value: FieldValue)
    ensures
        final(out)@ == old(out)@ + encode_field_value(value),
{
    match value {
        FieldValue::Bool(b) => {
            out.push(if b { 1 } else { 0 });
            assert(out@ =~= old(out)@ + encode_field_value(value));
        },
        FieldValue::Byte(x) => {
            out.push(from_i8(x));
            assert(out@ =~= old(out)@ + encode_field_value(value));
        },
        FieldValue::Char(x) => write_u16(out, x),
        FieldValue::Short(x) => write_u16(out, from_i16(x)),
        FieldValue::Int(x) => write_u32(out, from_i32(x)),
        FieldValue::Long(x) => write_u64(out, from_i64(x)),
        FieldValue::Float(x) => write_u32(out, x),
        FieldValue::Double(x) => write_u64(out, x),
        FieldValue::Object(x) => write_u64(out, x),
    }
}

impl ArrayValue {
    /// The number of elements.
    pub fn len(&self) -> (n: usize)
        ensures
            n == self.deep_view().len(),
    {
        match self {
            ArrayValue::Bool(v) => v.len(),
            ArrayValue::Byte(v) => v.len(),
            ArrayValue::Char(v) => v.len(),
            ArrayValue::Short(v) => v.len(),
            ArrayValue::Int(v) => v.len(),
            ArrayValue::Long(v) => v.len(),
            ArrayValue::Float(v) => v.len(),
            ArrayValue::Double(v) => v.len(),
            ArrayValue::Object(v) => v.len(),
        }
    }

    /// The element at index `i`.
    pub fn get(&self, i: usize) -> (value: FieldValue)
        requires
            i < self.deep_view().len(),
        ensures
            value == self.deep_view()[i as int],
    {
        match self {
            ArrayValue::Bool(v) => FieldValue::Bool(v[i]),
            ArrayValue::Byte(v) => FieldValue::Byte(v[i]),
            ArrayValue::Char(v) => FieldValue::Char(v[i]),
            ArrayValue::Short(v) => FieldValue::Short(v[i]),
            ArrayValue::Int(v) => FieldValue::Int(v[i]),
            ArrayValue::Long(v) => FieldValue::Long(v[i]),
            ArrayValue::Float(v) => FieldValue::Float(v[i]),
            ArrayValue::Double(v) => FieldValue::Double(v[i]),
            ArrayValue::Object(v) => FieldValue::Object(v[i]),
        }
    }
}

/// Appends the bytes that hold what a field holds to `out`.
pub fn write_values(out: &mut Vec<u8>, values: &Values)
    ensures
        final(out)@ == old(out)@ + encode_values(values.deep_view()),
{
    match values {
        Values::Single(value) => write_field_value(out, *value),
        Values::Array(array) => {
            let n = array.len();
            let ghost elements = array.deep_view();
            let mut i: usize = 0;
            proof {
                assert(elements.take(0) =~= Seq::<FieldValue>::empty());
                assert(out@ =~= old(out)@ + encode_all(elements.take(0)));
            }
            while i < n
                invariant
                    i <= n,
                    n == elements.len(),
                    elements == array.deep_view(),
                    out@ == old(out)@ + encode_all(elements.take(i as int)),
                decreases n - i,
            {
                let ghost before = out@;
                write_field_value(out, array.get(i));
                proof {
                    let upto = elements.take(i + 1);
                    assert(upto.drop_last() =~= elements.take(i as int));
                    assert(upto.last() == elements[i as int]);
                    assert(out@ =~= old(out)@ + encode_all(upto));
                }
                i += 1;
            }
            proof {
                assert(elements.take(n as int) =~= elements);
            }
        },
    }
}

/// Encoding two runs of fields one behind the other is encoding them as
/// one.
pub proof fn lemma_encode_fields_append(a: Seq<(u64, ValuesView)>, b: Seq<(u64, ValuesView)>)
    ensures
        encode_fields(a + b) == encode_fields(a) + encode_fields(b),
    decreases a.len(),
{
    if a.len() == 0 {
        assert(a + b =~= b);
        assert(encode_fields(a) + encode_fields(b) =~= encode_fields(b));
    } else {
        assert((a + b).first() == a.first());
        assert((a + b).drop_first() =~= a.drop_first() + b);
        lemma_encode_fields_append(a.drop_first(), b);
        assert(encode_values(a.first().1) + (encode_fields(a.drop_first()) + encode_fields(b))
            =~= (encode_values(a.first().1) + encode_fields(a.drop_first())) + encode_fields(b));
    }
}

/// One field encodes to the bytes of what it holds.
pub proof fn lemma_encode_one_field(item: (u64, ValuesView))
    ensures
        encode_fields(seq![item]) == encode_values(item.1),
{
    let one = seq![item];
    assert(one.first() == item);
    assert(one.drop_first() =~= Seq::<(u64, ValuesView)>::empty());
    assert(encode_fields(one.drop_first()) =~= Seq::<u8>::empty());
    assert(encode_fields(one) =~= encode_values(item.1));
}

/// The fields `fields` in the layout of an instance's body: the bytes of
/// their values, one behind the other, in the order of the fields.
pub fn encode_instance_fields(fields: &Vec<(u64, Values)>) -> (out: Vec<u8>)
    ensures
        out@ == encode_fields(fields.deep_view()),
{
    let mut out: Vec<u8> = Vec::new();
    let ghost all = fields.deep_view();
    let mut i: usize = 0;
    proof {
        assert(all.take(0) =~= Seq::<(u64, ValuesView)>::empty());
    }
    while i < fields.len()
        invariant
            i <= fields.len(),
            all == fields.deep_view(),
            out@ == encode_fields(all.take(i as int)),
        decreases fields.len() - i,
    {
        proof {
            let item = all[i as int];
            assert(all.take(i + 1) =~= all.take(i as int) + seq![item]);
            lemma_encode_fields_append(all.take(i as int), seq![item]);
            lemma_encode_one_field(item);
        }
        write_values(&mut out, &fields[i].1);
        i += 1;
    }
    proof {
        assert(all.take(fields.len() as int) =~= all);
    }
    out
}

/// Decoding the bytes that hold a value gives the value back.
pub proof fn lemma_decode_of_encoded(v: FieldValue)
    ensures
        encode_field_value(v).len() == v.field_type().byte_size(),
        decode_field_value(v.field_type(), encode_field_value(v), 0) == v,
{
    match v {
        FieldValue::Bool(b) => {},
        FieldValue::Byte(x) => {
            lemma_bits_signed(x, 0, 0, 0);
        },
        FieldValue::Char(x) => {
            lemma_read_of_written(x, 0, 0);
        },
        FieldValue::Short(x) => {
            lemma_read_of_written(bits_i16(x), 0, 0);
            lemma_bits_signed(0, x, 0, 0);
        },
        FieldValue::Int(x) => {
            lemma_read_of_written(0, bits_i32(x), 0);
            lemma_bits_signed(0, 0, x, 0);
        },
        FieldValue::Long(x) => {
            lemma_read_of_written(0, 0, bits_i64(x));
            lemma_bits_signed(0, 0, 0, x);
        },
        FieldValue::Float(x) => {
            lemma_read_of_written(0, x, 0);
        },
        FieldValue::Double(x) => {
            lemma_read_of_written(0, 0, x);
        },
        FieldValue::Object(x) => {
            lemma_read_of_written(0, 0, x);
        },
    }
}

/// Encoding the value that some bytes hold gives the bytes back. A
/// boolean is an exception where its byte is neither zero nor one: every
/// such byte reads as true, and true is written as one.
pub proof fn lemma_encode_of_decoded(t: FieldType, s: Seq<u8>, at: int)
    requires
        0 <= at,
        at + t.byte_size() <= s.len(),
        t == FieldType::Bool ==> s[at] <= 1,
    ensures
        encode_field_value(decode_field_value(t, s, at)) == s.subrange(at, at + t.byte_size()),
{
    lemma_written_of_read(s, at);
    match t {
        FieldType::Bool => {
            assert(encode_field_value(decode_field_value(t, s, at)) =~= s.subrange(at, at + 1));
        },
        FieldType::Byte => {
            lemma_signed_bits(s[at], 0, 0, 0);
            assert(encode_field_value(decode_field_value(t, s, at)) =~= s.subrange(at, at + 1));
        },
        FieldType::Short => {
            lemma_signed_bits(0, be_u16(s, at), 0, 0);
        },
        FieldType::Int => {
            lemma_signed_bits(0, 0, be_u32(s, at), 0);
        },
        FieldType::Long => {
            lemma_signed_bits(0, 0, 0, be_u64(s, at));
        },
        _ => {},
    }
}

/// Whether every byte of `data` that one of the fields `fields`, laid out
/// from `at` on, reads as a boolean is zero or one.
pub open spec fn bools_are_bits(fields: Seq<FieldInfo>, data: Seq<u8>, at: int) -> bool
    decreases fields.len(),
{
    if fields.len() == 0 {
        true
    } else {
        let field = fields.first();
        &&& field.field_type == FieldType::Bool && 0 <= at < data.len() ==> data[at] <= 1
        &&& bools_are_bits(fields.drop_first(), data, at + field.field_type.byte_size())
    }
}

/// Whether every byte of `data` that a field of the classes above a
/// class reads as a boolean is zero or one; the classes are walked as
/// [`decode_super_fields`] walks them.
pub open spec fn super_bools_are_bits(
    classes: Map<u64, ClassDumpFieldsView>,
    super_id: u64,
    data: Seq<u8>,
    at: int,
    depth: nat,
) -> bool
    decreases depth,
{
    if super_id == 0 || !classes.contains_key(super_id) || depth == 0 {
        true
    } else {
        let class = classes[super_id];
        &&& bools_are_bits(class.instance_fields, data, at)
        &&& match decode_fields(class.instance_fields, data, at) {
            Some((_, end)) => super_bools_are_bits(
                classes,
                class.super_class_object_id,
                data,
                end,
                (depth - 1) as nat,
            ),
            None => true,
        }
    }
}

/// Whether every byte of the body `data` of an instance of `class` that
/// is read as a boolean is zero or one.
pub open spec fn instance_bools_are_bits(
    classes: Map<u64, ClassDumpFieldsView>,
    class: ClassDumpFieldsView,
    data: Seq<u8>,
) -> bool {
    &&& bools_are_bits(class.instance_fields, data, 0)
    &&& match decode_fields(class.instance_fields, data, 0) {
        Some((_, end)) => super_bools_are_bits(
            classes,
            class.super_class_object_id,
            data,
            end,
            classes.dom().len(),
        ),
        None => true,
    }
}

/// The fields that are decoded from a run of bytes encode to that run.
pub proof fn lemma_fields_round_trip(fields: Seq<FieldInfo>, data: Seq<u8>, at: int)
    requires
        0 <= at <= data.len(),
        decode_fields(fields, data, at) is Some,
        bools_are_bits(fields, data, at),
    ensures
        decode_fields(fields, data, at) matches Some((values, end)) && at <= end <= data.len()
            && encode_fields(values) == data.subrange(at, end),
    decreases fields.len(),
{
    if fields.len() == 0 {
        assert(encode_fields(Seq::<(u64, ValuesView)>::empty()) =~= data.subrange(at, at));
    } else {
        let field = fields.first();
        let size = field.field_type.byte_size();
        let tail = decode_fields(fields.drop_first(), data, at + size);
        assert(at + size <= data.len());
        assert(tail is Some);
        lemma_fields_round_trip(fields.drop_first(), data, at + size);
        let value = decode_field_value(field.field_type, data, at);
        assert(encode_field_value(value) == data.subrange(at, at + size)) by {
            lemma_encode_of_decoded(field.field_type, data, at);
        }
        let (rest, end) = tail->0;
        let item = (field.name_id, ValuesView::Single(value));
        let values = seq![item] + rest;
        assert(decode_fields(fields, data, at) == Some((values, end)));
        lemma_encode_one_field(item);
        lemma_encode_fields_append(seq![item], rest);
        assert(data.subrange(at, at + size) + data.subrange(at + size, end) =~= data.subrange(
            at,
            end,
        ));
    }
}

/// The fields of the classes above a class that are decoded from a run of
/// bytes encode to that run.
pub proof fn lemma_super_fields_round_trip(
    classes: Map<u64, ClassDumpFieldsView>,
    super_id: u64,
    data: Seq<u8>,
    at: int,
    depth: nat,
)
    requires
        0 <= at <= data.len(),
        decode_super_fields(classes, super_id, data, at, depth) is Some,
        super_bools_are_bits(classes, super_id, data, at, depth),
    ensures
        decode_super_fields(classes, super_id, data, at, depth) matches Some((values, end)) && at
            <= end <= data.len() && encode_fields(values) == data.subrange(at, end),
    decreases depth,
{
    if super_id == 0 || !classes.contains_key(super_id) {
        assert(encode_fields(Seq::<(u64, ValuesView)>::empty()) =~= data.subrange(at, at));
    } else {
        let class = classes[super_id];
        lemma_fields_round_trip(class.instance_fields, data, at);
        if let Some((fields, middle)) = decode_fields(class.instance_fields, data, at) {
            lemma_super_fields_round_trip(
                classes,
                class.super_class_object_id,
                data,
                middle,
                (depth - 1) as nat,
            );
            if let Some((more, end)) = decode_super_fields(
                classes,
                class.super_class_object_id,
                data,
                middle,
                (depth - 1) as nat,
            ) {
                lemma_encode_fields_append(fields, more);
                assert(data.subrange(at, middle) + data.subrange(middle, end) =~= data.subrange(
                    at,
                    end,
                ));
            }
        }
    }
}

/// The body of an instance, decoded by the fields of its class and of the
/// classes above it and encoded again, gives the bytes that were read: the
/// body from its first byte up to the end of its last field, and the whole
/// body where the fields fill it.
pub proof fn lemma_instance_round_trip(
    classes: Map<u64, ClassDumpFieldsView>,
    class: ClassDumpFieldsView,
    data: Seq<u8>,
)
    requires
        decode_instance_data(classes, class, data) is Some,
        instance_bools_are_bits(classes, class, data),
    ensures
        decode_instance_data(classes, class, data) matches Some((fields, super_fields)) && {
            let written = encode_fields(fields + super_fields);
            &&& written.len() <= data.len()
            &&& written == data.take(written.len() as int)
        },
{
    lemma_fields_round_trip(class.instance_fields, data, 0);
    if let Some((fields, middle)) = decode_fields(class.instance_fields, data, 0) {
        lemma_super_fields_round_trip(
            classes,
            class.super_class_object_id,
            data,
            middle,
            classes.dom().len(),
        );
        if let Some((super_fields, end)) = decode_super_fields(
            classes,
            class.super_class_object_id,
            data,
            middle,
            classes.dom().len(),
        ) {
            lemma_encode_fields_append(fields, super_fields);
            assert(data.subrange(0, middle) + data.subrange(middle, end) =~= data.take(end));
        }
    }
}

} // verus!
