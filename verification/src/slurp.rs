//! The way from the bytes of a dump to its heap: the header check, the
//! pipeline from chunks to records to the aggregate, and the pass that
//! decodes the instances.

use vstd::prelude::*;
use vstd::std_specs::hash::spec_hash_map_iter;
use vstd::std_specs::iter::IteratorSpec;
use std::collections::HashMap;
use crate::errors::{HprofSlurpError, HprofSlurpErrorView};
use crate::parser::file_header_parser::{
    decode_file_header, parse_file_header, FileHeader, FileHeaderView,
};
use std::sync::Arc;
use crate::parser::gc_record::{
    ClassDumpFields, ClassDumpFieldsView, FieldInfo, FieldType, GcRecord, GcRecordView, Values,
    ValuesView,
};
use crate::parser::record_parser::{
    decode_array, decode_field_value, parse_array_value, parse_field_value,
};
use crate::parser::record::{LoadClassData, Record};
use crate::parser::record_stream_parser::{
    after_records, drain, lemma_drain_append, lemma_drain_longer_file, lemma_drain_rest,
    lemma_trailing_byte, Drained, HprofRecordStreamParser,
};
use crate::prefetch_reader::PrefetchReader;
use crate::result_recorder::{
    can_record_all, gc_total, is_counted, lemma_can_record_append, lemma_can_record_prefix,
    lemma_counters_grow, lemma_record_all_append, lemma_room_for_records,
    lemma_tag_counters_count_records, record_all, tag_total, views_of, Instance, InstanceView,
    ResultRecorder, ResultRecorderView,
};
use crate::{Heap, HeapView};

verus! {

/// The exact size of the file header: a format string of eighteen
/// characters with the zero byte that ends it, four bytes of identifier
/// size and eight of timestamp.
pub const FILE_HEADER_LENGTH: usize = 31;

/// The number of bytes that are read from the file at a time.
pub const READ_BUFFER_SIZE: usize = 128 * 1024 * 1024;

/// What is said of a header block that cannot be decoded.
pub open spec fn header_cut_short() -> Seq<char> {
    "the file header is cut short"@
}

/// What is said of a dump with identifiers of four bytes.
pub open spec fn no_32_bits() -> Seq<char> {
    "32 bits heap dumps are not supported yet"@
}

/// The header that the block `block` holds, or why it is refused: it must
/// decode, declare identifiers of eight bytes, and fill the block.
pub open spec fn check_header(block: Seq<u8>) -> Result<FileHeaderView, HprofSlurpErrorView> {
    match decode_file_header(block) {
        None => Err(HprofSlurpErrorView::InvalidHprofFile { message: header_cut_short() }),
        Some((header, used)) => {
            if header.size_pointers != 4 && header.size_pointers != 8 {
                Err(HprofSlurpErrorView::InvalidIdSize)
            } else if header.size_pointers == 4 {
                Err(HprofSlurpErrorView::UnsupportedIdSize { message: no_32_bits() })
            } else if used != block.len() {
                Err(HprofSlurpErrorView::InvalidHeaderSize)
            } else {
                Ok(header)
            }
        },
    }
}

/// Decodes and checks the header block of a file.
pub fn slurp_header(header_buffer: &[u8]) -> (r: Result<FileHeader, HprofSlurpError>)
    ensures
        match r {
            Ok(header) => check_header(header_buffer@) == Ok::<
                FileHeaderView,
                HprofSlurpErrorView,
            >(header.deep_view()),
            Err(e) => check_header(header_buffer@) == Err::<FileHeaderView, HprofSlurpErrorView>(
                e.deep_view(),
            ),
        },
{
    let (header, used) = match parse_file_header(header_buffer) {
        Some(parsed) => parsed,
        None => {
            return Err(
                HprofSlurpError::InvalidHprofFile {
                    message: "the file header is cut short".to_string(),
                },
            );
        },
    };
    let id_size = header.size_pointers;
    if id_size != 4 && id_size != 8 {
        return Err(HprofSlurpError::InvalidIdSize);
    }
    if id_size == 4 {
        return Err(
            HprofSlurpError::UnsupportedIdSize {
                message: "32 bits heap dumps are not supported yet".to_string(),
            },
        );
    }
    if used != header_buffer.len() {
        return Err(HprofSlurpError::InvalidHeaderSize);
    }
    Ok(header)
}

/// The values of the fields `fields`, read one behind the other from
/// `data` at `at`, each under the id of its name, and the offset behind the
/// last; nothing where `data` ends before the fields do.
pub open spec fn decode_fields(fields: Seq<FieldInfo>, data: Seq<u8>, at: int) -> Option<
    (Seq<(u64, ValuesView)>, int),
>
    decreases fields.len(),
{
    if fields.len() == 0 {
        Some((Seq::empty(), at))
    } else {
        let field = fields.first();
        let size = field.field_type.byte_size();
        if data.len() < at + size {
            None
        } else {
            match decode_fields(fields.drop_first(), data, at + size) {
                None => None,
                Some((rest, end)) => Some(
                    (
                        seq![
                            (
                                field.name_id,
                                ValuesView::Single(decode_field_value(field.field_type, data, at)),
                            ),
                        ] + rest,
                        end,
                    ),
                ),
            }
        }
    }
}

/// `values` put in front of what `rest` decoded.
pub open spec fn values_then(
    values: Seq<(u64, ValuesView)>,
    rest: Option<(Seq<(u64, ValuesView)>, int)>,
) -> Option<(Seq<(u64, ValuesView)>, int)> {
    match rest {
        None => None,
        Some((more, end)) => Some((values + more, end)),
    }
}

/// The fields that the classes above a class declare, read from `data` at
/// `at`: those of the class `super_id`, then those of the class above it,
/// and so on up to a class that has no super class or whose super class is
/// not in `classes`. `depth` bounds the number of classes on the way: a way
/// of more classes than `classes` holds passes one class twice and has no
/// end.
pub open spec fn decode_super_fields(
    classes: Map<u64, ClassDumpFieldsView>,
    super_id: u64,
    data: Seq<u8>,
    at: int,
    depth: nat,
) -> Option<(Seq<(u64, ValuesView)>, int)>
    decreases depth,
{
    if super_id == 0 || !classes.contains_key(super_id) {
        Some((Seq::empty(), at))
    } else if depth == 0 {
        None
    } else {
        let class = classes[super_id];
        match decode_fields(class.instance_fields, data, at) {
            None => None,
            Some((fields, end)) => values_then(
                fields,
                decode_super_fields(
                    classes,
                    class.super_class_object_id,
                    data,
                    end,
                    (depth - 1) as nat,
                ),
            ),
        }
    }
}

/// The fields of an instance of `class` whose body is `data`: those that
/// `class` declares, in the order of their declaration, and apart from
/// them those of the classes above it, nearest first.
pub open spec fn decode_instance_data(
    classes: Map<u64, ClassDumpFieldsView>,
    class: ClassDumpFieldsView,
    data: Seq<u8>,
) -> Option<(Seq<(u64, ValuesView)>, Seq<(u64, ValuesView)>)> {
    match decode_fields(class.instance_fields, data, 0) {
        None => None,
        Some((fields, end)) => match decode_super_fields(
            classes,
            class.super_class_object_id,
            data,
            end,
            classes.dom().len(),
        ) {
            None => None,
            Some((super_fields, _)) => Some((fields, super_fields)),
        },
    }
}

/// Reads the values of `fields` from `data` at `at` and appends them to
/// `out`. Returns the offset behind the last, or `None` where `data` ends
/// too early; `out` then holds the values that could be read.
fn parse_fields(fields: &Vec<FieldInfo>, data: &[u8], at: usize, out: &mut Vec<(u64, Values)>) -> (end:
    Option<usize>)
    requires
        at <= data.len(),
    ensures
        match end {
            Some(end) => {
                &&& end <= data.len()
                &&& decode_fields(fields@, data@, at as int) matches Some((values, spec_end))
                &&& spec_end == end
                &&& final(out).deep_view() == old(out).deep_view() + values
            },
            None => decode_fields(fields@, data@, at as int) is None,
        },
{
    let mut i: usize = 0;
    let mut cursor: usize = at;
    let ghost mut read: Seq<(u64, ValuesView)> = Seq::empty();
    proof {
        assert(fields@.skip(0) =~= fields@);
        assert(old(out).deep_view() + read =~= old(out).deep_view());
    }
    while i < fields.len()
        invariant
            i <= fields.len(),
            cursor <= data.len(),
            out.deep_view() == old(out).deep_view() + read,
            decode_fields(fields@, data@, at as int) == values_then(
                read,
                decode_fields(fields@.skip(i as int), data@, cursor as int),
            ),
        decreases fields.len() - i,
    {
        let field = fields[i];
        let size = field.field_type.size_in_bytes();
        proof {
            assert(fields@.skip(i as int).first() == field);
            assert(fields@.skip(i as int).drop_first() =~= fields@.skip(i + 1));
        }
        if data.len() - cursor < size {
            return None;
        }
        let value = parse_field_value(field.field_type, data, cursor);
        let ghost item = (field.name_id, ValuesView::Single(value));
        proof {
            let rest = decode_fields(fields@.skip(i + 1), data@, cursor + size);
            if let Some((more, end)) = rest {
                assert(read + (seq![item] + more) =~= read.push(item) + more);
            }
            assert(old(out).deep_view() + read.push(item) =~= (old(out).deep_view() + read).push(
                item,
            ));
        }
        let ghost before = out.deep_view();
        out.push((field.name_id, Values::Single(value)));
        proof {
            assert(out.deep_view() =~= before.push(item));
            read = read.push(item);
        }
        cursor = cursor + size;
        i += 1;
    }
    proof {
        assert(fields@.skip(i as int).len() == 0);
        assert(read + Seq::<(u64, ValuesView)>::empty() =~= read);
    }
    Some(cursor)
}

/// Decodes the body `data_bytes` of an instance of `class`. Returns the
/// fields that `class` declares and, apart from them, those of the classes
/// above it as far as `classes_dump` knows them; `None` where the body ends
/// before the fields do, or where the way up the classes has no end.
pub fn parse_instance_data(
    class: &ClassDumpFields,
    data_bytes: &[u8],
    classes_dump: &HashMap<u64, ClassDumpFields>,
) -> (r: Option<(Vec<(u64, Values)>, Vec<(u64, Values)>)>)
    ensures
        r.deep_view() == decode_instance_data(
            views_of(classes_dump@),
            class.deep_view(),
            data_bytes@,
        ),
{
    broadcast use vstd::std_specs::hash::group_hash_axioms;

    let ghost classes = views_of(classes_dump@);
    let mut fields_with_name: Vec<(u64, Values)> = Vec::with_capacity(class.instance_fields.len());
    let mut super_fields_with_name: Vec<(u64, Values)> = Vec::new();
    let mut cursor = match parse_fields(&class.instance_fields, data_bytes, 0, &mut fields_with_name) {
        Some(end) => end,
        None => {
            return None;
        },
    };
    assert(Seq::<(u64, ValuesView)>::empty() + fields_with_name.deep_view()
        =~= fields_with_name.deep_view());
    let ghost own_end = cursor;
    let mut super_id = class.super_class_object_id;
    let mut depth = classes_dump.len();
    proof {
        assert(classes.dom() =~= classes_dump@.dom());
        assert(depth == classes.dom().len());
        assert(Seq::<(u64, ValuesView)>::empty() + Seq::<(u64, ValuesView)>::empty()
            =~= Seq::<(u64, ValuesView)>::empty());
    }
    loop
        invariant
            cursor <= data_bytes.len(),
            classes == views_of(classes_dump@),
            decode_super_fields(
                classes,
                class.super_class_object_id,
                data_bytes@,
                own_end as int,
                classes.dom().len(),
            ) == values_then(
                super_fields_with_name.deep_view(),
                decode_super_fields(classes, super_id, data_bytes@, cursor as int, depth as nat),
            ),
            decode_fields(class.instance_fields@, data_bytes@, 0) == Some(
                (fields_with_name.deep_view(), own_end as int),
            ),
        decreases depth,
    {
        if super_id == 0 {
            assert(super_fields_with_name.deep_view() + Seq::<(u64, ValuesView)>::empty()
                =~= super_fields_with_name.deep_view());
            return Some((fields_with_name, super_fields_with_name));
        }
        let super_class = match classes_dump.get(&super_id) {
            Some(super_class) => super_class,
            None => {
                assert(super_fields_with_name.deep_view() + Seq::<(u64, ValuesView)>::empty()
                    =~= super_fields_with_name.deep_view());
                return Some((fields_with_name, super_fields_with_name));
            },
        };
        assert(classes[super_id] == super_class.deep_view());
        if depth == 0 {
            return None;
        }
        let ghost above = super_fields_with_name.deep_view();
        let end = match parse_fields(
            &super_class.instance_fields,
            data_bytes,
            cursor,
            &mut super_fields_with_name,
        ) {
            Some(end) => end,
            None => {
                return None;
            },
        };
        proof {
            let rest = decode_super_fields(
                classes,
                super_class.super_class_object_id,
                data_bytes@,
                end as int,
                (depth - 1) as nat,
            );
            if let Some((read, _)) = decode_fields(
                super_class.instance_fields@,
                data_bytes@,
                cursor as int,
            ) {
                if let Some((more, last)) = rest {
                    assert(above + (read + more) =~= (above + read) + more);
                }
            }
        }
        cursor = end;
        super_id = super_class.super_class_object_id;
        depth = depth - 1;
    }
}

/// The instance that the dump `gc` of an instance amounts to, under its
/// object id. There is none where `gc` is no dump of an instance, where
/// `classes` does not know its class, or where its body cannot be decoded.
pub open spec fn decode_instance_dump(classes: Map<u64, ClassDumpFieldsView>, gc: GcRecordView) -> Option<
    (u64, InstanceView),
> {
    match gc {
        GcRecordView::InstanceDump {
            object_id,
            stack_trace_serial_number,
            class_object_id,
            data_size,
            bytes_ref,
        } => {
            if classes.contains_key(class_object_id) {
                match decode_instance_data(classes, classes[class_object_id], bytes_ref) {
                    Some((fields, super_fields)) => Some(
                        (
                            object_id,
                            InstanceView {
                                object_id,
                                stack_trace_serial_number,
                                class_object_id,
                                data_size,
                                fields,
                                super_fields,
                            },
                        ),
                    ),
                    None => None,
                }
            } else {
                None
            }
        },
        _ => None,
    }
}

/// The instance that stands for an array of `number_of_elements` elements
/// of type `element_type` whose payload is `bytes_ref`: its one field, under
/// the id zero, is the array; there is none where the payload holds fewer
/// elements.
pub open spec fn array_instance(
    object_id: u64,
    stack_trace_serial_number: u32,
    class_object_id: u64,
    element_type: FieldType,
    number_of_elements: u32,
    bytes_ref: Seq<u8>,
) -> Option<(u64, InstanceView)> {
    match decode_array(element_type, number_of_elements as int, bytes_ref) {
        Some(elements) => Some(
            (
                object_id,
                InstanceView {
                    object_id,
                    stack_trace_serial_number,
                    class_object_id,
                    data_size: bytes_ref.len() as u32,
                    fields: seq![(0u64, ValuesView::Array(element_type, elements))],
                    super_fields: Seq::empty(),
                },
            ),
        ),
        None => None,
    }
}

/// The instance that the dump `gc` of an array of primitives amounts to.
/// The code of its element type stands for its class.
pub open spec fn decode_primitive_array_dump(gc: GcRecordView) -> Option<(u64, InstanceView)> {
    match gc {
        GcRecordView::PrimitiveArrayDump {
            object_id,
            stack_trace_serial_number,
            number_of_elements,
            element_type,
            bytes_ref,
        } => array_instance(
            object_id,
            stack_trace_serial_number,
            element_type.code() as u64,
            element_type,
            number_of_elements,
            bytes_ref,
        ),
        _ => None,
    }
}

/// The instance that the dump `gc` of an array of objects amounts to.
pub open spec fn decode_object_array_dump(gc: GcRecordView) -> Option<(u64, InstanceView)> {
    match gc {
        GcRecordView::ObjectArrayDump {
            object_id,
            stack_trace_serial_number,
            number_of_elements,
            array_class_id,
            bytes_ref,
        } => array_instance(
            object_id,
            stack_trace_serial_number,
            array_class_id,
            FieldType::Object,
            number_of_elements,
            bytes_ref,
        ),
        _ => None,
    }
}

/// Decodes the dump of an instance against the classes of `classes_dump`.
/// A dump whose class is not among them, or whose body does not hold the
/// fields of its class, gives nothing.
pub fn parse_instance_dump(record: &GcRecord, classes_dump: &HashMap<u64, ClassDumpFields>) -> (r:
    Option<(u64, Instance)>)
    ensures
        r.deep_view() == decode_instance_dump(views_of(classes_dump@), record.deep_view()),
{
    broadcast use vstd::std_specs::hash::group_hash_axioms;

    if let GcRecord::InstanceDump {
        object_id,
        stack_trace_serial_number,
        class_object_id,
        data_size,
        bytes_ref,
    } = record {
        if let Some(class) = classes_dump.get(class_object_id) {
            match parse_instance_data(class, bytes_ref.as_slice(), classes_dump) {
                Some((fields, super_fields)) => {
                    let instance = Instance {
                        object_id: *object_id,
                        stack_trace_serial_number: *stack_trace_serial_number,
                        class_object_id: *class_object_id,
                        data_size: *data_size,
                        fields,
                        super_fields,
                    };
                    Some((*object_id, instance))
                },
                None => None,
            }
        } else {
            None
        }
    } else {
        None
    }
}

fn parse_array_instance(
    object_id: u64,
    stack_trace_serial_number: u32,
    class_object_id: u64,
    element_type: FieldType,
    number_of_elements: u32,
    bytes_ref: &Vec<u8>,
) -> (r: Option<(u64, Instance)>)
    ensures
        r.deep_view() == array_instance(
            object_id,
            stack_trace_serial_number,
            class_object_id,
            element_type,
            number_of_elements,
            bytes_ref@,
        ),
{
    match parse_array_value(element_type, number_of_elements, bytes_ref.as_slice()) {
        Some(value) => {
            let ghost elements = value.deep_view();
            let mut fields: Vec<(u64, Values)> = Vec::new();
            fields.push((0, Values::Array(value)));
            let super_fields: Vec<(u64, Values)> = Vec::new();
            assert(fields.deep_view() =~= seq![(0u64, ValuesView::Array(element_type, elements))]);
            assert(super_fields.deep_view() =~= Seq::<(u64, ValuesView)>::empty());
            let instance = Instance {
                object_id,
                stack_trace_serial_number,
                class_object_id,
                data_size: #[verifier::truncate] (bytes_ref.len() as u32),
                fields,
                super_fields,
            };
            Some((object_id, instance))
        },
        None => None,
    }
}

/// Decodes the dump of an array of primitives.
pub fn parse_primitive_array_dump(record: &GcRecord) -> (r: Option<(u64, Instance)>)
    ensures
        r.deep_view() == decode_primitive_array_dump(record.deep_view()),
{
    if let GcRecord::PrimitiveArrayDump {
        object_id,
        stack_trace_serial_number,
        number_of_elements,
        element_type,
        bytes_ref,
    } = record {
        parse_array_instance(
            *object_id,
            *stack_trace_serial_number,
            element_type.to_u64(),
            *element_type,
            *number_of_elements,
            bytes_ref,
        )
    } else {
        None
    }
}

/// Decodes the dump of an array of objects.
pub fn parse_object_array_dump(record: &GcRecord) -> (r: Option<(u64, Instance)>)
    ensures
        r.deep_view() == decode_object_array_dump(record.deep_view()),
{
    if let GcRecord::ObjectArrayDump {
        object_id,
        stack_trace_serial_number,
        number_of_elements,
        array_class_id,
        bytes_ref,
    } = record {
        parse_array_instance(
            *object_id,
            *stack_trace_serial_number,
            *array_class_id,
            FieldType::Object,
            *number_of_elements,
            bytes_ref,
        )
    } else {
        None
    }
}

/// The pool after the entries `entries` were put into it one after
/// another, each under its id. A later entry replaces an earlier one of the
/// same id; where there is no entry, nothing is put.
pub open spec fn pool_extend(
    pool: Map<u64, InstanceView>,
    entries: Seq<Option<(u64, InstanceView)>>,
) -> Map<u64, InstanceView>
    decreases entries.len(),
{
    if entries.len() == 0 {
        pool
    } else {
        let before = pool_extend(pool, entries.drop_last());
        match entries.last() {
            Some((id, instance)) => before.insert(id, instance),
            None => before,
        }
    }
}

/// Puts the instances of `entries` into `pool`, in their order.
pub fn extend_pool(pool: &mut HashMap<u64, Arc<Instance>>, entries: Vec<Option<(u64, Instance)>>)
    ensures
        views_of(final(pool)@) == pool_extend(views_of(old(pool)@), entries.deep_view()),
{
    broadcast use vstd::std_specs::hash::group_hash_axioms;

    let ghost all = entries.deep_view();
    proof {
        assert(all.take(0) =~= Seq::<Option<(u64, InstanceView)>>::empty());
    }
    for entry in it: entries.into_iter()
        invariant
            all.len() == it.seq().len(),
            forall|i: int| 0 <= i < all.len() ==> all[i] == #[trigger] it.seq()[i].deep_view(),
            views_of(pool@) == pool_extend(views_of(old(pool)@), all.take(it.index() as int)),
    {
        proof {
            let upto = all.take(it.index() + 1);
            assert(upto.drop_last() =~= all.take(it.index() as int));
            assert(upto.last() == entry.deep_view());
        }
        let ghost before = views_of(pool@);
        match entry {
            Some((object_id, instance)) => {
                let ghost view = instance.deep_view();
                pool.insert(object_id, Arc::new(instance));
                assert(views_of(pool@) =~= before.insert(object_id, view));
            },
            None => {},
        }
    }
    proof {
        assert(all.take(all.len() as int) =~= all);
    }
}

/// Decodes every dump of `dumps` as the dump of an instance.
pub fn parse_instance_dumps(dumps: &Vec<GcRecord>, classes_dump: &HashMap<u64, ClassDumpFields>) -> (out:
    Vec<Option<(u64, Instance)>>)
    ensures
        out.deep_view() == dumps.deep_view().map_values(
            |gc: GcRecordView| decode_instance_dump(views_of(classes_dump@), gc),
        ),
{
    let mut out: Vec<Option<(u64, Instance)>> = Vec::with_capacity(dumps.len());
    let mut i: usize = 0;
    while i < dumps.len()
        invariant
            i <= dumps.len(),
            out@.len() == i,
            forall|j: int|
                0 <= j < i ==> (#[trigger] out@[j]).deep_view() == decode_instance_dump(
                    views_of(classes_dump@),
                    dumps@[j].deep_view(),
                ),
        decreases dumps.len() - i,
    {
        out.push(parse_instance_dump(&dumps[i], classes_dump));
        i += 1;
    }
    assert(out.deep_view() =~= dumps.deep_view().map_values(
        |gc: GcRecordView| decode_instance_dump(views_of(classes_dump@), gc),
    ));
    out
}

/// Decodes every dump of `dumps` as the dump of an array of primitives.
pub fn parse_primitive_array_dumps(dumps: &Vec<GcRecord>) -> (out: Vec<Option<(u64, Instance)>>)
    ensures
        out.deep_view() == dumps.deep_view().map_values(
            |gc: GcRecordView| decode_primitive_array_dump(gc),
        ),
{
    let mut out: Vec<Option<(u64, Instance)>> = Vec::with_capacity(dumps.len());
    let mut i: usize = 0;
    while i < dumps.len()
        invariant
            i <= dumps.len(),
            out@.len() == i,
            forall|j: int|
                0 <= j < i ==> (#[trigger] out@[j]).deep_view() == decode_primitive_array_dump(
                    dumps@[j].deep_view(),
                ),
        decreases dumps.len() - i,
    {
        out.push(parse_primitive_array_dump(&dumps[i]));
        i += 1;
    }
    assert(out.deep_view() =~= dumps.deep_view().map_values(
        |gc: GcRecordView| decode_primitive_array_dump(gc),
    ));
    out
}

/// Decodes every dump of `dumps` as the dump of an array of objects.
pub fn parse_object_array_dumps(dumps: &Vec<GcRecord>) -> (out: Vec<Option<(u64, Instance)>>)
    ensures
        out.deep_view() == dumps.deep_view().map_values(
            |gc: GcRecordView| decode_object_array_dump(gc),
        ),
{
    let mut out: Vec<Option<(u64, Instance)>> = Vec::with_capacity(dumps.len());
    let mut i: usize = 0;
    while i < dumps.len()
        invariant
            i <= dumps.len(),
            out@.len() == i,
            forall|j: int|
                0 <= j < i ==> (#[trigger] out@[j]).deep_view() == decode_object_array_dump(
                    dumps@[j].deep_view(),
                ),
        decreases dumps.len() - i,
    {
        out.push(parse_object_array_dump(&dumps[i]));
        i += 1;
    }
    assert(out.deep_view() =~= dumps.deep_view().map_values(
        |gc: GcRecordView| decode_object_array_dump(gc),
    ));
    out
}

/// The pool of instances that the dumps kept in `m` amount to: the
/// instances first, then the arrays of primitives, then the arrays of
/// objects, each kind in the order of its dumps.
pub open spec fn instances_pool_of(m: ResultRecorderView) -> Map<u64, InstanceView> {
    let instances = m.dump_instances.map_values(
        |gc: GcRecordView| decode_instance_dump(m.classes_dump, gc),
    );
    let primitive_arrays = m.dump_primitive_array_dump.map_values(
        |gc: GcRecordView| decode_primitive_array_dump(gc),
    );
    let object_arrays = m.dump_object_array_dump.map_values(
        |gc: GcRecordView| decode_object_array_dump(gc),
    );
    pool_extend(
        pool_extend(pool_extend(Map::empty(), instances), primitive_arrays),
        object_arrays,
    )
}

/// The heap that the aggregate `m` amounts to: its counters and tables,
/// and the pool of the instances that its dumps decode to.
pub open spec fn materialize(m: ResultRecorderView) -> HeapView {
    HeapView {
        counter: m.counter,
        utf8_strings: m.utf8_strings_by_id,
        class_data: m.load_class,
        classes_dump: m.classes_dump,
        stack_trace_by_serial_number: m.stack_trace_by_serial_number,
        stack_frame_by_id: m.stack_frame_by_id,
        instances_pool: instances_pool_of(m),
    }
}

/// Turns the aggregate of a dump into its heap: decodes the dumps that
/// were kept and hands the tables over.
pub fn parse_instance(value: ResultRecorder) -> (heap: Heap)
    ensures
        heap.deep_view() == materialize(value.deep_view()),
{
    let mut instances_pool: HashMap<u64, Arc<Instance>> = HashMap::new();
    assert(views_of(instances_pool@) =~= Map::<u64, InstanceView>::empty());
    let instance = parse_instance_dumps(&value.dump_instances, &value.classes_dump);
    let instance_primitive_array_dump = parse_primitive_array_dumps(
        &value.dump_primitive_array_dump,
    );
    let instance_object_array_dump = parse_object_array_dumps(&value.dump_object_array_dump);
    extend_pool(&mut instances_pool, instance);
    extend_pool(&mut instances_pool, instance_primitive_array_dump);
    extend_pool(&mut instances_pool, instance_object_array_dump);
    let counter = crate::HeapCounter {
        id_size: value.id_size,
        classes_unloaded: value.classes_unloaded,
        stack_frames: value.stack_frames,
        stack_traces: value.stack_traces,
        start_threads: value.start_threads,
        end_threads: value.end_threads,
        heap_summaries: value.heap_summaries,
        heap_dumps: value.heap_dumps,
        allocation_sites: value.allocation_sites,
        control_settings: value.control_settings,
        cpu_samples: value.cpu_samples,
        heap_dump_segments_all_sub_records: value.heap_dump_segments_all_sub_records,
        heap_dump_segments_gc_root_unknown: value.heap_dump_segments_gc_root_unknown,
        heap_dump_segments_gc_root_thread_object: value.heap_dump_segments_gc_root_thread_object,
        heap_dump_segments_gc_root_jni_global: value.heap_dump_segments_gc_root_jni_global,
        heap_dump_segments_gc_root_jni_local: value.heap_dump_segments_gc_root_jni_local,
        heap_dump_segments_gc_root_java_frame: value.heap_dump_segments_gc_root_java_frame,
        heap_dump_segments_gc_root_native_stack: value.heap_dump_segments_gc_root_native_stack,
        heap_dump_segments_gc_root_sticky_class: value.heap_dump_segments_gc_root_sticky_class,
        heap_dump_segments_gc_root_thread_block: value.heap_dump_segments_gc_root_thread_block,
        heap_dump_segments_gc_root_monitor_used: value.heap_dump_segments_gc_root_monitor_used,
        heap_dump_segments_gc_object_array_dump: value.heap_dump_segments_gc_object_array_dump,
        heap_dump_segments_gc_instance_dump: value.heap_dump_segments_gc_instance_dump,
        heap_dump_segments_gc_primitive_array_dump: value.heap_dump_segments_gc_primitive_array_dump,
        heap_dump_segments_gc_class_dump: value.heap_dump_segments_gc_class_dump,
    };
    Heap {
        counter,
        utf8_strings: value.utf8_strings_by_id,
        class_data: value.load_class,
        classes_dump: value.classes_dump,
        stack_trace_by_serial_number: value.stack_trace_by_serial_number,
        stack_frame_by_id: value.stack_frame_by_id,
        instances_pool,
    }
}

/// The records of the body of the file `file`, which starts behind the
/// header.
pub open spec fn body_records(file: Seq<u8>) -> Drained {
    drain(file.len() as int, FILE_HEADER_LENGTH as int, 0, file.skip(FILE_HEADER_LENGTH as int))
}

/// The heap that the file `file` holds, or why the file is refused. The
/// first 31 bytes must be a good header. The body behind them must be
/// records from its first byte to its last; the heap is what these records
/// fold to, with the instances decoded.
pub open spec fn slurp(file: Seq<u8>) -> Result<HeapView, HprofSlurpErrorView> {
    if file.len() < FILE_HEADER_LENGTH {
        Err(HprofSlurpErrorView::InvalidHeaderSize)
    } else {
        match check_header(file.take(FILE_HEADER_LENGTH as int)) {
            Err(e) => Err(e),
            Ok(header) => {
                let body = body_records(file);
                match body.error {
                    Some(e) => Err(e),
                    None => if body.rest.len() > 0 || body.segment_left > 0 {
                        Err(HprofSlurpErrorView::TruncatedInput)
                    } else {
                        Ok(
                            materialize(
                                record_all(
                                    ResultRecorder::empty_view(header.size_pointers),
                                    body.records,
                                ),
                            ),
                        )
                    },
                }
            },
        }
    }
}

/// Whether the 32-bit counters can count the records of the file `file`.
pub open spec fn countable(file: Seq<u8>) -> bool {
    FILE_HEADER_LENGTH <= file.len() ==> can_record_all(
        ResultRecorder::empty_view(8),
        body_records(file).records,
    )
}

/// Ingests a dump that is held in memory: checks its header, splits its
/// body into records, folds them and decodes the instances. The body goes
/// through the parser in chunks of `read_size` bytes; the outcome does not
/// depend on `read_size`.
pub fn slurp_in_chunks(file: &[u8], read_size: usize) -> (r: Result<Heap, HprofSlurpError>)
    requires
        0 < read_size,
        countable(file@),
    ensures
        match r {
            Ok(heap) => slurp(file@) == Ok::<HeapView, HprofSlurpErrorView>(heap.deep_view()),
            Err(e) => slurp(file@) == Err::<HeapView, HprofSlurpErrorView>(e.deep_view()),
        },
{
    let file_len = file.len();
    if file_len < FILE_HEADER_LENGTH {
        return Err(HprofSlurpError::InvalidHeaderSize);
    }
    let header_block = vstd::slice::slice_subrange(file, 0, FILE_HEADER_LENGTH);
    let header = match slurp_header(header_block) {
        Ok(header) => header,
        Err(e) => {
            return Err(e);
        },
    };
    let id_size = header.size_pointers;
    let ghost header_view = header.deep_view();
    let ghost body = file@.skip(FILE_HEADER_LENGTH as int);
    let ghost whole = body_records(file@);
    let ghost start = ResultRecorder::empty_view(id_size);
    let mut reader = PrefetchReader::new(file_len, FILE_HEADER_LENGTH, read_size);
    let mut parser = HprofRecordStreamParser::new(file_len, FILE_HEADER_LENGTH, Vec::new());
    let mut recorder = ResultRecorder::new(id_size);
    let mut records: Vec<Record> = Vec::new();
    let mut fed: usize = 0;
    proof {
        assert(body.take(0) =~= Seq::<u8>::empty());
        reveal(crate::parser::record_stream_parser::next_step);
    }
    while !reader.is_done()
        invariant
            file_len == file.len(),
            FILE_HEADER_LENGTH <= file_len,
            check_header(file@.take(FILE_HEADER_LENGTH as int)) == Ok::<
                FileHeaderView,
                HprofSlurpErrorView,
            >(header_view),
            header_view.size_pointers == 8,
            body == file@.skip(FILE_HEADER_LENGTH as int),
            whole == body_records(file@),
            start == ResultRecorder::empty_view(8),
            can_record_all(start, whole.records),
            fed <= body.len(),
            reader.remaining() == body.len() - fed,
            reader.read_size() == read_size,
            records@.len() == 0,
            parser.file_len() == file_len,
            ({
                let d = drain(file_len as int, FILE_HEADER_LENGTH as int, 0, body.take(fed as int));
                &&& d.error is None
                &&& parser.position() == d.position
                &&& parser.segment_left() == d.segment_left
                &&& parser.pending() == d.rest
                &&& recorder.deep_view() == record_all(start, d.records)
            }),
            recorder.deep_view().wf(),
        decreases body.len() - fed,
    {
        let size = reader.next_size();
        let from = FILE_HEADER_LENGTH + fed;
        let chunk = vstd::slice::slice_subrange(file, from, from + size);
        let ghost before = drain(
            file_len as int,
            FILE_HEADER_LENGTH as int,
            0,
            body.take(fed as int),
        );
        let ghost step = drain(
            file_len as int,
            before.position,
            before.segment_left,
            before.rest + chunk@,
        );
        let ghost after = drain(
            file_len as int,
            FILE_HEADER_LENGTH as int,
            0,
            body.take(fed + size),
        );
        proof {
            assert(body.take(fed as int) + chunk@ =~= body.take(fed + size));
            lemma_drain_append(
                file_len as int,
                FILE_HEADER_LENGTH as int,
                0,
                body.take(fed as int),
                chunk@,
            );
            assert(after == after_records(before.records, step));
            assert(body.take(fed + size) + body.skip(fed + size) =~= body);
            lemma_drain_append(
                file_len as int,
                FILE_HEADER_LENGTH as int,
                0,
                body.take(fed + size),
                body.skip(fed + size),
            );
            if after.error is Some {
                assert(whole.records == after.records);
            } else {
                let more = drain(
                    file_len as int,
                    after.position,
                    after.segment_left,
                    after.rest + body.skip(fed + size),
                );
                assert(whole.records == after.records + more.records);
                assert((after.records + more.records).take(after.records.len() as int)
                    =~= after.records);
                lemma_can_record_prefix(start, whole.records, after.records.len() as int);
            }
            lemma_can_record_append(start, before.records, step.records);
            lemma_record_all_append(start, before.records, step.records);
        }
        let outcome = parser.parse_chunk(chunk, &mut records);
        assert(records.deep_view() =~= step.records);
        recorder.record_records(&mut records);
        records.clear();
        match outcome {
            Ok(()) => {},
            Err(e) => {
                return Err(e);
            },
        }
        match reader.chunk_read(size) {
            Ok(()) => {},
            Err(e) => {
                return Err(e);
            },
        }
        fed = fed + size;
    }
    proof {
        assert(body.take(fed as int) =~= body);
        lemma_drain_rest(file_len as int, FILE_HEADER_LENGTH as int, 0, body);
    }
    match parser.finish() {
        Ok(()) => {},
        Err(e) => {
            return Err(e);
        },
    }
    Ok(parse_instance(recorder))
}

/// Ingests a dump that is held in memory. See [`slurp`] for what comes of
/// it.
pub fn slurp_file(file: &[u8]) -> (r: Result<Heap, HprofSlurpError>)
    requires
        countable(file@),
    ensures
        match r {
            Ok(heap) => slurp(file@) == Ok::<HeapView, HprofSlurpErrorView>(heap.deep_view()),
            Err(e) => slurp(file@) == Err::<HeapView, HprofSlurpErrorView>(e.deep_view()),
        },
{
    slurp_in_chunks(file, READ_BUFFER_SIZE)
}

/// Whether `id` stands for the class of an array in `m`: it is the code of
/// an element type, which stands for the arrays of primitives of that
/// type, or the class that a dump of an array of objects names.
pub open spec fn is_array_class(m: ResultRecorderView, id: u64) -> bool {
    FieldType::is_code(id as int) || exists|i: int|
        0 <= i < m.dump_object_array_dump.len() && names_array_class(
            #[trigger] m.dump_object_array_dump[i],
            id,
        )
}

/// Whether `gc` is the dump of an array of objects of class `id`.
pub open spec fn names_array_class(gc: GcRecordView, id: u64) -> bool {
    gc matches GcRecordView::ObjectArrayDump { array_class_id, .. } && array_class_id == id
}

/// What holds of every instance of a pool and of every entry that is put
/// into it holds of every instance of the pool afterwards.
pub proof fn lemma_pool_extend_keeps(
    pool: Map<u64, InstanceView>,
    entries: Seq<Option<(u64, InstanceView)>>,
    holds: spec_fn(InstanceView) -> bool,
)
    requires
        forall|id: u64| #[trigger] pool.contains_key(id) ==> holds(pool[id]),
        forall|i: int|
            0 <= i < entries.len() ==> ((#[trigger] entries[i]) matches Some((_, instance))
                ==> holds(instance)),
    ensures
        forall|id: u64| #[trigger]
            pool_extend(pool, entries).contains_key(id) ==> holds(pool_extend(pool, entries)[id]),
    decreases entries.len(),
{
    if entries.len() > 0 {
        assert forall|i: int| 0 <= i < entries.drop_last().len() implies ((
        #[trigger] entries.drop_last()[i]) matches Some((_, instance)) ==> holds(instance)) by {
            assert(entries.drop_last()[i] == entries[i]);
        }
        lemma_pool_extend_keeps(pool, entries.drop_last(), holds);
        let before = pool_extend(pool, entries.drop_last());
        let after = pool_extend(pool, entries);
        assert(entries.last() == entries[entries.len() - 1]);
        assert forall|id: u64| #[trigger] after.contains_key(id) implies holds(after[id]) by {
            match entries.last() {
                Some((new_id, instance)) => {
                    assert(after == before.insert(new_id, instance));
                    assert(holds(instance));
                    if id != new_id {
                        assert(before.contains_key(id));
                    }
                },
                None => {
                    assert(after == before);
                    assert(before.contains_key(id));
                },
            }
        }
    }
}

/// The class of every instance of the pool is known: it has a class dump,
/// or it stands for the class of an array.
pub proof fn lemma_pool_classes_known(m: ResultRecorderView, object_id: u64)
    requires
        instances_pool_of(m).contains_key(object_id),
    ensures
        m.classes_dump.contains_key(instances_pool_of(m)[object_id].class_object_id)
            || is_array_class(m, instances_pool_of(m)[object_id].class_object_id),
{
    let holds = |instance: InstanceView|
        m.classes_dump.contains_key(instance.class_object_id) || is_array_class(
            m,
            instance.class_object_id,
        );
    let instances = m.dump_instances.map_values(
        |gc: GcRecordView| decode_instance_dump(m.classes_dump, gc),
    );
    let primitive_arrays = m.dump_primitive_array_dump.map_values(
        |gc: GcRecordView| decode_primitive_array_dump(gc),
    );
    let object_arrays = m.dump_object_array_dump.map_values(
        |gc: GcRecordView| decode_object_array_dump(gc),
    );
    let first = pool_extend(Map::empty(), instances);
    let second = pool_extend(first, primitive_arrays);
    lemma_pool_extend_keeps(Map::empty(), instances, holds);
    assert forall|i: int| 0 <= i < primitive_arrays.len() implies ((
    #[trigger] primitive_arrays[i]) matches Some((_, instance)) ==> holds(instance)) by {
        if let GcRecordView::PrimitiveArrayDump { element_type, .. } = m.dump_primitive_array_dump[i] {
            crate::parser::gc_record::lemma_code_names_type(element_type, element_type);
        }
    }
    lemma_pool_extend_keeps(first, primitive_arrays, holds);
    assert forall|i: int| 0 <= i < object_arrays.len() implies ((
    #[trigger] object_arrays[i]) matches Some((_, instance)) ==> holds(instance)) by {
        if let GcRecordView::ObjectArrayDump { array_class_id, .. } = m.dump_object_array_dump[i] {
            assert(names_array_class(m.dump_object_array_dump[i], array_class_id));
        }
    }
    lemma_pool_extend_keeps(second, object_arrays, holds);
}

/// The counters can count the records of every file of no more than nine
/// times `i32::MAX` bytes: each record takes nine bytes at least.
pub proof fn lemma_small_file_countable(file: Seq<u8>)
    requires
        file.len() <= 9 * i32::MAX,
    ensures
        countable(file),
{
    if FILE_HEADER_LENGTH <= file.len() {
        let body = file.skip(FILE_HEADER_LENGTH as int);
        lemma_drain_rest(file.len() as int, FILE_HEADER_LENGTH as int, 0, body);
        lemma_room_for_records(ResultRecorder::empty_view(8), body_records(file).records, 0);
    }
}

/// The counters of a heap count the records of its file: the tag
/// counters sum to the number of records of counted kinds, which is the
/// number of all records where the file holds no string, no loaded class,
/// no start or end of a thread and no end of a heap dump; and the counter
/// of all sub-records is the sum of the counters of their kinds.
pub proof fn lemma_counters_count_records(file: Seq<u8>)
    requires
        countable(file),
        slurp(file) is Ok,
    ensures
        slurp(file) matches Ok(heap) && {
            let records = body_records(file).records;
            &&& tag_total(heap.counter) == crate::result_recorder::counted(records)
            &&& (forall|i: int| 0 <= i < records.len() ==> is_counted(#[trigger] records[i]))
                ==> tag_total(heap.counter) == records.len()
            &&& heap.counter.heap_dump_segments_all_sub_records == gc_total(heap.counter)
        },
{
    let records = body_records(file).records;
    let start = ResultRecorder::empty_view(8);
    lemma_counters_grow(start, records);
    if forall|i: int| 0 <= i < records.len() ==> is_counted(#[trigger] records[i]) {
        lemma_tag_counters_count_records(start, records);
    }
}

/// A file that is nothing but a good header holds an empty heap: no
/// record, every counter zero, every table empty.
pub proof fn lemma_header_only(file: Seq<u8>)
    requires
        file.len() == FILE_HEADER_LENGTH,
        check_header(file) is Ok,
    ensures
        countable(file),
        slurp(file) == Ok::<HeapView, HprofSlurpErrorView>(
            materialize(ResultRecorder::empty_view(8)),
        ),
        materialize(ResultRecorder::empty_view(8)).instances_pool == Map::<
            u64,
            InstanceView,
        >::empty(),
{
    assert(file.take(FILE_HEADER_LENGTH as int) =~= file);
    assert(file.skip(FILE_HEADER_LENGTH as int) =~= Seq::<u8>::empty());
    reveal(crate::parser::record_stream_parser::next_step);
    let m = ResultRecorder::empty_view(8);
    assert(m.dump_instances.map_values(
        |gc: GcRecordView| decode_instance_dump(m.classes_dump, gc),
    ) =~= Seq::empty());
    assert(m.dump_primitive_array_dump.map_values(
        |gc: GcRecordView| decode_primitive_array_dump(gc),
    ) =~= Seq::empty());
    assert(m.dump_object_array_dump.map_values(|gc: GcRecordView| decode_object_array_dump(gc))
        =~= Seq::empty());
}

/// One byte behind a file that holds a heap makes a file that is cut
/// short, whatever the byte.
pub proof fn lemma_one_trailing_byte(file: Seq<u8>, byte: u8)
    requires
        slurp(file) is Ok,
    ensures
        slurp(file + seq![byte]) == Err::<HeapView, HprofSlurpErrorView>(
            HprofSlurpErrorView::TruncatedInput,
        ),
{
    let longer = file + seq![byte];
    let body = file.skip(FILE_HEADER_LENGTH as int);
    assert(longer.take(FILE_HEADER_LENGTH as int) =~= file.take(FILE_HEADER_LENGTH as int));
    assert(longer.skip(FILE_HEADER_LENGTH as int) =~= body + seq![byte]);
    lemma_drain_rest(file.len() as int, FILE_HEADER_LENGTH as int, 0, body);
    lemma_trailing_byte(file.len() as int, FILE_HEADER_LENGTH as int, 0, body, byte);
    lemma_drain_longer_file(
        file.len() as int,
        longer.len() as int,
        FILE_HEADER_LENGTH as int,
        0,
        body + seq![byte],
    );
}

/// A file whose header declares identifiers of four bytes is refused for
/// its header alone: nothing behind the header is looked at.
pub proof fn lemma_small_ids_refused(file: Seq<u8>, other: Seq<u8>)
    requires
        FILE_HEADER_LENGTH <= file.len(),
        decode_file_header(file.take(FILE_HEADER_LENGTH as int)) matches Some((header, _))
            && header.size_pointers == 4,
    ensures
        slurp(file) == Err::<HeapView, HprofSlurpErrorView>(
            HprofSlurpErrorView::UnsupportedIdSize { message: no_32_bits() },
        ),
        slurp(file.take(FILE_HEADER_LENGTH as int) + other) == slurp(file),
{
    let header = file.take(FILE_HEADER_LENGTH as int);
    assert((header + other).take(FILE_HEADER_LENGTH as int) =~= header);
}

/// Whether the bytes `needle` stand in `hay` at offset `at`.
pub open spec fn occurs_at(needle: Seq<u8>, hay: Seq<u8>, at: int) -> bool {
    0 <= at && at + needle.len() <= hay.len() && hay.subrange(at, at + needle.len()) == needle
}

/// Whether the bytes `needle` stand somewhere in `hay`, one behind the
/// other.
pub open spec fn occurs_in(needle: Seq<u8>, hay: Seq<u8>) -> bool {
    exists|at: int| occurs_at(needle, hay, at)
}

/// Whether `hay` holds the bytes `needle`, one behind the other.
pub fn contains_bytes(hay: &[u8], needle: &[u8]) -> (found: bool)
    ensures
        found == occurs_in(needle@, hay@),
{
    if needle.len() > hay.len() {
        assert forall|at: int| !occurs_at(needle@, hay@, at) by {}
        return false;
    }
    let last = hay.len() - needle.len();
    let mut at: usize = 0;
    while at <= last
        invariant
            last == hay.len() - needle.len(),
            needle.len() <= hay.len(),
            at <= last + 1,
            forall|before: int| 0 <= before < at ==> !occurs_at(needle@, hay@, before),
        decreases last + 1 - at,
    {
        let mut i: usize = 0;
        while i < needle.len() && hay[at + i] == needle[i]
            invariant
                at <= last,
                last == hay.len() - needle.len(),
                needle.len() <= hay.len(),
                i <= needle.len(),
                forall|j: int| 0 <= j < i ==> hay@[at + j] == needle@[j],
            decreases needle.len() - i,
        {
            i += 1;
        }
        if i == needle.len() {
            assert(hay@.subrange(at as int, at + needle.len()) =~= needle@);
            assert(occurs_at(needle@, hay@, at as int));
            return true;
        }
        assert(!occurs_at(needle@, hay@, at as int)) by {
            if occurs_at(needle@, hay@, at as int) {
                assert(hay@.subrange(at as int, at + needle.len())[i as int] == needle@[i as int]);
            }
        }
        at += 1;
    }
    assert forall|at: int| !occurs_at(needle@, hay@, at) by {}
    false
}

/// Looks for a string that holds the bytes `str` and returns its id.
/// Where several strings hold them, the id of any one comes back.
pub fn search_str(str: &[u8], result: &ResultRecorder) -> (id: Option<u64>)
    ensures
        match id {
            Some(id) => result.utf8_strings_by_id@.contains_key(id) && occurs_in(
                str@,
                result.utf8_strings_by_id@[id]@,
            ),
            None => forall|id: u64| #[trigger]
                result.utf8_strings_by_id@.contains_key(id) ==> !occurs_in(
                    str@,
                    result.utf8_strings_by_id@[id]@,
                ),
        },
{
    broadcast use vstd::std_specs::hash::group_hash_axioms;

    let ghost strings = result.utf8_strings_by_id@;
    let ghost entries = spec_hash_map_iter(&result.utf8_strings_by_id).remaining();
    for entry in it: result.utf8_strings_by_id.iter()
        invariant
            strings == result.utf8_strings_by_id@,
            entries == it.seq(),
            it.seq() == spec_hash_map_iter(&result.utf8_strings_by_id).remaining(),
            forall|i: int| 0 <= i < it.index() ==> !occurs_in(str@, (*it.seq()[i].1)@),
    {
        let (id, bytes) = entry;
        assert(strings.contains_key(*id) && strings[*id] == *bytes);
        if contains_bytes(bytes.as_slice(), str) {
            return Some(*id);
        }
    }
    assert forall|id: u64| #[trigger] strings.contains_key(id) implies !occurs_in(
        str@,
        strings[id]@,
    ) by {
        let pair = (&id, &strings[id]);
        assert(entries.contains(pair));
        let i = choose|i: int| 0 <= i < entries.len() && entries[i] == pair;
        assert(!occurs_in(str@, (*entries[i].1)@));
    }
    None
}

/// Whether `class` is a loaded class of `result` whose name is the string
/// `name_str_id`.
pub open spec fn is_loaded_as(result: &ResultRecorder, class: LoadClassData, name_str_id: u64) -> bool {
    class.class_name_id == name_str_id && exists|key: u64| #[trigger]
        result.load_class@.contains_key(key) && result.load_class@[key] == class
}

/// Whether `dump` is a class dump of `result` for the class `class_id`.
pub open spec fn is_dump_of(result: &ResultRecorder, dump: ClassDumpFields, class_id: u64) -> bool {
    dump.class_object_id == class_id && exists|key: u64| #[trigger]
        result.classes_dump@.contains_key(key) && result.classes_dump@[key] == dump
}

/// Looks for a loaded class whose name is the string `name_str_id`, then
/// for the class dump of that class. Where several classes bear the name,
/// any one of them is taken; nothing comes back where no class bears the
/// name, or where the class that was taken has no dump.
pub fn search_dump_class(name_str_id: u64, result: &ResultRecorder) -> (found: Option<
    &ClassDumpFields,
>)
    ensures
        match found {
            Some(dump) => exists|class: LoadClassData| #[trigger]
                is_loaded_as(result, class, name_str_id) && is_dump_of(
                    result,
                    *dump,
                    class.class_object_id,
                ),
            None => (forall|class: LoadClassData| !#[trigger] is_loaded_as(
                result,
                class,
                name_str_id,
            )) || exists|class: LoadClassData| #[trigger]
                is_loaded_as(result, class, name_str_id) && forall|dump: ClassDumpFields|
                    !#[trigger] is_dump_of(result, dump, class.class_object_id),
        },
{
    broadcast use vstd::std_specs::hash::group_hash_axioms;

    let ghost loaded = result.load_class@;
    let ghost loaded_entries = spec_hash_map_iter(&result.load_class).remaining();
    let mut taken: Option<LoadClassData> = None;
    for entry in it: result.load_class.iter()
        invariant
            loaded == result.load_class@,
            loaded_entries == it.seq(),
            it.seq() == spec_hash_map_iter(&result.load_class).remaining(),
            taken matches Some(class) ==> is_loaded_as(result, class, name_str_id),
            taken is None ==> forall|i: int|
                0 <= i < it.index() ==> (*it.seq()[i].1).class_name_id != name_str_id,
    {
        let (key, class) = entry;
        assert(loaded.contains_key(*key) && loaded[*key] == *class);
        if taken.is_none() && class.class_name_id == name_str_id {
            taken = Some(*class);
        }
    }
    let class = match taken {
        Some(class) => class,
        None => {
            assert forall|class: LoadClassData| !#[trigger] is_loaded_as(
                result,
                class,
                name_str_id,
            ) by {
                if is_loaded_as(result, class, name_str_id) {
                    let key = choose|key: u64| #[trigger]
                        loaded.contains_key(key) && loaded[key] == class;
                    let pair = (&key, &loaded[key]);
                    assert(loaded_entries.contains(pair));
                    let i = choose|i: int|
                        0 <= i < loaded_entries.len() && loaded_entries[i] == pair;
                    assert((*loaded_entries[i].1).class_name_id != name_str_id);
                }
            }
            return None;
        },
    };
    let obj_id = class.class_object_id;
    let ghost dumps = result.classes_dump@;
    let ghost dump_entries = spec_hash_map_iter(&result.classes_dump).remaining();
    for entry in it: result.classes_dump.iter()
        invariant
            dumps == result.classes_dump@,
            dump_entries == it.seq(),
            it.seq() == spec_hash_map_iter(&result.classes_dump).remaining(),
            is_loaded_as(result, class, name_str_id),
            obj_id == class.class_object_id,
            forall|i: int| 0 <= i < it.index() ==> (*it.seq()[i].1).class_object_id != obj_id,
    {
        let (key, dump) = entry;
        assert(dumps.contains_key(*key) && dumps[*key] == *dump);
        if dump.class_object_id == obj_id {
            assert(is_dump_of(result, *dump, class.class_object_id));
            return Some(dump);
        }
    }
    assert forall|dump: ClassDumpFields| !#[trigger] is_dump_of(result, dump, obj_id) by {
        if is_dump_of(result, dump, obj_id) {
            let key = choose|key: u64| #[trigger] dumps.contains_key(key) && dumps[key] == dump;
            let pair = (&key, &dumps[key]);
            assert(dump_entries.contains(pair));
            let i = choose|i: int| 0 <= i < dump_entries.len() && dump_entries[i] == pair;
            assert((*dump_entries[i].1).class_object_id != obj_id);
        }
    }
    None
}

} // verus!
