//! The framing of the record stream: how a body that arrives in chunks
//! splits into records.

use vstd::prelude::*;
use crate::errors::{HprofSlurpError, HprofSlurpErrorView};
use crate::parser::primitive_parsers::{be_u32, copy_bytes, read_u32, read_u8};
use crate::parser::record::{Record, RecordView};
use crate::parser::record_parser::{
    decode_gc_record, decode_record_body, is_heap_dump_tag, is_record_tag,
    lemma_gc_record_length, lemma_gc_record_stable, lemma_prefix_reads, parse_gc_record,
    parse_record_body, record_tag_known, Parsed, Partial, TAG_HEAP_DUMP, TAG_HEAP_DUMP_SEGMENT,
};

verus! {

/// The number of bytes that open a top-level record: its tag, a time offset
/// of four bytes and the length of its body in four bytes.
pub const RECORD_HEADER_LENGTH: usize = 9;

/// What the bytes at the front of a buffer amount to.
pub enum Step {
    /// One record, the number of bytes that it takes, and the number of
    /// bytes of the open heap-dump segment that are left after it.
    Emit { record: RecordView, used: int, segment_left: int },
    /// The buffer ends before the next record does.
    NeedMore,
    /// No record can start here.
    Fail(HprofSlurpErrorView),
}

/// The next record of a stream, read from the front of `buf`.
///
/// `position` is the offset in the file of the first byte of `buf`, and
/// `segment_left` the number of bytes that the open heap-dump segment still
/// holds. Inside a segment the next record is a sub-record, read from no
/// more than the bytes that the segment has left. Outside, it is a top-level
/// record: nine bytes of header, then a body of the length that the header
/// gives. The header of a heap dump opens a segment and is a record of its
/// own.
#[verifier::opaque]
pub open spec fn next_step(file_len: int, position: int, segment_left: int, buf: Seq<u8>) -> Step {
    if segment_left > 0 {
        let window = if buf.len() < segment_left {
            buf
        } else {
            buf.take(segment_left)
        };
        match decode_gc_record(window) {
            Parsed::Done { value, used } => Step::Emit {
                record: RecordView::GcSegment(value),
                used,
                segment_left: segment_left - used,
            },
            Parsed::UnknownTag { tag, at } => Step::Fail(
                HprofSlurpErrorView::UnknownTag(tag, (position + at) as u64),
            ),
            Parsed::Incomplete => if buf.len() < segment_left {
                Step::NeedMore
            } else {
                Step::Fail(HprofSlurpErrorView::SubRecordOverflow)
            },
        }
    } else if buf.len() < RECORD_HEADER_LENGTH {
        Step::NeedMore
    } else {
        let tag = buf[0];
        let length = be_u32(buf, 5);
        if !is_record_tag(tag) {
            Step::Fail(HprofSlurpErrorView::UnknownTag(tag, position as u64))
        } else if position + RECORD_HEADER_LENGTH + length > file_len {
            Step::Fail(HprofSlurpErrorView::CorruptLength)
        } else if is_heap_dump_tag(tag) {
            Step::Emit {
                record: RecordView::HeapDumpStart { length },
                used: RECORD_HEADER_LENGTH as int,
                segment_left: length as int,
            }
        } else if buf.len() < RECORD_HEADER_LENGTH + length {
            Step::NeedMore
        } else {
            match decode_record_body(
                tag,
                buf.subrange(RECORD_HEADER_LENGTH as int, RECORD_HEADER_LENGTH + length),
            ) {
                Some(record) => Step::Emit {
                    record,
                    used: RECORD_HEADER_LENGTH + length,
                    segment_left: 0,
                },
                None => Step::Fail(HprofSlurpErrorView::CorruptLength),
            }
        }
    }
}

/// What a buffer yields when every whole record is taken from its front.
pub struct Drained {
    /// The records, in the order of their bytes.
    pub records: Seq<RecordView>,
    /// The offset in the file of the first byte that was not taken.
    pub position: int,
    /// The number of bytes that the open heap-dump segment still holds.
    pub segment_left: int,
    /// The bytes that were not taken.
    pub rest: Seq<u8>,
    /// Why no record can start at `rest`, if none can.
    pub error: Option<HprofSlurpErrorView>,
}

/// Takes the records off the front of `buf`, one after another, until the
/// rest holds no whole record or cannot start one.
pub open spec fn drain(file_len: int, position: int, segment_left: int, buf: Seq<u8>) -> Drained
    decreases buf.len(),
{
    match next_step(file_len, position, segment_left, buf) {
        Step::Emit { record, used, segment_left: left } => {
            proof {
                lemma_step_length(file_len, position, segment_left, buf);
            }
            let after = drain(file_len, position + used, left, buf.skip(used));
            Drained { records: seq![record] + after.records, ..after }
        },
        Step::NeedMore => Drained {
            records: Seq::empty(),
            position,
            segment_left,
            rest: buf,
            error: None,
        },
        Step::Fail(e) => Drained {
            records: Seq::empty(),
            position,
            segment_left,
            rest: buf,
            error: Some(e),
        },
    }
}

/// Every record that is read takes at least nine bytes of the buffer and
/// no more than the buffer holds.
pub proof fn lemma_step_length(file_len: int, position: int, segment_left: int, buf: Seq<u8>)
    ensures
        next_step(file_len, position, segment_left, buf) matches Step::Emit {
            used,
            segment_left: left,
            ..
        } ==> {
            &&& RECORD_HEADER_LENGTH <= used <= buf.len()
            &&& 0 <= left
            &&& segment_left > 0 ==> left == segment_left - used
            &&& position + segment_left <= file_len ==> position + used + left <= file_len
        },
{
    reveal(next_step);
    if segment_left > 0 {
        let window = if buf.len() < segment_left {
            buf
        } else {
            buf.take(segment_left)
        };
        lemma_gc_record_length(window);
    }
}

/// What the bytes at the front of a buffer amount to.
#[derive(Debug)]
pub enum NextRecord {
    /// One record, the number of bytes that it takes, and the number of
    /// bytes of the open heap-dump segment that are left after it.
    Emit(Record, usize, u32),
    /// The buffer ends before the next record does.
    NeedMore,
    /// No record can start here.
    Fail(HprofSlurpError),
}

impl NextRecord {
    /// Whether this is the step `step`, with the record and the error taken
    /// by their views.
    pub open spec fn agrees(self, step: Step) -> bool {
        match self {
            NextRecord::Emit(record, used, left) => step == (Step::Emit {
                record: record.deep_view(),
                used: used as int,
                segment_left: left as int,
            }),
            NextRecord::NeedMore => step is NeedMore,
            NextRecord::Fail(e) => step == Step::Fail(e.deep_view()),
        }
    }
}

/// Reads the next record of a stream from the front of `buf`, which starts
/// at offset `position` of a file of `file_len` bytes, inside a heap-dump
/// segment that has `segment_left` bytes left.
pub fn next_record(file_len: usize, position: usize, segment_left: u32, buf: &[u8]) -> (next:
    NextRecord)
    requires
        position + segment_left <= file_len,
    ensures
        next.agrees(next_step(file_len as int, position as int, segment_left as int, buf@)),
{
    proof {
        reveal(next_step);
    }
    if segment_left > 0 {
        let room = segment_left as usize;
        let window = if buf.len() < room {
            buf
        } else {
            vstd::slice::slice_subrange(buf, 0, room)
        };
        proof {
            lemma_gc_record_length(window@);
        }
        match parse_gc_record(window) {
            Partial::Done(gc_record, used) => NextRecord::Emit(
                Record::GcSegment(gc_record),
                used,
                segment_left - (used as u32),
            ),
            Partial::UnknownTag(tag, at) => NextRecord::Fail(
                HprofSlurpError::UnknownTag(tag, (position + at) as u64),
            ),
            Partial::Incomplete => if buf.len() < room {
                NextRecord::NeedMore
            } else {
                NextRecord::Fail(HprofSlurpError::SubRecordOverflow)
            },
        }
    } else if buf.len() < RECORD_HEADER_LENGTH {
        NextRecord::NeedMore
    } else {
        let tag = read_u8(buf, 0);
        let length = read_u32(buf, 5);
        if !record_tag_known(tag) {
            NextRecord::Fail(HprofSlurpError::UnknownTag(tag, position as u64))
        } else if ((file_len - position) as u64) < RECORD_HEADER_LENGTH as u64 + length as u64 {
            NextRecord::Fail(HprofSlurpError::CorruptLength)
        } else if tag == TAG_HEAP_DUMP || tag == TAG_HEAP_DUMP_SEGMENT {
            NextRecord::Emit(Record::HeapDumpStart { length }, RECORD_HEADER_LENGTH, length)
        } else if ((buf.len() - RECORD_HEADER_LENGTH) as u64) < length as u64 {
            NextRecord::NeedMore
        } else {
            let end = RECORD_HEADER_LENGTH + length as usize;
            let body = vstd::slice::slice_subrange(buf, RECORD_HEADER_LENGTH, end);
            match parse_record_body(tag, body) {
                Some(record) => NextRecord::Emit(record, end, 0),
                None => NextRecord::Fail(HprofSlurpError::CorruptLength),
            }
        }
    }
}

/// `records` put in front of what `after` yielded.
pub open spec fn after_records(records: Seq<RecordView>, after: Drained) -> Drained {
    Drained { records: records + after.records, ..after }
}

/// Takes every whole record off the front of `buf` and appends it to
/// `records`. Returns the number of bytes taken, the position and the rest
/// of the open segment after them, and the error that stopped the reading,
/// if one did.
fn drain_records(
    file_len: usize,
    position: usize,
    segment_left: u32,
    buf: &[u8],
    records: &mut Vec<Record>,
) -> (r: (usize, usize, u32, Option<HprofSlurpError>))
    requires
        position + segment_left <= file_len,
    ensures
        ({
            let d = drain(file_len as int, position as int, segment_left as int, buf@);
            &&& final(records).deep_view() == old(records).deep_view() + d.records
            &&& r.0 <= buf.len()
            &&& d.rest == buf@.skip(r.0 as int)
            &&& d.position == r.1
            &&& d.position == position + r.0
            &&& d.segment_left == r.2
            &&& r.1 + r.2 <= file_len
            &&& d.error == r.3.deep_view()
        }),
{
    let mut taken: usize = 0;
    let mut at: usize = position;
    let mut left: u32 = segment_left;
    let ghost whole = drain(file_len as int, position as int, segment_left as int, buf@);
    proof {
        assert(buf@.skip(0) =~= buf@);
        assert(old(records).deep_view() + Seq::<RecordView>::empty() =~= old(records).deep_view());
    }
    let ghost mut emitted: Seq<RecordView> = Seq::empty();
    loop
        invariant
            taken <= buf.len(),
            at == position + taken,
            at + left <= file_len,
            whole == drain(file_len as int, position as int, segment_left as int, buf@),
            whole == after_records(
                emitted,
                drain(file_len as int, at as int, left as int, buf@.skip(taken as int)),
            ),
            records.deep_view() == old(records).deep_view() + emitted,
        decreases buf.len() - taken,
    {
        let rest = vstd::slice::slice_subrange(buf, taken, buf.len());
        proof {
            assert(rest@ =~= buf@.skip(taken as int));
            lemma_step_length(file_len as int, at as int, left as int, rest@);
        }
        match next_record(file_len, at, left, rest) {
            NextRecord::Emit(record, used, next_left) => {
                proof {
                    let after = drain(
                        file_len as int,
                        at + used,
                        next_left as int,
                        rest@.skip(used as int),
                    );
                    assert(rest@.skip(used as int) =~= buf@.skip(taken + used));
                    assert(emitted + (seq![record.deep_view()] + after.records) =~= emitted.push(
                        record.deep_view(),
                    ) + after.records);
                    assert(records.deep_view().push(record.deep_view()) =~= old(
                        records,
                    ).deep_view() + emitted.push(record.deep_view()));
                    emitted = emitted.push(record.deep_view());
                }
                let ghost before = records.deep_view();
                records.push(record);
                assert(records.deep_view() =~= before.push(record.deep_view()));
                taken = taken + used;
                at = at + used;
                left = next_left;
            },
            NextRecord::NeedMore => {
                assert(emitted + Seq::<RecordView>::empty() =~= emitted);
                return (taken, at, left, None);
            },
            NextRecord::Fail(e) => {
                assert(emitted + Seq::<RecordView>::empty() =~= emitted);
                return (taken, at, left, Some(e));
            },
        }
    }
}

/// Splits the body of an HPROF file into records, whatever the chunks in
/// which the body arrives. The bytes that end a chunk without ending a
/// record are kept and put in front of the next chunk.
pub struct HprofRecordStreamParser {
    file_len: usize,
    processed_len: usize,
    heap_dump_remaining_len: u32,
    loop_buffer: Vec<u8>,
}

impl HprofRecordStreamParser {
    #[verifier::type_invariant]
    spec fn within_file(self) -> bool {
        self.processed_len + self.heap_dump_remaining_len <= self.file_len
    }

    /// The length of the file whose body is read.
    pub closed spec fn file_len(self) -> int {
        self.file_len as int
    }

    /// The offset in the file of the first byte that no record has taken.
    pub closed spec fn position(self) -> int {
        self.processed_len as int
    }

    /// The number of bytes that the open heap-dump segment still holds.
    pub closed spec fn segment_left(self) -> int {
        self.heap_dump_remaining_len as int
    }

    /// The bytes that arrived and that no record has taken.
    pub closed spec fn pending(self) -> Seq<u8> {
        self.loop_buffer@
    }

    /// A parser for the body of a file of `file_len` bytes, which starts at
    /// offset `initial_position`. `initial_loop_buffer` gives the storage
    /// for the bytes that are kept between chunks; what it holds is dropped.
    pub fn new(file_len: usize, initial_position: usize, initial_loop_buffer: Vec<u8>) -> (parser:
        Self)
        requires
            initial_position <= file_len,
        ensures
            parser.file_len() == file_len,
            parser.position() == initial_position,
            parser.segment_left() == 0,
            parser.pending() == Seq::<u8>::empty(),
    {
        let mut loop_buffer = initial_loop_buffer;
        loop_buffer.clear();
        HprofRecordStreamParser {
            file_len,
            processed_len: initial_position,
            heap_dump_remaining_len: 0,
            loop_buffer,
        }
    }

    /// The number of bytes of the file that records have taken so far,
    /// header included.
    pub fn processed_len(&self) -> (n: usize)
        ensures
            n == self.position(),
    {
        self.processed_len
    }

    /// Reads the records that `chunk` completes and appends them to
    /// `records`. The bytes are those that were kept, then `chunk`; what
    /// they yield is [`drain`] of them. An error is final: the parser stays
    /// where the error is.
    pub fn parse_chunk(&mut self, chunk: &[u8], records: &mut Vec<Record>) -> (r: Result<
        (),
        HprofSlurpError,
    >)
        ensures
            ({
                let d = drain(
                    old(self).file_len(),
                    old(self).position(),
                    old(self).segment_left(),
                    old(self).pending() + chunk@,
                );
                &&& final(records).deep_view() == old(records).deep_view() + d.records
                &&& final(self).file_len() == old(self).file_len()
                &&& final(self).position() == d.position
                &&& final(self).segment_left() == d.segment_left
                &&& final(self).pending() == d.rest
                &&& match r {
                    Ok(()) => d.error is None,
                    Err(e) => d.error == Some(e.deep_view()),
                }
            }),
    {
        proof {
            use_type_invariant(&*self);
        }
        let mut buffer: Vec<u8> = Vec::new();
        std::mem::swap(&mut self.loop_buffer, &mut buffer);
        let position: usize;
        let segment_left: u32;
        let error: Option<HprofSlurpError>;
        if buffer.len() == 0 {
            // nothing was kept: the records are read from the chunk where it lies
            assert(old(self).pending() + chunk@ =~= chunk@);
            let (taken, at, left, e) = drain_records(
                self.file_len,
                self.processed_len,
                self.heap_dump_remaining_len,
                chunk,
                records,
            );
            buffer.extend_from_slice(vstd::slice::slice_subrange(chunk, taken, chunk.len()));
            assert(buffer@ =~= chunk@.skip(taken as int));
            position = at;
            segment_left = left;
            error = e;
        } else {
            buffer.extend_from_slice(chunk);
            assert(buffer@ =~= old(self).pending() + chunk@);
            let (taken, at, left, e) = drain_records(
                self.file_len,
                self.processed_len,
                self.heap_dump_remaining_len,
                buffer.as_slice(),
                records,
            );
            // the rest moves to the front of the buffer, which keeps its storage
            let rest = copy_bytes(buffer.as_slice(), taken, buffer.len());
            buffer.clear();
            buffer.extend_from_slice(rest.as_slice());
            assert(buffer@ =~= (old(self).pending() + chunk@).skip(taken as int));
            position = at;
            segment_left = left;
            error = e;
        }
        *self = HprofRecordStreamParser {
            file_len: self.file_len,
            processed_len: position,
            heap_dump_remaining_len: segment_left,
            loop_buffer: buffer,
        };
        match error {
            None => Ok(()),
            Some(e) => Err(e),
        }
    }

    /// How the stream stands when the input has ended: well, where every
    /// byte that arrived went into a record and no heap-dump segment is
    /// open; cut short otherwise.
    pub fn finish(&self) -> (r: Result<(), HprofSlurpError>)
        ensures
            match r {
                Ok(()) => self.pending().len() == 0 && self.segment_left() == 0,
                Err(e) => e == HprofSlurpError::TruncatedInput && !(self.pending().len() == 0
                    && self.segment_left() == 0),
            },
    {
        if self.loop_buffer.len() == 0 && self.heap_dump_remaining_len == 0 {
            Ok(())
        } else {
            Err(HprofSlurpError::TruncatedInput)
        }
    }
}

/// More bytes behind a buffer change no step that the buffer decides: the
/// record that it yields, or the error.
pub proof fn lemma_step_stable(
    file_len: int,
    position: int,
    segment_left: int,
    a: Seq<u8>,
    b: Seq<u8>,
)
    ensures
        !(next_step(file_len, position, segment_left, a) is NeedMore) ==> next_step(
            file_len,
            position,
            segment_left,
            a + b,
        ) == next_step(file_len, position, segment_left, a),
{
    reveal(next_step);
    let ab = a + b;
    assert(a.is_prefix_of(ab)) by {
        assert(a =~= ab.subrange(0, a.len() as int));
    }
    lemma_prefix_reads(a, ab);
    if segment_left > 0 {
        let window_a = if a.len() < segment_left {
            a
        } else {
            a.take(segment_left)
        };
        let window_ab = if ab.len() < segment_left {
            ab
        } else {
            ab.take(segment_left)
        };
        assert(window_a.is_prefix_of(window_ab)) by {
            assert(window_a =~= window_ab.subrange(0, window_a.len() as int));
        }
        lemma_gc_record_stable(window_a, window_ab);
        if a.len() >= segment_left {
            assert(window_a =~= window_ab);
        }
    }
}

/// Whether nothing can be taken off the front of `pending`: it ends before
/// its first record does.
pub open spec fn is_drained(file_len: int, position: int, segment_left: int, pending: Seq<u8>) -> bool {
    next_step(file_len, position, segment_left, pending) is NeedMore
}

/// What draining leaves cannot be drained further, and what it took lies
/// in front of what it left. Each record took at least nine bytes.
pub proof fn lemma_drain_rest(file_len: int, position: int, segment_left: int, buf: Seq<u8>)
    ensures
        ({
            let d = drain(file_len, position, segment_left, buf);
            let taken = buf.len() - d.rest.len();
            &&& d.error is None ==> is_drained(file_len, d.position, d.segment_left, d.rest)
            &&& d.error matches Some(e) ==> next_step(
                file_len,
                d.position,
                d.segment_left,
                d.rest,
            ) == Step::Fail(e)
            &&& 0 <= taken
            &&& d.rest == buf.skip(taken)
            &&& d.position == position + taken
            &&& d.records.len() * RECORD_HEADER_LENGTH <= taken
            &&& 0 <= segment_left && position + segment_left <= file_len ==> 0 <= d.segment_left
                && d.position + d.segment_left <= file_len
        }),
    decreases buf.len(),
{
    lemma_step_length(file_len, position, segment_left, buf);
    match next_step(file_len, position, segment_left, buf) {
        Step::Emit { record, used, segment_left: left } => {
            lemma_drain_rest(file_len, position + used, left, buf.skip(used));
            let after = drain(file_len, position + used, left, buf.skip(used));
            let taken = buf.skip(used).len() - after.rest.len();
            assert(buf.skip(used).skip(taken) =~= buf.skip(used + taken));
        },
        _ => {
            assert(buf.skip(0) =~= buf);
        },
    }
}

/// Draining two runs of bytes as one is draining the first, then what
/// that left with the second behind it. Where the first run already holds
/// the error, the second adds nothing.
pub proof fn lemma_drain_append(
    file_len: int,
    position: int,
    segment_left: int,
    a: Seq<u8>,
    b: Seq<u8>,
)
    ensures
        ({
            let first = drain(file_len, position, segment_left, a);
            let whole = drain(file_len, position, segment_left, a + b);
            if first.error is Some {
                whole == (Drained { rest: first.rest + b, ..first })
            } else {
                whole == after_records(
                    first.records,
                    drain(file_len, first.position, first.segment_left, first.rest + b),
                )
            }
        }),
    decreases a.len(),
{
    let first = drain(file_len, position, segment_left, a);
    let whole = drain(file_len, position, segment_left, a + b);
    lemma_step_stable(file_len, position, segment_left, a, b);
    lemma_step_length(file_len, position, segment_left, a);
    match next_step(file_len, position, segment_left, a) {
        Step::Emit { record, used, segment_left: left } => {
            let tail = a.skip(used);
            assert((a + b).skip(used) =~= tail + b);
            lemma_drain_append(file_len, position + used, left, tail, b);
            let first_tail = drain(file_len, position + used, left, tail);
            let whole_tail = drain(file_len, position + used, left, tail + b);
            if first_tail.error is Some {
            } else {
                let second = drain(
                    file_len,
                    first_tail.position,
                    first_tail.segment_left,
                    first_tail.rest + b,
                );
                assert(seq![record] + (first_tail.records + second.records) =~= (seq![record]
                    + first_tail.records) + second.records);
            }
        },
        Step::NeedMore => {
            assert(Seq::<RecordView>::empty() + whole.records =~= whole.records);
        },
        Step::Fail(e) => {},
    }
}

/// An error stays: where draining stopped at an error, more bytes behind
/// what was left yield no record and the same error.
pub proof fn lemma_error_stays(
    file_len: int,
    position: int,
    segment_left: int,
    buf: Seq<u8>,
    more: Seq<u8>,
)
    requires
        drain(file_len, position, segment_left, buf).error is Some,
    ensures
        ({
            let d = drain(file_len, position, segment_left, buf);
            drain(file_len, d.position, d.segment_left, d.rest + more) == (Drained {
                records: Seq::empty(),
                rest: d.rest + more,
                ..d
            })
        }),
{
    let d = drain(file_len, position, segment_left, buf);
    lemma_drain_rest(file_len, position, segment_left, buf);
    lemma_step_stable(file_len, d.position, d.segment_left, d.rest, more);
}

/// What a parser yields when it is given `chunks` one after another while
/// it holds `pending`; it stops at the first chunk that brings an error.
pub open spec fn drain_chunks(
    file_len: int,
    position: int,
    segment_left: int,
    pending: Seq<u8>,
    chunks: Seq<Seq<u8>>,
) -> Drained
    decreases chunks.len(),
{
    if chunks.len() == 0 {
        Drained { records: Seq::empty(), position, segment_left, rest: pending, error: None }
    } else {
        let first = drain(file_len, position, segment_left, pending + chunks.first());
        if first.error is Some {
            first
        } else {
            after_records(
                first.records,
                drain_chunks(
                    file_len,
                    first.position,
                    first.segment_left,
                    first.rest,
                    chunks.drop_first(),
                ),
            )
        }
    }
}

/// The records of a stream do not depend on how the stream is cut into
/// chunks: given chunk by chunk, a parser yields the records, ends at the
/// position and meets the error that it does when it is given all the
/// bytes at once.
pub proof fn lemma_chunking_invariance(
    file_len: int,
    position: int,
    segment_left: int,
    pending: Seq<u8>,
    chunks: Seq<Seq<u8>>,
)
    requires
        is_drained(file_len, position, segment_left, pending),
    ensures
        ({
            let parts = drain_chunks(file_len, position, segment_left, pending, chunks);
            let whole = drain(file_len, position, segment_left, pending + chunks.flatten());
            &&& parts.records == whole.records
            &&& parts.error == whole.error
            &&& parts.position == whole.position
            &&& parts.segment_left == whole.segment_left
            &&& parts.error is None ==> parts.rest == whole.rest
        }),
    decreases chunks.len(),
{
    if chunks.len() == 0 {
        assert(pending + chunks.flatten() =~= pending);
    } else {
        let head = chunks.first();
        let tail = chunks.drop_first();
        assert(pending + chunks.flatten() =~= (pending + head) + tail.flatten());
        lemma_drain_append(file_len, position, segment_left, pending + head, tail.flatten());
        let first = drain(file_len, position, segment_left, pending + head);
        if first.error is None {
            lemma_drain_rest(file_len, position, segment_left, pending + head);
            lemma_chunking_invariance(
                file_len,
                first.position,
                first.segment_left,
                first.rest,
                tail,
            );
        }
    }
}

/// One byte behind a stream that ends where a record ends adds no record
/// and is kept: the stream then ends cut short.
pub proof fn lemma_trailing_byte(
    file_len: int,
    position: int,
    segment_left: int,
    buf: Seq<u8>,
    byte: u8,
)
    requires
        drain(file_len, position, segment_left, buf).error is None,
        drain(file_len, position, segment_left, buf).rest.len() == 0,
        drain(file_len, position, segment_left, buf).segment_left == 0,
    ensures
        ({
            let d = drain(file_len, position, segment_left, buf);
            let longer = drain(file_len, position, segment_left, buf + seq![byte]);
            &&& longer.records == d.records
            &&& longer.error is None
            &&& longer.position == d.position
            &&& longer.segment_left == 0
            &&& longer.rest == seq![byte]
        }),
{
    let d = drain(file_len, position, segment_left, buf);
    lemma_drain_append(file_len, position, segment_left, buf, seq![byte]);
    assert(d.rest + seq![byte] =~= seq![byte]);
    assert(next_step(file_len, d.position, 0, seq![byte]) is NeedMore) by {
        reveal(next_step);
    }
    assert(d.records + Seq::<RecordView>::empty() =~= d.records);
}

/// The records of a stream that is read without an error do not depend on
/// the length that the file is said to have, as long as the file is no
/// shorter: a longer file refuses nothing that a shorter one takes.
pub proof fn lemma_drain_longer_file(
    file_len: int,
    longer: int,
    position: int,
    segment_left: int,
    buf: Seq<u8>,
)
    requires
        file_len <= longer,
        drain(file_len, position, segment_left, buf).error is None,
    ensures
        drain(longer, position, segment_left, buf) == drain(file_len, position, segment_left, buf),
    decreases buf.len(),
{
    lemma_step_length(file_len, position, segment_left, buf);
    assert(!(next_step(file_len, position, segment_left, buf) is Fail) ==> next_step(
        longer,
        position,
        segment_left,
        buf,
    ) == next_step(file_len, position, segment_left, buf)) by {
        reveal(next_step);
    }
    match next_step(file_len, position, segment_left, buf) {
        Step::Emit { record, used, segment_left: left } => {
            lemma_drain_longer_file(file_len, longer, position + used, left, buf.skip(used));
        },
        _ => {},
    }
}

} // verus!
