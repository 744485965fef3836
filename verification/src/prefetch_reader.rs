//! The plan by which the body of a file is read in chunks.

use vstd::prelude::*;
use crate::errors::HprofSlurpError;

verus! {

/// The size of the next chunk of a body of which `remaining` bytes are
/// still to be read, `read_size` bytes at a time.
pub open spec fn chunk_len(remaining: int, read_size: int) -> int {
    if remaining < read_size {
        remaining
    } else {
        read_size
    }
}

/// The chunks in which `body` is read, `read_size` bytes at a time: each of
/// `read_size` bytes but the last, which holds what is left.
pub open spec fn chunks_of(body: Seq<u8>, read_size: int) -> Seq<Seq<u8>>
    decreases body.len(),
{
    if body.len() == 0 || read_size <= 0 {
        Seq::empty()
    } else {
        let n = chunk_len(body.len() as int, read_size);
        seq![body.take(n)] + chunks_of(body.skip(n), read_size)
    }
}

/// The chunks of a body, one behind the other, are the body, byte for
/// byte; no chunk is empty and none is longer than the read size.
pub proof fn lemma_chunks_cover_body(body: Seq<u8>, read_size: int)
    requires
        0 < read_size,
    ensures
        chunks_of(body, read_size).flatten() == body,
        forall|i: int|
            0 <= i < chunks_of(body, read_size).len() ==> 0 < (#[trigger] chunks_of(
                body,
                read_size,
            )[i]).len() <= read_size,
    decreases body.len(),
{
    let chunks = chunks_of(body, read_size);
    if body.len() == 0 {
        assert(chunks.flatten() =~= body);
    } else {
        let n = chunk_len(body.len() as int, read_size);
        let rest = chunks_of(body.skip(n), read_size);
        lemma_chunks_cover_body(body.skip(n), read_size);
        assert(chunks.first() == body.take(n));
        assert(chunks.drop_first() =~= rest);
        assert(body.take(n) + body.skip(n) =~= body);
        assert forall|i: int| 0 <= i < chunks.len() implies 0 < (#[trigger] chunks[i]).len()
            <= read_size by {
            if i > 0 {
                assert(chunks[i] == rest[i - 1]);
            }
        }
    }
}

/// Plans the reading of the body of a file in chunks of a fixed size: says
/// how many bytes to ask for next, and takes note of what came.
pub struct PrefetchReader {
    file_len: usize,
    processed_len: usize,
    read_size: usize,
}

impl PrefetchReader {
    #[verifier::type_invariant]
    spec fn within_file(self) -> bool {
        self.processed_len <= self.file_len && self.read_size > 0
    }

    /// The number of bytes of the file that are still to be read.
    pub closed spec fn remaining(self) -> int {
        self.file_len - self.processed_len
    }

    /// The number of bytes that are asked for at a time.
    pub closed spec fn read_size(self) -> int {
        self.read_size as int
    }

    /// A reader for a file of `file_len` bytes of which the first
    /// `processed_len` were read already, `read_size` bytes at a time.
    pub fn new(file_len: usize, processed_len: usize, read_size: usize) -> (reader: Self)
        requires
            processed_len <= file_len,
            0 < read_size,
        ensures
            reader.remaining() == file_len - processed_len,
            reader.read_size() == read_size,
    {
        PrefetchReader { file_len, processed_len, read_size }
    }

    /// Whether the whole file was read.
    pub fn is_done(&self) -> (done: bool)
        ensures
            done == (self.remaining() == 0),
            self.remaining() >= 0,
    {
        proof {
            use_type_invariant(self);
        }
        self.processed_len == self.file_len
    }

    /// The number of bytes to ask for next: the read size, or what is left
    /// of the file where that is less.
    pub fn next_size(&self) -> (size: usize)
        ensures
            size == chunk_len(self.remaining(), self.read_size()),
            0 <= size <= self.remaining(),
            self.remaining() > 0 ==> size > 0,
    {
        proof {
            use_type_invariant(self);
        }
        let remaining = self.file_len - self.processed_len;
        if remaining > self.read_size {
            self.read_size
        } else {
            remaining
        }
    }

    /// Takes note that `read` bytes came of the chunk that was asked for.
    /// A whole chunk moves the reader on; less than the chunk means that
    /// the file ends before its length says, and the reader stays.
    pub fn chunk_read(&mut self, read: usize) -> (r: Result<(), HprofSlurpError>)
        requires
            read <= chunk_len(old(self).remaining(), old(self).read_size()),
        ensures
            final(self).read_size() == old(self).read_size(),
            match r {
                Ok(()) => read == chunk_len(old(self).remaining(), old(self).read_size())
                    && final(self).remaining() == old(self).remaining() - read,
                Err(e) => e == HprofSlurpError::TruncatedInput && read < chunk_len(
                    old(self).remaining(),
                    old(self).read_size(),
                ) && final(self).remaining() == old(self).remaining(),
            },
    {
        proof {
            use_type_invariant(&*self);
        }
        if read < self.next_size() {
            Err(HprofSlurpError::TruncatedInput)
        } else {
            self.processed_len = self.processed_len + read;
            Ok(())
        }
    }
}

} // verus!
