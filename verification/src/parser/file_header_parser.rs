//! The header of an HPROF file.

use vstd::prelude::*;
use crate::parser::primitive_parsers::{be_u32, be_u64, copy_bytes, read_u32, read_u64, read_u8};

verus! {

/// What the first bytes of an HPROF file say of the file.
#[derive(Debug, Clone, PartialEq, Eq)]
pub struct FileHeader {
    /// The format string, without the zero byte that ends it.
    pub format: Vec<u8>,
    /// The number of bytes that an identifier takes.
    pub size_pointers: u32,
    /// When the dump was taken, in milliseconds since the epoch.
    pub timestamp: u64,
}

/// A [`FileHeader`] with its format string as a sequence of bytes.
pub struct FileHeaderView {
    pub format: Seq<u8>,
    pub size_pointers: u32,
    pub timestamp: u64,
}

impl DeepView for FileHeader {
    type V = FileHeaderView;

    open spec fn deep_view(&self) -> FileHeaderView {
        FileHeaderView {
            format: self.format@,
            size_pointers: self.size_pointers,
            timestamp: self.timestamp,
        }
    }
}

/// The index of the first zero byte of `s` that is not before `from`; the
/// length of `s` where there is none.
pub open spec fn nul_position(s: Seq<u8>, from: int) -> int
    decreases s.len() - from,
{
    if from >= s.len() {
        s.len() as int
    } else if s[from] == 0 {
        from
    } else {
        nul_position(s, from + 1)
    }
}

/// The header that `s` starts with, and the number of bytes that it takes:
/// a format string that a zero byte ends, the identifier size in four bytes
/// and a timestamp in eight.
pub open spec fn decode_file_header(s: Seq<u8>) -> Option<(FileHeaderView, int)> {
    let n = nul_position(s, 0);
    if s.len() < n + 13 {
        None
    } else {
        Some(
            (
                FileHeaderView {
                    format: s.take(n),
                    size_pointers: be_u32(s, n + 1),
                    timestamp: be_u64(s, n + 5),
                },
                n + 13,
            ),
        )
    }
}

/// Decodes the header that `i` starts with; returns it with the number of
/// bytes that it takes, or `None` where `i` ends before the header does.
pub fn parse_file_header(i: &[u8]) -> (r: Option<(FileHeader, usize)>)
    ensures
        match r {
            Some((header, used)) => decode_file_header(i@) == Some((header.deep_view(), used as int))
                && used <= i.len(),
            None => decode_file_header(i@) is None,
        },
{
    let len = i.len();
    let mut n: usize = 0;
    while n < len && read_u8(i, n) != 0
        invariant
            n <= len == i.len(),
            nul_position(i@, 0) == nul_position(i@, n as int),
        decreases len - n,
    {
        n += 1;
    }
    if len - n < 13 {
        return None;
    }
    let format = copy_bytes(i, 0, n);
    assert(format@ =~= i@.take(n as int));
    Some((FileHeader { format, size_pointers: read_u32(i, n + 1), timestamp: read_u64(i, n + 5) }, n + 13))
}

} // verus!
