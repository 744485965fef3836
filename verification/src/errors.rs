//! The ways in which the ingestion of a heap dump can fail.

use vstd::prelude::*;

verus! {

/// Why the ingestion of a heap dump stopped.
#[derive(Debug, Clone, PartialEq, Eq)]
pub enum HprofSlurpError {
    /// The underlying read failed.
    Io { message: String },
    /// The file header could not be decoded.
    InvalidHprofFile { message: String },
    /// The header declares an identifier width other than 4 or 8 bytes.
    InvalidIdSize,
    /// The header declares 4-byte identifiers, which are refused.
    UnsupportedIdSize { message: String },
    /// The header block does not have the length of a file header.
    InvalidHeaderSize,
    /// The input ended in the middle of a record.
    TruncatedInput,
    /// A tag byte that no record kind owns, with its offset in the file.
    UnknownTag(u8, u64),
    /// A record declares a length that its file or its layout cannot hold.
    CorruptLength,
    /// A sub-record runs past the end of the segment that holds it.
    SubRecordOverflow,
    /// A worker stopped before it handed its result over.
    WorkerPanic,
}

/// What an [`HprofSlurpError`] says, with its messages as sequences of characters.
pub enum HprofSlurpErrorView {
    Io { message: Seq<char> },
    InvalidHprofFile { message: Seq<char> },
    InvalidIdSize,
    UnsupportedIdSize { message: Seq<char> },
    InvalidHeaderSize,
    TruncatedInput,
    UnknownTag(u8, u64),
    CorruptLength,
    SubRecordOverflow,
    WorkerPanic,
}

impl DeepView for HprofSlurpError {
    type V = HprofSlurpErrorView;

    open spec fn deep_view(&self) -> HprofSlurpErrorView {
        match *self {
            HprofSlurpError::Io { message } => HprofSlurpErrorView::Io { message: message@ },
            HprofSlurpError::InvalidHprofFile { message } => HprofSlurpErrorView::InvalidHprofFile {
                message: message@,
            },
            HprofSlurpError::InvalidIdSize => HprofSlurpErrorView::InvalidIdSize,
            HprofSlurpError::UnsupportedIdSize { message } => HprofSlurpErrorView::UnsupportedIdSize {
                message: message@,
            },
            HprofSlurpError::InvalidHeaderSize => HprofSlurpErrorView::InvalidHeaderSize,
            HprofSlurpError::TruncatedInput => HprofSlurpErrorView::TruncatedInput,
            HprofSlurpError::UnknownTag(tag, offset) => HprofSlurpErrorView::UnknownTag(tag, offset),
            HprofSlurpError::CorruptLength => HprofSlurpErrorView::CorruptLength,
            HprofSlurpError::SubRecordOverflow => HprofSlurpErrorView::SubRecordOverflow,
            HprofSlurpError::WorkerPanic => HprofSlurpErrorView::WorkerPanic,
        }
    }
}

} // verus!
