//! The binary layout of an HPROF file.

pub mod field_encoder;
pub mod file_header_parser;
pub mod gc_record;
pub mod primitive_parsers;
pub mod record;
pub mod record_parser;
pub mod record_stream_parser;
