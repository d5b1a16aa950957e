//! A verified reader for the POSIX "ustar" tape-archive format.
//!
//! An archive is a run of 512-byte blocks: for each member a header block,
//! then the member's content, padded to a whole number of blocks.
//!
//! - [`octal`] and [`text`] decode the two kinds of header field: numbers
//!   written as octal ASCII digits, and NUL-terminated text.
//! - [`header`] splits a block into the fields of a header and decodes them.
//! - [`reader`] walks through the bytes of an archive, member by member.
//! - [`archive`] states how members are laid out, and proves that the reader
//!   finds in a well-formed archive exactly the members that were laid out.
//! - [`decimal`] writes numbers out for [`header::PosixHeader::describe`].

pub mod archive;
pub mod decimal;
pub mod header;
pub mod octal;
pub mod reader;
pub mod text;

pub use crate::header::{
    decode, verify_checksum, EntryKind, HeaderDecodeResult, PosixHeader, BLOCK_SIZE,
};
pub use crate::reader::{ArchiveReader, Entry, ReadError};
pub use crate::text::lossy_string;
