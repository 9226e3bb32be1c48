//! Sequential reading of fixed-width numbers, byte runs and text from a byte
//! source with a cursor.
//!
//! [`traits::SizedNumber`] and [`traits::EndianNumber`] say how a type is laid
//! out in bytes; [`bytes::SeqByteReader`] and [`bytes::ESeqByteReader`] peek
//! and consume such values at the cursor of any [`source::ByteSource`].

/// The readers.
pub mod bytes;
/// Byte runs as numbers, in either byte order.
pub mod endian;
/// Floating-point numbers as bit patterns.
pub mod float;
/// The traits and types of this library, gathered.
pub mod prelude;
/// Byte sources and the in-memory cursor.
pub mod source;
/// The codec traits.
pub mod traits;
