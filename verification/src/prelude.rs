//! Everything a user of the readers needs, in one import.
pub use crate::bytes::{ESeqByteReader, SeqByteReader};
pub use crate::float::{Binary32, Binary64};
pub use crate::source::{ByteCursor, ByteSource};
pub use crate::traits::{EndianNumber, SizedNumber};
