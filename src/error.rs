//! What can go wrong when encoding or decoding.
use vstd::prelude::*;

verus! {

/// Why one record cannot be encoded or decoded.
#[derive(Clone, Copy, Debug, PartialEq, Eq, Structural)]
pub enum RecordError {
    /// A description's UTF-8 form is longer than 65,535 bytes.
    DescriptionTooLong,
    /// A sequence has more than 4,294,967,295 symbols.
    SequenceTooLong,
    /// A description's bytes are not UTF-8.
    InvalidUtf8,
    /// A packed code that no symbol of the alphabet owns.
    InvalidCode(u8),
}

/// Why a file cannot be encoded or decoded.
#[derive(Clone, Copy, Debug, PartialEq, Eq, Structural)]
pub enum FileError {
    /// The input has no header byte.
    MissingHeader,
    /// The header's low six bits, when they are not the fixed marker.
    BadChecksum(u8),
    /// The header's two-bit alphabet tag, when no alphabet has it.
    UnknownAlphabet(u8),
    /// A record's fields run past the end of the input.
    Truncated,
    /// The record at position `index` (counting from 0) failed.
    Record { index: usize, error: RecordError },
}

} // verus!
