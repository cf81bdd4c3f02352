//! The structured errors of the codec. Every failure of parsing, lookup or
//! text decoding is reported through one of these kinds; nothing panics.

use vstd::prelude::*;

verus! {

/// What went wrong while parsing, looking up or decoding.
#[derive(Debug, Clone, Copy, PartialEq, Eq, Structural)]
pub enum ChunkError {
    /// The first eight bytes do not match the PNG signature.
    BadSignature,
    /// A candidate chunk span has fewer than twelve bytes.
    TooShort,
    /// A declared chunk length extends past the end of the buffer.
    TruncatedChunk,
    /// The recomputed CRC differs from the stored one.
    CrcMismatch,
    /// Payload bytes are not valid UTF-8 where text was requested.
    EncodingError,
    /// No chunk with the requested type name exists.
    NotFound,
    /// A type name is not exactly four single-byte characters.
    InvalidTypeString,
}

} // verus!
