//! The error taxonomy of the codec layer. Every failure of a codec operation
//! is one of these kinds; an error aborts the operation at once and no
//! partial value is returned.

use vstd::prelude::*;

verus! {

/// A typed codec failure.
#[derive(Debug, Clone, Copy, PartialEq, Eq, Structural)]
pub enum Error {
    /// The continuation-bit budget was exhausted without a terminating byte
    /// (5 bytes for VarInt, 10 for VarLong).
    MalformedVarint,
    /// The underlying byte source was exhausted before the value was fully
    /// read.
    ShortRead,
    /// A bounded string or JSON length exceeds its configured maximum.
    /// `length` is the offending byte length; `reported_max` is the bound as
    /// the protocol reports it, which is four times the configured maximum
    /// even though the enforced bound is three times (a quirk of the wire
    /// protocol's original message, kept as observable behaviour).
    BoundExceeded { byte_length: usize, reported_max: u128 },
    /// A decoded length prefix is negative.
    InvalidLength { length: i32 },
    /// Decoded bytes are not valid UTF-8, or a structured value failed to
    /// parse or serialize.
    EncodingError,
    /// The underlying byte source or sink reported a failure. The verified
    /// codecs operate on in-memory buffers and never produce this kind; it
    /// exists for the adapters that run the codecs over real streams.
    IoError,
}

} // verus!
