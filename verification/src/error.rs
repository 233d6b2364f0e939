//! The reasons for which a buffer is rejected.

use vstd::prelude::*;

verus! {

/// Why a decode was abandoned. Every failure is final for the value being
/// parsed: nothing is recovered from a rejected buffer.
#[derive(Debug, Clone, Copy, PartialEq, Eq, Structural)]
pub enum DecodeError {
    /// Fewer bytes remain than the next field needs.
    Truncated,
    /// The leading text of a packet is not the expected domain fragment.
    InvalidDomainFragment,
    /// The packet identifier names no known packet type.
    UnknownPacketId,
    /// The product type code of a packet header is outside its enumeration.
    InvalidProductType,
    /// The opcode of an operation record is outside its enumeration.
    InvalidOpcode,
    /// The first reserved word of an operation record is all ones.
    SentinelRejected,
    /// The argument of an operation record is not text that ends in its
    /// only zero byte.
    BadStringTermination,
    /// The total length in a response header is larger than the buffer.
    DeclaredLengthExceedsAvailable,
    /// A field that the protocol fixes to zero holds another value.
    UnexpectedReservedValue,
    /// A text field is present in full but holds more than
    /// [`MAX_TEXT_LEN`](crate::text::MAX_TEXT_LEN) bytes, which the text
    /// decoder cannot size a buffer for on this machine. Where `usize` has
    /// 64 bits no 32-bit length field reaches that bound.
    TextTooLong,
}

} // verus!
