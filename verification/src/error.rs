//! What can go wrong: a frame that is refused on the way in, a message that
//! cannot be framed on the way out.

use vstd::prelude::*;

verus! {

/// Why the decoder refused a frame. Neither reason is fatal: the decoder moves
/// on and keeps reading.
#[derive(Clone, Copy, Debug, PartialEq, Eq, Structural)]
pub enum RejectReason {
    /// The checksum computed over the frame differs from the one it carries.
    ChecksumMismatch,
    /// The frame is intact, but the message catalog cannot decode its payload.
    PayloadDecodeError,
}

/// Why a message could not be put on the wire.
#[derive(Clone, Copy, Debug, PartialEq, Eq, Structural)]
pub enum EncodeError {
    /// The serialised payload is longer than the 255 bytes a frame can carry.
    PayloadTooLarge,
    /// The message catalog gave no serialised payload for the message.
    SerializationFailed,
}

impl RejectReason {
    /// A short description for logs.
    pub fn describe(&self) -> (text: &'static str)
        ensures
            *self == RejectReason::ChecksumMismatch ==> text@ == "checksum mismatch"@,
            *self == RejectReason::PayloadDecodeError ==> text@ == "payload decode error"@,
    {
        match self {
            RejectReason::ChecksumMismatch => "checksum mismatch",
            RejectReason::PayloadDecodeError => "payload decode error",
        }
    }
}

impl EncodeError {
    /// A short description for logs.
    pub fn describe(&self) -> (text: &'static str)
        ensures
            *self == EncodeError::PayloadTooLarge ==> text@ == "payload too large"@,
            *self == EncodeError::SerializationFailed ==> text@ == "serialization failed"@,
    {
        match self {
            EncodeError::PayloadTooLarge => "payload too large",
            EncodeError::SerializationFailed => "serialization failed",
        }
    }
}

} // verus!
