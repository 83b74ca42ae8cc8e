//! The ways in which decoding or a transaction can fail.

use vstd::prelude::*;

verus! {

/// Why a decode, an extraction or a transaction failed.
#[derive(Debug, Clone, Copy, PartialEq, Eq, Structural)]
pub enum NetlinkError {
    /// A buffer ends before a fixed-size structure or a declared length does.
    Truncated,
    /// A value is present but breaks a rule of its type.
    InvalidData,
    /// A response carries another sequence number than the request.
    SequenceMismatch,
    /// A response was sent to another port id than this session's.
    PortMismatch,
    /// The kernel reported an error; the field is the magnitude of its code.
    Remote(u32),
    /// Exactly one result was expected and none came.
    NotFound,
    /// Exactly one result was expected and several came.
    Ambiguous,
}

} // verus!
