//! The kinds of failure that the proxy core distinguishes.

use vstd::prelude::*;

verus! {

/// Why a frame, a payload or a request was refused.
#[derive(Debug, Clone, Copy, PartialEq, Eq, Structural)]
pub enum ErrorKind {
    /// The frame does not have six fields.
    MalformedFrame,
    /// One of the five numeric fields is not a decimal number that fits in a byte.
    BadField,
    /// The command field is a number above 4.
    UnknownCommand,
    /// A stream payload is not hexadecimal text of even length.
    BadHex,
    /// A stream payload is longer than its layout.
    BadPayload,
    /// A stream payload is shorter than its layout.
    ShortPayload,
    /// No firmware of the requested type and version is known.
    FirmwareNotFound,
    /// No node id is left to hand out.
    AllocOverflow,
}

} // verus!
