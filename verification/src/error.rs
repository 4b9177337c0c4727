//! What can go wrong on the bus.

use vstd::prelude::*;

verus! {

/// A transfer that completed but did not carry what the protocol asks for.
#[derive(Clone, Copy, Debug, PartialEq, Eq, Structural)]
pub enum ProtocolError {
    /// The transport did not take a whole command frame.
    ShortWrite,
    /// The transport did not deliver the number of bytes that were asked for.
    ShortRead,
    /// A word arrived with a checksum byte that does not match its payload.
    ChecksumMismatch,
    /// A particulate frame does not begin with the sensor's signature.
    BadFrameHeader,
}

/// A failure that the transport reported, with the operating system's error
/// code.
#[derive(Clone, Copy, Debug, PartialEq, Eq, Structural)]
pub struct IoError {
    pub code: i32,
}

/// Why a polling cycle ended.
#[derive(Clone, Copy, Debug, PartialEq, Eq, Structural)]
pub enum SensorError {
    /// The transport failed.
    Io(IoError),
    /// The transport worked and the protocol was violated.
    Protocol(ProtocolError),
}

} // verus!
