//! What can go wrong between the host and the device.

use vstd::prelude::*;

verus! {

/// A failure of the transport: of the link itself, or of the framing of
/// what came over it.
#[derive(Debug, Clone, PartialEq, Eq)]
pub enum Error {
    /// The device to connect to was not found.
    DeviceNotFound,
    /// The device is no longer available.
    DeviceDisconnected,
    /// Nothing arrived from the device in time.
    DeviceReadTimeout,
    /// The device produced a chunk of this size, which is not a chunk's size.
    UnexpectedChunkSizeFromDevice(usize),
    /// A chunk does not start with the protocol's marker, or a message's
    /// first chunk lacks the header's marker.
    DeviceBadMagic,
    /// The header names this message type, which does not exist.
    InvalidMessageType(u32),
    /// The chunks at hand are fewer or more than the header's length asks for.
    UnexpectedChunkCount,
    /// A payload of this many bytes does not fit the header's 32-bit length.
    MessageTooLong(usize),
    /// The task that serialises access to the device cannot be reached.
    Internal(String),
    /// The browser's USB bridge reported a failure.
    WebUsb(String),
}

} // verus!
