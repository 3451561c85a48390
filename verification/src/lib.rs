//! Client side of the wire protocol spoken by Trezor hardware wallets:
//! key derivation paths, the chunked framing of messages, the transport
//! interface, device descriptors and the call/response state machine.

use vstd::prelude::*;

pub mod client;
pub mod error;
pub mod messages;
pub mod path;
pub mod transport;

pub use client::{
    trezor_with_transport, ButtonRequest, EntropyRequest, InteractionType, PinMatrixRequest,
    ResultHandler, Trezor, TrezorResponse,
};
pub use error::Error;
pub use path::KeyDerivationPath;

verus! {

/// The models of the device.
#[derive(PartialEq, Eq, Clone, Copy, Debug, Structural)]
pub enum TrezorModel {
    One,
    T,
}

/// A device that was found and is not connected to: all that is needed to
/// open one transport to it.
#[derive(Clone, Debug, PartialEq, Eq)]
pub struct AvailableDevice {
    pub model: TrezorModel,
    pub debug: bool,
    pub transport: transport::AvailableDeviceTransport,
}

} // verus!
