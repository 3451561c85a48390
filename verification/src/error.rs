//! What a call on a device can fail with.

use vstd::prelude::*;
use crate::client::InteractionType;
use crate::messages::{Failure, MessageType};

verus! {

/// A failure of a call on a device.
#[derive(Debug)]
pub enum Error {
    /// The transport could not be opened.
    TransportConnect(crate::transport::Error),
    /// The request could not be written to the transport.
    TransportSendMessage(crate::transport::Error),
    /// The reply could not be read from the transport.
    TransportReceiveMessage(crate::transport::Error),
    /// The reply is of this type, which is neither the expected one nor one
    /// that the exchange knows how to go on from.
    UnexpectedMessageType(MessageType),
    /// The message codec failed.
    Protobuf(protobuf::ProtobufError),
    /// The device refused, and said so with this message.
    FailureResponse(Failure),
    /// The device asks for this interaction, which was not what the caller
    /// was after.
    UnexpectedInteractionRequest(InteractionType),
    /// The entropy at hand is not exactly 32 bytes long.
    InvalidEntropy,
}

} // verus!
