//! Messages as they travel, and the interface of whatever carries them.

use vstd::prelude::*;
use crate::messages::MessageType;
use crate::AvailableDevice;

pub mod error;
pub mod link;
pub mod protocol;
pub mod webusb;

pub use error::Error;
pub use link::{Link, LinkEvent, TracedLink, CHUNK_SIZE};
pub use protocol::ProtocolV1;
pub use webusb::{AvailableWebUsbTransport, WebUsbLink, WebUsbTransport};

verus! {

/// USB vendor and product id of the Trezor One.
pub const DEV_TREZOR_ONE: (u16, u16) = (0x534C, 0x0001);

/// USB vendor and product id of the Trezor T.
pub const DEV_TREZOR_T: (u16, u16) = (0x1209, 0x53C1);

/// What is needed to open a transport to a device that was found, by the
/// kind of the transport.
#[derive(Clone, Debug, PartialEq, Eq)]
pub enum AvailableDeviceTransport {
    /// A device behind the browser's USB bridge.
    WebUsb(AvailableWebUsbTransport),
}

/// Opens the transport that a descriptor stands for, whatever its kind.
pub fn connect(device: &AvailableDevice) -> (r: Result<WebUsbTransport, Error>)
    ensures
        r matches Ok(transport) && device.transport matches AvailableDeviceTransport::WebUsb(
            descriptor,
        ) && transport.link.device == descriptor.device,
{
    match &device.transport {
        AvailableDeviceTransport::WebUsb(_) => WebUsbTransport::connect(device),
    }
}

/// One protocol message as a mathematical value: its type and its payload.
pub struct Envelope {
    pub message_type: MessageType,
    pub payload: Seq<u8>,
}

/// A message's payload together with its type, as handed to a transport and
/// as received from one.
#[derive(Debug, Clone, PartialEq, Eq)]
pub struct ProtoMessage(pub MessageType, pub Vec<u8>);

impl View for ProtoMessage {
    type V = Envelope;

    open spec fn view(&self) -> Envelope {
        Envelope { message_type: self.0, payload: self.1@ }
    }
}

impl ProtoMessage {
    /// A message of the given type with the given payload.
    pub fn new(mt: MessageType, payload: Vec<u8>) -> (message: ProtoMessage)
        ensures
            message@ == (Envelope { message_type: mt, payload: payload@ }),
    {
        ProtoMessage(mt, payload)
    }

    /// The type of the message.
    pub fn message_type(&self) -> (mt: MessageType)
        ensures
            mt == self@.message_type,
    {
        self.0
    }

    /// The payload of the message.
    pub fn payload(&self) -> (payload: &[u8])
        ensures
            payload@ == self@.payload,
    {
        self.1.as_slice()
    }

    /// Gives up the payload.
    pub fn into_payload(self) -> (payload: Vec<u8>)
        ensures
            payload@ == self@.payload,
    {
        self.1
    }
}

/// What every way of talking to a device offers: sessions, and whole
/// messages in and out.
pub trait Transport {
    /// Begins a session, where the transport has sessions.
    fn session_begin(&mut self) -> Result<(), Error>;

    /// Ends the session.
    fn session_end(&mut self) -> Result<(), Error>;

    /// Writes one whole message.
    fn write_message(&mut self, message: ProtoMessage) -> Result<(), Error>;

    /// Reads one whole message.
    fn read_message(&mut self) -> Result<ProtoMessage, Error>;
}

/// One message-level call made on a transport, with what it was given or
/// what it gave.
pub enum Exchange {
    /// The message was written.
    Sent(Envelope),
    /// Writing the message failed with the error.
    SendFailed(Envelope, Error),
    /// The message was read.
    Received(ProtoMessage),
    /// Reading a message failed with the error.
    ReceiveFailed(Error),
}

impl Exchange {
    /// The record of a write of `message` that ended as `r`.
    pub open spec fn of_write(message: Envelope, r: Result<(), Error>) -> Exchange {
        match r {
            Ok(_) => Exchange::Sent(message),
            Err(e) => Exchange::SendFailed(message, e),
        }
    }

    /// The record of a read that ended as `r`.
    pub open spec fn of_read(r: Result<ProtoMessage, Error>) -> Exchange {
        match r {
            Ok(message) => Exchange::Received(message),
            Err(e) => Exchange::ReceiveFailed(e),
        }
    }
}

/// A transport together with the record of every message written to it and
/// read from it since it was wrapped. The transport is reached through this
/// type's two methods only, so the record is complete.
pub struct TracedTransport {
    transport: Box<dyn Transport>,
    trace: Ghost<Seq<Exchange>>,
}

impl TracedTransport {
    /// The calls made on the transport so far, oldest first.
    pub closed spec fn trace(&self) -> Seq<Exchange> {
        self.trace@
    }

    /// Wraps a transport; nothing is on record yet.
    pub fn new(transport: Box<dyn Transport>) -> (traced: Self)
        ensures
            traced.trace() == Seq::<Exchange>::empty(),
    {
        TracedTransport { transport, trace: Ghost(Seq::empty()) }
    }

    /// Writes one message and records the call.
    pub fn write_message(&mut self, message: ProtoMessage) -> (r: Result<(), Error>)
        ensures
            final(self).trace() == old(self).trace().push(Exchange::of_write(message@, r)),
    {
        let ghost envelope = message@;
        let r = self.transport.write_message(message);
        proof {
            self.trace@ = self.trace@.push(Exchange::of_write(envelope, r));
        }
        r
    }

    /// Reads one message and records the call.
    pub fn read_message(&mut self) -> (r: Result<ProtoMessage, Error>)
        ensures
            final(self).trace() == old(self).trace().push(Exchange::of_read(r)),
    {
        let r = self.transport.read_message();
        proof {
            self.trace@ = self.trace@.push(Exchange::of_read(r));
        }
        r
    }
}

} // verus!
