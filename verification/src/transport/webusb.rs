//! The browser's USB bridge, as far as it can be told without doing any
//! I/O: what to ask of the bridge, in which order, and what to make of its
//! answers.
//!
//! The bridge must be driven from one task. Every operation on a device
//! is therefore an action, handed to that task and answered by it; the
//! task takes the actions in the order in which they arrive.

use vstd::prelude::*;
use vstd::string::*;
use super::error::Error;
use super::link::CHUNK_SIZE;
use super::protocol::{
    build_chunk, count_chunks, fits, message_chunks, step, Decoder, Progress, ReadState,
    MAX_PAYLOAD_SIZE,
};
use super::{AvailableDeviceTransport, ProtoMessage};
use crate::{AvailableDevice, TrezorModel};

verus! {

/// A device as the bridge lists it.
#[derive(Clone, Debug, PartialEq, Eq)]
pub struct AvailableWebUsbDevice {
    pub path: String,
    pub debug: bool,
}

/// All that is needed to open a transport to a device behind the bridge.
#[derive(Clone, Debug, PartialEq, Eq)]
pub struct AvailableWebUsbTransport {
    pub device: AvailableWebUsbDevice,
}

/// One thing to ask of the bridge.
#[derive(Clone, Debug, PartialEq, Eq)]
pub enum WebUsbAction {
    /// Let the user grant access to a device.
    RequestDevice,
    /// List the devices that access was granted to.
    FindDevices,
    /// Write the chunk to the device at the path.
    WriteChunk { path: String, chunk: Vec<u8> },
    /// Read a chunk from the device at the path.
    ReadChunk { path: String },
}

impl WebUsbAction {
    /// This action writes `chunk` to the device at `path`.
    pub open spec fn writes(self, path: String, chunk: Seq<u8>) -> bool {
        self matches WebUsbAction::WriteChunk { path: to, chunk: bytes } && to == path && bytes@
            == chunk
    }

    /// This action reads a chunk from the device at `path`.
    pub open spec fn reads(self, path: String) -> bool {
        self matches WebUsbAction::ReadChunk { path: from } && from == path
    }
}

/// What became of an action that was handed to the task that owns the bridge.
pub enum Delivery<T> {
    /// The action could not be handed over; the text says why.
    NotSent(String),
    /// The task took the action and never answered; the text says why.
    Unanswered(String),
    /// The task's answer.
    Answered(Result<T, Error>),
}

impl<T> Delivery<T> {
    /// What the one who asked gets to see: the task's answer as it is, or
    /// an internal error where the task was out of reach.
    pub fn into_result(self) -> (r: Result<T, Error>)
        ensures
            match self {
                Delivery::NotSent(why) => r matches Err(Error::Internal(text)) && text@
                    == "Error sending event: "@ + why@,
                Delivery::Unanswered(why) => r matches Err(Error::Internal(text)) && text@
                    == "Error receiving result: "@ + why@,
                Delivery::Answered(answer) => r == answer,
            },
    {
        match self {
            Delivery::NotSent(why) => Err(
                Error::Internal("Error sending event: ".to_owned().concat(why.as_str())),
            ),
            Delivery::Unanswered(why) => Err(
                Error::Internal("Error receiving result: ".to_owned().concat(why.as_str())),
            ),
            Delivery::Answered(answer) => answer,
        }
    }
}

/// The calls on the bridge that can go wrong.
#[derive(Clone, Copy, Debug, PartialEq, Eq, Structural)]
pub enum BridgeCall {
    /// Setting the bridge up.
    Initialize,
    /// Asking the user for a device, and listing the devices.
    GetDevices,
    /// Reading the list of devices that the bridge returned.
    ReadDevices,
    /// Writing a chunk.
    WriteChunk,
    /// Reading a chunk.
    ReadChunk,
    /// Taking what was read as a buffer of bytes.
    TakeBuffer,
}

impl BridgeCall {
    /// How the account of a failure of this call begins.
    pub open spec fn failure_prefix(self) -> Seq<char> {
        match self {
            BridgeCall::Initialize => "Error initializing WebUSB: "@,
            BridgeCall::GetDevices => "Error getting devices: "@,
            BridgeCall::ReadDevices => "Error deserializing the list of available devices: "@,
            BridgeCall::WriteChunk => "Error writing a chunk: "@,
            BridgeCall::ReadChunk => "Error reading a chunk: "@,
            BridgeCall::TakeBuffer => "Expected 'ArrayBuffer', found: "@,
        }
    }

    /// The error for a failure of this call, of which the bridge said `detail`.
    pub fn failed(self, detail: &str) -> (e: Error)
        ensures
            e matches Error::WebUsb(text) && text@ == self.failure_prefix() + detail@,
    {
        let prefix = match self {
            BridgeCall::Initialize => "Error initializing WebUSB: ",
            BridgeCall::GetDevices => "Error getting devices: ",
            BridgeCall::ReadDevices => "Error deserializing the list of available devices: ",
            BridgeCall::WriteChunk => "Error writing a chunk: ",
            BridgeCall::ReadChunk => "Error reading a chunk: ",
            BridgeCall::TakeBuffer => "Expected 'ArrayBuffer', found: ",
        };
        Error::WebUsb(prefix.to_owned().concat(detail))
    }
}

/// The link to one device behind the bridge: it says what to ask of the
/// bridge for each chunk.
pub struct WebUsbLink {
    pub device: AvailableWebUsbDevice,
}

impl WebUsbLink {
    /// The action that writes `chunk` to this link's device.
    pub fn write_chunk(&self, chunk: Vec<u8>) -> (action: WebUsbAction)
        requires
            chunk@.len() == CHUNK_SIZE,
        ensures
            action.writes(self.device.path, chunk@),
    {
        WebUsbAction::WriteChunk { path: self.device.path.clone(), chunk }
    }

    /// The action that reads a chunk from this link's device.
    pub fn read_chunk(&self) -> (action: WebUsbAction)
        ensures
            action.reads(self.device.path),
    {
        WebUsbAction::ReadChunk { path: self.device.path.clone() }
    }
}

/// How the reading of one message goes on after a chunk.
pub enum ReadStep {
    /// Ask the bridge for the next chunk, and hand it to this decoder.
    Next(WebUsbAction, Decoder),
    /// The message is complete.
    Complete(ProtoMessage),
    /// The chunks are no message.
    Failed(Error),
}

/// The transport to one device behind the bridge: the chunked framing over
/// the device's link.
pub struct WebUsbTransport {
    pub link: WebUsbLink,
}

impl WebUsbTransport {
    /// Opens the transport that a descriptor stands for. Nothing is asked of
    /// the bridge yet.
    pub fn connect(device: &AvailableDevice) -> (r: Result<WebUsbTransport, Error>)
        ensures
            r matches Ok(transport) && device.transport matches AvailableDeviceTransport::WebUsb(
                descriptor,
            ) && transport.link.device == descriptor.device,
    {
        match &device.transport {
            AvailableDeviceTransport::WebUsb(descriptor) => Ok(
                WebUsbTransport {
                    link: WebUsbLink {
                        device: AvailableWebUsbDevice {
                            path: descriptor.device.path.clone(),
                            debug: descriptor.device.debug,
                        },
                    },
                },
            ),
        }
    }

    /// Nothing is to be done to begin a session.
    pub fn session_begin(&self) -> (actions: Vec<WebUsbAction>)
        ensures
            actions@.len() == 0,
    {
        Vec::new()
    }

    /// Nothing is to be done to end a session.
    pub fn session_end(&self) -> (actions: Vec<WebUsbAction>)
        ensures
            actions@.len() == 0,
    {
        Vec::new()
    }

    /// What to ask of the bridge to write a message: one write for each
    /// chunk of the message, in order, all to this transport's device.
    pub fn write_message(&self, message: &ProtoMessage) -> (r: Result<Vec<WebUsbAction>, Error>)
        ensures
            match r {
                Ok(actions) => {
                    &&& message@.payload.len() <= MAX_PAYLOAD_SIZE
                    &&& actions@.len() == message_chunks(message@).len()
                    &&& forall|i: int|
                        0 <= i < actions@.len() ==> (#[trigger] actions@[i]).writes(
                            self.link.device.path,
                            message_chunks(message@)[i],
                        )
                },
                Err(e) => message@.payload.len() > MAX_PAYLOAD_SIZE && e == Error::MessageTooLong(
                    message@.payload.len() as usize,
                ),
            },
    {
        if !fits(message) {
            return Err(Error::MessageTooLong(message.1.len()));
        }
        let n = count_chunks(message);
        let mut actions: Vec<WebUsbAction> = Vec::new();
        let mut i: u64 = 0;
        while i < n
            invariant
                i <= n,
                n == message_chunks(message@).len(),
                message@.payload.len() <= MAX_PAYLOAD_SIZE,
                actions@.len() == i,
                forall|k: int|
                    0 <= k < i ==> (#[trigger] actions@[k]).writes(
                        self.link.device.path,
                        message_chunks(message@)[k],
                    ),
            decreases n - i,
        {
            let chunk = build_chunk(message, i);
            actions.push(self.link.write_chunk(chunk));
            i = i + 1;
        }
        Ok(actions)
    }

    /// Begins to read a message: the first chunk is to be asked for, and to
    /// be handed to the decoder.
    pub fn read_message(&self) -> (first: (WebUsbAction, Decoder))
        ensures
            first.0.reads(self.link.device.path),
            first.1@ == ReadState::Start,
    {
        (self.link.read_chunk(), Decoder::new())
    }

    /// Goes on reading a message with the chunk that the bridge returned:
    /// the message is complete, or is none, or the next chunk is to be asked
    /// for.
    pub fn continue_read(&self, decoder: Decoder, chunk: &[u8]) -> (next: ReadStep)
        ensures
            match step(decoder@, chunk@) {
                ReadState::Done(message) => next matches ReadStep::Complete(m) && m@ == message,
                ReadState::Failed(e) => next matches ReadStep::Failed(e2) && e2 == e,
                state => next matches ReadStep::Next(action, going_on) && action.reads(
                    self.link.device.path,
                ) && going_on@ == state,
            },
    {
        match decoder.push(chunk) {
            Progress::Pending(going_on) => ReadStep::Next(self.link.read_chunk(), going_on),
            Progress::Complete(message) => ReadStep::Complete(message),
            Progress::Failed(e) => ReadStep::Failed(e),
        }
    }
}

/// The descriptors of the devices that the bridge listed: each is a model T
/// behind the bridge, with the listing's debug flag, in the listing's order.
pub open spec fn described(devices: Seq<AvailableWebUsbDevice>) -> Seq<AvailableDevice> {
    Seq::new(
        devices.len(),
        |i: int|
            AvailableDevice {
                model: TrezorModel::T,
                debug: devices[i].debug,
                transport: AvailableDeviceTransport::WebUsb(
                    AvailableWebUsbTransport { device: devices[i] },
                ),
            },
    )
}

/// Turns the bridge's list of devices into descriptors that can be
/// connected to.
pub fn available_devices(devices: Vec<AvailableWebUsbDevice>) -> (found: Vec<AvailableDevice>)
    ensures
        found@ == described(devices@),
{
    let mut devices = devices;
    let ghost listed = devices@;
    let mut reversed: Vec<AvailableDevice> = Vec::new();
    while devices.len() > 0
        invariant
            devices@.len() + reversed@.len() == listed.len(),
            devices@ == listed.take(devices@.len() as int),
            forall|k: int|
                0 <= k < reversed@.len() ==> reversed@[k] == described(listed)[listed.len() - 1
                    - k],
        decreases devices@.len(),
    {
        let device = devices.pop().unwrap();
        let debug = device.debug;
        reversed.push(
            AvailableDevice {
                model: TrezorModel::T,
                debug,
                transport: AvailableDeviceTransport::WebUsb(AvailableWebUsbTransport { device }),
            },
        );
    }
    let mut found: Vec<AvailableDevice> = Vec::new();
    while reversed.len() > 0
        invariant
            found@.len() + reversed@.len() == listed.len(),
            forall|k: int|
                0 <= k < reversed@.len() ==> reversed@[k] == described(listed)[listed.len() - 1
                    - k],
            forall|k: int| 0 <= k < found@.len() ==> found@[k] == described(listed)[k],
        decreases reversed@.len(),
    {
        let device = reversed.pop().unwrap();
        found.push(device);
    }
    assert(found@ =~= described(listed));
    found
}

impl WebUsbTransport {
    /// Begins the search for devices: first the user is asked to grant
    /// access to one.
    pub fn find_devices() -> (first: WebUsbAction)
        ensures
            first is RequestDevice,
    {
        WebUsbAction::RequestDevice
    }

    /// Goes on with the search once the request for access is answered:
    /// with access granted the devices are to be listed, and a failure ends
    /// the search.
    pub fn request_device(answer: Result<(), Error>) -> (r: Result<WebUsbAction, Error>)
        ensures
            match answer {
                Ok(_) => r matches Ok(WebUsbAction::FindDevices),
                Err(e) => r == Err::<WebUsbAction, Error>(e),
            },
    {
        match answer {
            Ok(_) => Ok(WebUsbAction::FindDevices),
            Err(e) => Err(e),
        }
    }

    /// Ends the search with the bridge's list of devices: each device that
    /// is listed becomes one descriptor, and a failure is the result.
    pub fn devices_found(answer: Result<Vec<AvailableWebUsbDevice>, Error>) -> (r: Result<
        Vec<AvailableDevice>,
        Error,
    >)
        ensures
            match answer {
                Ok(devices) => r matches Ok(found) && found@ == described(devices@),
                Err(e) => r == Err::<Vec<AvailableDevice>, Error>(e),
            },
    {
        match answer {
            Ok(devices) => Ok(available_devices(devices)),
            Err(e) => Err(e),
        }
    }
}

/// The descriptor of one listed device is among the descriptors of a list
/// exactly when the device is in the list.
proof fn lemma_described_contains(devices: Seq<AvailableWebUsbDevice>, device: AvailableDevice)
    ensures
        described(devices).contains(device) <==> (device.model == TrezorModel::T
            && (device.transport matches AvailableDeviceTransport::WebUsb(descriptor)
            && devices.contains(descriptor.device) && device.debug == descriptor.device.debug)),
{
    if described(devices).contains(device) {
        let i = choose|i: int| 0 <= i < described(devices).len() && described(devices)[i] == device;
        assert(devices.contains(devices[i]));
    }
    if device.model == TrezorModel::T && (device.transport matches AvailableDeviceTransport::WebUsb(
        descriptor,
    ) && devices.contains(descriptor.device) && device.debug == descriptor.device.debug) {
        let listed = device.transport->WebUsb_0.device;
        let i = choose|i: int| 0 <= i < devices.len() && devices[i] == listed;
        assert(described(devices)[i] == device);
    }
}

/// Searching again with the hardware unchanged finds the same descriptors:
/// two lists of the same devices, in whatever order, are described by the
/// same set of descriptors.
pub proof fn lemma_discovery_is_stable(
    first: Seq<AvailableWebUsbDevice>,
    second: Seq<AvailableWebUsbDevice>,
)
    requires
        first.to_set() == second.to_set(),
    ensures
        described(first).to_set() == described(second).to_set(),
{
    assert forall|device: AvailableDevice|
        described(first).contains(device) == described(second).contains(device) by {
        lemma_described_contains(first, device);
        lemma_described_contains(second, device);
        if device.transport is WebUsb {
            let listed = device.transport->WebUsb_0.device;
            assert(first.to_set().contains(listed) == first.contains(listed));
            assert(second.to_set().contains(listed) == second.contains(listed));
        }
    }
    assert(described(first).to_set() =~= described(second).to_set());
}

} // verus!
