use trezor_api::messages::MessageType;
use trezor_api::transport::protocol::encode;
use trezor_api::transport::webusb::{
    available_devices, AvailableWebUsbDevice, BridgeCall, Delivery, ReadStep, WebUsbAction,
};
use trezor_api::transport::{
    connect, AvailableDeviceTransport, AvailableWebUsbTransport, Error, ProtoMessage,
    WebUsbTransport, DEV_TREZOR_ONE, DEV_TREZOR_T,
};
use trezor_api::{AvailableDevice, TrezorModel};

fn listed(path: &str, debug: bool) -> AvailableWebUsbDevice {
    AvailableWebUsbDevice { path: path.to_string(), debug }
}

fn descriptor(path: &str, debug: bool) -> AvailableDevice {
    AvailableDevice {
        model: TrezorModel::T,
        debug,
        transport: AvailableDeviceTransport::WebUsb(AvailableWebUsbTransport {
            device: listed(path, debug),
        }),
    }
}

#[test]
fn usb_ids_of_the_models() {
    assert_eq!(DEV_TREZOR_ONE, (0x534c, 0x0001));
    assert_eq!(DEV_TREZOR_T, (0x1209, 0x53c1));
}

#[test]
fn every_listed_device_is_described() {
    let found = available_devices(vec![listed("1", false), listed("2", true), listed("3", false)]);
    assert_eq!(found, vec![descriptor("1", false), descriptor("2", true), descriptor("3", false)]);
    assert_eq!(available_devices(vec![]), vec![]);
}

#[test]
fn searching_twice_finds_the_same_devices() {
    let first = available_devices(vec![listed("a", false), listed("b", true)]);
    let again = available_devices(vec![listed("a", false), listed("b", true)]);
    assert_eq!(first, again);
    let mut other_order = available_devices(vec![listed("b", true), listed("a", false)]);
    other_order.reverse();
    assert_eq!(first, other_order);
}

#[test]
fn search_asks_for_access_and_then_lists() {
    assert_eq!(WebUsbTransport::find_devices(), WebUsbAction::RequestDevice);
    assert_eq!(WebUsbTransport::request_device(Ok(())), Ok(WebUsbAction::FindDevices));
    assert_eq!(
        WebUsbTransport::request_device(Err(Error::WebUsb("no".to_string()))),
        Err(Error::WebUsb("no".to_string()))
    );
    assert_eq!(
        WebUsbTransport::devices_found(Ok(vec![listed("9", true)])),
        Ok(vec![descriptor("9", true)])
    );
    assert_eq!(
        WebUsbTransport::devices_found(Err(Error::DeviceNotFound)),
        Err(Error::DeviceNotFound)
    );
}

#[test]
fn connecting_takes_the_descriptor_as_it_is() {
    let device = descriptor("usb-7", true);
    let transport = connect(&device).unwrap();
    assert_eq!(transport.link.device, listed("usb-7", true));
    let transport = WebUsbTransport::connect(&device).unwrap();
    assert_eq!(transport.link.device, listed("usb-7", true));
    assert!(transport.session_begin().is_empty());
    assert!(transport.session_end().is_empty());
}

#[test]
fn link_actions_name_the_device() {
    let transport = WebUsbTransport::connect(&descriptor("p", false)).unwrap();
    assert_eq!(
        transport.link.write_chunk(vec![1; 64]),
        WebUsbAction::WriteChunk { path: "p".to_string(), chunk: vec![1; 64] }
    );
    assert_eq!(transport.link.read_chunk(), WebUsbAction::ReadChunk { path: "p".to_string() });
}

#[test]
fn writing_a_message_is_one_action_for_each_chunk_in_order() {
    let transport = WebUsbTransport::connect(&descriptor("p", false)).unwrap();
    let message = ProtoMessage::new(MessageType::Ping, (0..200).map(|i| i as u8).collect());
    let actions = transport.write_message(&message).unwrap();
    let expected: Vec<WebUsbAction> = encode(&message)
        .unwrap()
        .into_iter()
        .map(|chunk| WebUsbAction::WriteChunk { path: "p".to_string(), chunk })
        .collect();
    assert_eq!(actions.len(), 4);
    assert_eq!(actions, expected);
}

#[test]
fn reading_a_message_asks_for_chunks_until_it_is_complete() {
    let transport = WebUsbTransport::connect(&descriptor("q", false)).unwrap();
    let message = ProtoMessage::new(MessageType::Features, vec![5; 120]);
    let chunks = encode(&message).unwrap();
    assert_eq!(chunks.len(), 3);
    let (action, decoder) = transport.read_message();
    assert_eq!(action, WebUsbAction::ReadChunk { path: "q".to_string() });
    let decoder = match transport.continue_read(decoder, &chunks[0]) {
        ReadStep::Next(action, decoder) => {
            assert_eq!(action, WebUsbAction::ReadChunk { path: "q".to_string() });
            decoder
        }
        _ => panic!("more is to come"),
    };
    let decoder = match transport.continue_read(decoder, &chunks[1]) {
        ReadStep::Next(_, decoder) => decoder,
        _ => panic!("more is to come"),
    };
    match transport.continue_read(decoder, &chunks[2]) {
        ReadStep::Complete(back) => assert_eq!(back, message),
        _ => panic!("the message is complete"),
    }
}

#[test]
fn reading_fails_on_a_chunk_that_is_none() {
    let transport = WebUsbTransport::connect(&descriptor("q", false)).unwrap();
    let (_, decoder) = transport.read_message();
    match transport.continue_read(decoder, &[0x3f, 0x23]) {
        ReadStep::Failed(e) => assert_eq!(e, Error::UnexpectedChunkSizeFromDevice(2)),
        _ => panic!("two bytes are no chunk"),
    }
    let (_, decoder) = transport.read_message();
    match transport.continue_read(decoder, &[0u8; 64]) {
        ReadStep::Failed(e) => assert_eq!(e, Error::DeviceBadMagic),
        _ => panic!("zeros are no chunk"),
    }
}

#[test]
fn delivery_gives_the_answer_or_an_internal_error() {
    assert_eq!(Delivery::Answered(Ok(5)).into_result(), Ok(5));
    assert_eq!(
        Delivery::<u8>::Answered(Err(Error::DeviceNotFound)).into_result(),
        Err(Error::DeviceNotFound)
    );
    assert_eq!(
        Delivery::<u8>::NotSent("send failed because receiver is gone".to_string()).into_result(),
        Err(Error::Internal(
            "Error sending event: send failed because receiver is gone".to_string()
        ))
    );
    assert_eq!(
        Delivery::<u8>::Unanswered("oneshot canceled".to_string()).into_result(),
        Err(Error::Internal("Error receiving result: oneshot canceled".to_string()))
    );
}

#[test]
fn bridge_failures_say_what_failed() {
    for (call, text) in [
        (BridgeCall::Initialize, "Error initializing WebUSB: x"),
        (BridgeCall::GetDevices, "Error getting devices: x"),
        (BridgeCall::ReadDevices, "Error deserializing the list of available devices: x"),
        (BridgeCall::WriteChunk, "Error writing a chunk: x"),
        (BridgeCall::ReadChunk, "Error reading a chunk: x"),
        (BridgeCall::TakeBuffer, "Expected 'ArrayBuffer', found: x"),
    ] {
        assert_eq!(call.failed("x"), Error::WebUsb(text.to_string()));
    }
}
