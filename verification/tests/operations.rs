use std::cell::RefCell;
use std::collections::VecDeque;
use std::rc::Rc;

use trezor_api::client::{ResultHandler, TakeText};
use trezor_api::messages::{
    get_komodo_address, ping, reply_text, tezos_get_address, tezos_get_public_key, MessageType,
    TezosSignTx,
};
use trezor_api::path::HARDENED_PATH;
use trezor_api::transport::{self, ProtoMessage, Transport};
use trezor_api::{
    trezor_with_transport, Error, KeyDerivationPath, Trezor, TrezorModel, TrezorResponse,
};

struct Device {
    replies: VecDeque<ProtoMessage>,
    written: Rc<RefCell<Vec<ProtoMessage>>>,
}

impl Transport for Device {
    fn session_begin(&mut self) -> Result<(), transport::Error> {
        Ok(())
    }

    fn session_end(&mut self) -> Result<(), transport::Error> {
        Ok(())
    }

    fn write_message(&mut self, message: ProtoMessage) -> Result<(), transport::Error> {
        self.written.borrow_mut().push(message);
        Ok(())
    }

    fn read_message(&mut self) -> Result<ProtoMessage, transport::Error> {
        self.replies.pop_front().ok_or(transport::Error::DeviceDisconnected)
    }
}

fn device(replies: Vec<ProtoMessage>) -> (Trezor, Rc<RefCell<Vec<ProtoMessage>>>) {
    let written = Rc::new(RefCell::new(Vec::new()));
    let transport = Device { replies: replies.into(), written: written.clone() };
    (trezor_with_transport(TrezorModel::T, Box::new(transport)), written)
}

fn text_reply(message_type: MessageType, text: &str) -> ProtoMessage {
    let mut payload = vec![0x0a, text.len() as u8];
    payload.extend_from_slice(text.as_bytes());
    ProtoMessage::new(message_type, payload)
}

#[test]
fn ping_request_carries_the_text() {
    let request = ping("hello").unwrap();
    assert_eq!(request, ProtoMessage::new(MessageType::Ping, vec![0x0a, 5, b'h', b'e', b'l', b'l', b'o']));
}

#[test]
fn address_requests_carry_each_index() {
    let request = tezos_get_address(&[44 + HARDENED_PATH, 0, 1, 300]).unwrap();
    assert_eq!(request.message_type(), MessageType::TezosGetAddress);
    assert_eq!(
        request.payload(),
        &[0x08, 0xac, 0x80, 0x80, 0x80, 0x08, 0x08, 0x00, 0x08, 0x01, 0x08, 0xac, 0x02][..]
    );
    let request = tezos_get_public_key(&[u32::MAX]).unwrap();
    assert_eq!(request.message_type(), MessageType::TezosGetPublicKey);
    assert_eq!(request.payload(), &[0x08, 0xff, 0xff, 0xff, 0xff, 0x0f][..]);
    assert!(tezos_get_address(&[]).unwrap().payload().is_empty());
}

#[test]
fn komodo_address_request_names_the_coin() {
    let request = get_komodo_address(&[HARDENED_PATH, 5]).unwrap();
    assert_eq!(request.message_type(), MessageType::GetAddress);
    assert_eq!(
        request.payload(),
        &[0x08, 0x80, 0x80, 0x80, 0x80, 0x08, 0x08, 0x05, 0x12, 6, b'K', b'o', b'm', b'o', b'd', b'o'][..]
    );
}

#[test]
fn reply_text_is_the_first_field() {
    assert_eq!(reply_text(&text_reply(MessageType::Address, "RKomodoAddress")).unwrap(), "RKomodoAddress");
    assert_eq!(reply_text(&ProtoMessage::new(MessageType::Address, vec![])).unwrap(), "");
    let with_other_fields = ProtoMessage::new(
        MessageType::TezosAddress,
        vec![0x10, 0x07, 0x0a, 2, b't', b'z', 0x1a, 1, b'x'],
    );
    assert_eq!(reply_text(&with_other_fields).unwrap(), "tz");
}

#[test]
fn reply_text_refuses_what_is_no_message() {
    for payload in [vec![0x0a], vec![0x0a, 5, b'a'], vec![0x0a, 2, 0xff, 0xfe], vec![0x08, 0x01]] {
        let reply = ProtoMessage::new(MessageType::Address, payload);
        assert!(matches!(reply_text(&reply), Err(Error::Protobuf(_))));
        assert!(matches!(TakeText.handle(reply), Err(Error::Protobuf(_))));
    }
}

#[test]
fn get_komodo_address_gives_the_address() {
    let (mut trezor, written) = device(vec![text_reply(MessageType::Address, "RXL3YXG2ceaB6C5hfJcN4fvmLH2C34knhA")]);
    let path = KeyDerivationPath::from_str("m/44'/141'/0'/0/0").unwrap();
    let address = trezor.get_komodo_address(&path).unwrap().ack_all().unwrap();
    assert_eq!(address, "RXL3YXG2ceaB6C5hfJcN4fvmLH2C34knhA");
    assert_eq!(*written.borrow(), vec![get_komodo_address(path.as_ref()).unwrap()]);
}

#[test]
fn get_address_and_public_key_give_texts() {
    let (mut trezor, written) = device(vec![
        text_reply(MessageType::TezosAddress, "tz1abc"),
        text_reply(MessageType::TezosPublicKey, "edpk123"),
    ]);
    let path = KeyDerivationPath::from_str("m/44'/1729'/0'").unwrap();
    assert_eq!(trezor.get_address(&path).unwrap().ok().unwrap(), "tz1abc");
    assert_eq!(trezor.get_public_key(&path).unwrap().ok().unwrap(), "edpk123");
    assert_eq!(
        *written.borrow(),
        vec![
            tezos_get_address(path.as_ref()).unwrap(),
            tezos_get_public_key(path.as_ref()).unwrap()
        ]
    );
}

#[test]
fn get_address_of_the_wrong_reply_is_an_error() {
    let (mut trezor, _) = device(vec![text_reply(MessageType::Address, "x")]);
    let path = KeyDerivationPath::from_str("m/0").unwrap();
    assert!(matches!(
        trezor.get_address(&path),
        Err(Error::UnexpectedMessageType(MessageType::Address))
    ));
}

#[test]
fn ping_expects_success() {
    let (mut trezor, written) = device(vec![ProtoMessage::new(MessageType::Success, vec![])]);
    assert!(matches!(
        trezor.ping("hi").unwrap(),
        TrezorResponse::Success((), MessageType::Success)
    ));
    assert_eq!(*written.borrow(), vec![ping("hi").unwrap()]);
}

#[test]
fn sign_tx_sends_the_body_and_gives_the_reply_body() {
    let (mut trezor, written) = device(vec![ProtoMessage::new(MessageType::TezosSignedTx, vec![0x0a, 1, b's'])]);
    let signed = trezor.sign_tx(TezosSignTx::new(vec![0x08, 0x01, 0x12, 0])).unwrap().ok().unwrap();
    assert_eq!(signed.payload(), &[0x0a, 1, b's'][..]);
    assert_eq!(
        *written.borrow(),
        vec![ProtoMessage::new(MessageType::TezosSignTx, vec![0x08, 0x01, 0x12, 0])]
    );
}

#[test]
fn decoded_text_maps_the_codec_error() {
    assert_eq!(
        trezor_api::messages::decoded_text(Ok("abc".to_string())).unwrap(),
        "abc"
    );
    let refused = protobuf::ProtobufError::WireError(protobuf::error::WireError::UnexpectedEof);
    assert!(matches!(
        trezor_api::messages::decoded_text(Err(refused)),
        Err(Error::Protobuf(protobuf::ProtobufError::WireError(
            protobuf::error::WireError::UnexpectedEof
        )))
    ));
}
