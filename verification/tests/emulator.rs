use std::collections::VecDeque;

use trezor_api::client::Discard;
use trezor_api::messages::MessageType;
use trezor_api::transport::protocol::{encode, Decoder, Progress, ProtocolV1};
use trezor_api::transport::{Error, Link, ProtoMessage};
use trezor_api::{trezor_with_transport, KeyDerivationPath, TrezorModel};

/// A device at the far end of a link: it takes requests chunk by chunk and
/// answers each with the chunks of its reply.
struct Emulator {
    decoder: Option<Decoder>,
    outgoing: VecDeque<Vec<u8>>,
    confirmed: bool,
}

impl Emulator {
    fn new() -> Emulator {
        Emulator { decoder: Some(Decoder::new()), outgoing: VecDeque::new(), confirmed: false }
    }

    fn answer(&mut self, request: ProtoMessage) -> ProtoMessage {
        match request.message_type() {
            MessageType::Initialize => ProtoMessage::new(MessageType::Features, vec![0x12; 150]),
            MessageType::GetAddress if !self.confirmed => {
                ProtoMessage::new(MessageType::ButtonRequest, vec![0x08, 0x0a])
            }
            MessageType::ButtonAck => {
                self.confirmed = true;
                let mut payload = vec![0x0a, 34];
                payload.extend_from_slice(b"RXL3YXG2ceaB6C5hfJcN4fvmLH2C34knhA");
                ProtoMessage::new(MessageType::Address, payload)
            }
            MessageType::Ping => ProtoMessage::new(MessageType::Success, request.into_payload()),
            _ => ProtoMessage::new(MessageType::Failure, vec![0x08, 0x01]),
        }
    }
}

impl Link for Emulator {
    fn write_chunk(&mut self, chunk: Vec<u8>) -> Result<(), Error> {
        let decoder = self.decoder.take().unwrap_or_else(Decoder::new);
        match decoder.push(&chunk) {
            Progress::Pending(decoder) => self.decoder = Some(decoder),
            Progress::Complete(request) => {
                let reply = self.answer(request);
                self.outgoing.extend(encode(&reply).unwrap());
            }
            Progress::Failed(e) => return Err(e),
        }
        Ok(())
    }

    fn read_chunk(&mut self) -> Result<Vec<u8>, Error> {
        self.outgoing.pop_front().ok_or(Error::DeviceReadTimeout)
    }
}

#[test]
fn whole_exchange_with_an_emulated_device() {
    let transport = ProtocolV1::new(Emulator::new());
    let mut trezor = trezor_with_transport(TrezorModel::T, Box::new(transport));
    trezor.init_device().unwrap();
    assert_eq!(trezor.features().unwrap().payload(), &[0x12; 150][..]);

    let path = KeyDerivationPath::from_str("m/44'/141'/0'/0/0").unwrap();
    let address = trezor.get_komodo_address(&path).unwrap().ack_all().unwrap();
    assert_eq!(address, "RXL3YXG2ceaB6C5hfJcN4fvmLH2C34knhA");

    let long = "x".repeat(500);
    assert!(trezor.ping(&long).unwrap().ok().is_ok());
    assert!(matches!(
        trezor.call(ProtoMessage::new(MessageType::WipeDevice, vec![]), MessageType::Success, Discard),
        Ok(trezor_api::TrezorResponse::Failure(_))
    ));
}
