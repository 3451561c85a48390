use trezor_api::messages::{
    button_ack, entropy_ack, initialize, pin_matrix_ack, ButtonRequest, Failure, Features,
    MessageType, PinMatrixRequest,
};
use trezor_api::Error;

#[test]
fn wire_ids_of_the_control_messages() {
    assert_eq!(MessageType::Initialize.wire_id(), 0);
    assert_eq!(MessageType::Success.wire_id(), 2);
    assert_eq!(MessageType::Failure.wire_id(), 3);
    assert_eq!(MessageType::Features.wire_id(), 17);
    assert_eq!(MessageType::PinMatrixRequest.wire_id(), 18);
    assert_eq!(MessageType::PinMatrixAck.wire_id(), 19);
    assert_eq!(MessageType::ButtonRequest.wire_id(), 26);
    assert_eq!(MessageType::ButtonAck.wire_id(), 27);
    assert_eq!(MessageType::EntropyAck.wire_id(), 36);
    assert_eq!(MessageType::TezosPublicKey.wire_id(), 155);
}

#[test]
fn wire_ids_round_trip() {
    let mut known = 0;
    for id in 0..=u16::MAX {
        if let Some(message_type) = MessageType::from_wire_id(id) {
            assert_eq!(message_type.wire_id(), id);
            known += 1;
        }
    }
    assert_eq!(known, 46);
    assert_eq!(MessageType::from_wire_id(6), None);
    assert_eq!(MessageType::from_wire_id(156), None);
    assert_eq!(MessageType::from_wire_id(30), Some(MessageType::Address));
}

#[test]
fn requests_without_fields_are_empty() {
    let request = initialize();
    assert_eq!(request.message_type(), MessageType::Initialize);
    assert!(request.payload().is_empty());
    let request = button_ack();
    assert_eq!(request.message_type(), MessageType::ButtonAck);
    assert!(request.payload().is_empty());
}

#[test]
fn pin_is_the_first_field() {
    let request = pin_matrix_ack("1234").unwrap();
    assert_eq!(request.message_type(), MessageType::PinMatrixAck);
    assert_eq!(request.payload(), &[0x0a, 4, b'1', b'2', b'3', b'4'][..]);
    let request = pin_matrix_ack("").unwrap();
    assert_eq!(request.payload(), &[0x0a, 0][..]);
}

#[test]
fn long_fields_have_long_lengths() {
    let pin = "7".repeat(200);
    let request = pin_matrix_ack(&pin).unwrap();
    assert_eq!(&request.payload()[..3], &[0x0a, 0xc8, 0x01][..]);
    assert_eq!(&request.payload()[3..], pin.as_bytes());
    let pin = "9".repeat(16384);
    let request = pin_matrix_ack(&pin).unwrap();
    assert_eq!(&request.payload()[..4], &[0x0a, 0x80, 0x80, 0x01][..]);
    assert_eq!(request.payload().len(), 4 + 16384);
}

#[test]
fn entropy_is_the_first_field() {
    let entropy: Vec<u8> = (100..132).collect();
    let request = entropy_ack(&entropy).unwrap();
    assert_eq!(request.message_type(), MessageType::EntropyAck);
    let mut expected = vec![0x0a, 32];
    expected.extend_from_slice(&entropy);
    assert_eq!(request.payload(), &expected[..]);
}

#[test]
fn entropy_must_be_32_bytes() {
    for len in [0usize, 1, 31, 33, 64] {
        assert!(matches!(entropy_ack(&vec![0; len]), Err(Error::InvalidEntropy)), "{}", len);
    }
    assert!(entropy_ack(&vec![0; 32]).is_ok());
}

#[test]
fn bodies_keep_their_bytes() {
    let failure = Failure::new(vec![8, 4]);
    assert_eq!(failure.payload(), &[8, 4][..]);
    assert_eq!(failure.clone().into_payload(), vec![8, 4]);
    assert_eq!(failure, Failure::new(vec![8, 4]));
    assert_eq!(ButtonRequest::new(vec![8, 8]).into_payload(), vec![8, 8]);
    assert_eq!(PinMatrixRequest::new(vec![8, 1]).payload(), &[8, 1][..]);
    assert_eq!(Features::new(vec![]).payload(), &[][..]);
}
