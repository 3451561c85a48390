use std::cell::{Cell, RefCell};
use std::collections::VecDeque;
use std::rc::Rc;

use trezor_api::client::{
    classify, interpret, Confirmation, Discard, ReplyKind, ResultHandler, WordCount,
};
use trezor_api::messages::{Failure, MessageType};
use trezor_api::transport::{self, ProtoMessage, Transport};
use trezor_api::{
    trezor_with_transport, EntropyRequest, Error, InteractionType, Trezor, TrezorModel,
    TrezorResponse,
};

/// What a scripted transport was asked to do.
#[derive(Debug, Clone, PartialEq)]
enum Call {
    Write(ProtoMessage),
    Read,
}

/// A transport that answers from a script and keeps a record.
struct Scripted {
    replies: VecDeque<Result<ProtoMessage, transport::Error>>,
    fail_writes: Option<transport::Error>,
    calls: Rc<RefCell<Vec<Call>>>,
}

impl Transport for Scripted {
    fn session_begin(&mut self) -> Result<(), transport::Error> {
        Ok(())
    }

    fn session_end(&mut self) -> Result<(), transport::Error> {
        Ok(())
    }

    fn write_message(&mut self, message: ProtoMessage) -> Result<(), transport::Error> {
        self.calls.borrow_mut().push(Call::Write(message));
        match &self.fail_writes {
            Some(e) => Err(e.clone()),
            None => Ok(()),
        }
    }

    fn read_message(&mut self) -> Result<ProtoMessage, transport::Error> {
        self.calls.borrow_mut().push(Call::Read);
        self.replies.pop_front().unwrap_or(Err(transport::Error::DeviceReadTimeout))
    }
}

fn client(replies: Vec<Result<ProtoMessage, transport::Error>>) -> (Trezor, Rc<RefCell<Vec<Call>>>) {
    let calls = Rc::new(RefCell::new(Vec::new()));
    let transport = Scripted { replies: replies.into(), fail_writes: None, calls: calls.clone() };
    (trezor_with_transport(TrezorModel::T, Box::new(transport)), calls)
}

fn reply(message_type: MessageType, payload: &[u8]) -> Result<ProtoMessage, transport::Error> {
    Ok(ProtoMessage::new(message_type, payload.to_vec()))
}

fn ping() -> ProtoMessage {
    ProtoMessage::new(MessageType::Ping, vec![0x0a, 2, b'h', b'i'])
}

fn button_ack() -> Call {
    Call::Write(ProtoMessage::new(MessageType::ButtonAck, vec![]))
}

/// A handler that counts how often it is asked, and gives the reply's length.
struct Counting {
    asked: Rc<Cell<u32>>,
}

impl ResultHandler for Counting {
    type Output = usize;

    fn handle(&self, reply: ProtoMessage) -> Result<usize, Error> {
        self.asked.set(self.asked.get() + 1);
        Ok(reply.payload().len())
    }
}

/// A handler that refuses every reply.
struct Refusing;

impl ResultHandler for Refusing {
    type Output = ();

    fn handle(&self, reply: ProtoMessage) -> Result<(), Error> {
        Err(Error::UnexpectedMessageType(reply.message_type()))
    }
}

fn counting() -> (Counting, Rc<Cell<u32>>) {
    let asked = Rc::new(Cell::new(0));
    (Counting { asked: asked.clone() }, asked)
}

#[test]
fn new_client_knows_its_model_and_no_features() {
    let (trezor, calls) = client(vec![]);
    assert_eq!(trezor.model(), TrezorModel::T);
    assert!(trezor.features().is_none());
    assert!(calls.borrow().is_empty());
}

#[test]
fn call_raw_is_one_write_and_one_read() {
    let (mut trezor, calls) = client(vec![reply(MessageType::Entropy, &[1, 2, 3])]);
    let back = trezor.call_raw(ping()).unwrap();
    assert_eq!(back, ProtoMessage::new(MessageType::Entropy, vec![1, 2, 3]));
    assert_eq!(*calls.borrow(), vec![Call::Write(ping()), Call::Read]);
}

#[test]
fn call_raw_does_not_read_after_a_failed_write() {
    let calls = Rc::new(RefCell::new(Vec::new()));
    let transport = Scripted {
        replies: vec![reply(MessageType::Success, &[])].into(),
        fail_writes: Some(transport::Error::DeviceDisconnected),
        calls: calls.clone(),
    };
    let mut trezor = trezor_with_transport(TrezorModel::One, Box::new(transport));
    assert!(matches!(
        trezor.call_raw(ping()),
        Err(Error::TransportSendMessage(transport::Error::DeviceDisconnected))
    ));
    assert_eq!(*calls.borrow(), vec![Call::Write(ping())]);
}

#[test]
fn call_raw_reports_a_failed_read() {
    let (mut trezor, calls) = client(vec![Err(transport::Error::DeviceBadMagic)]);
    assert!(matches!(
        trezor.call_raw(ping()),
        Err(Error::TransportReceiveMessage(transport::Error::DeviceBadMagic))
    ));
    assert_eq!(*calls.borrow(), vec![Call::Write(ping()), Call::Read]);
}

#[test]
fn matching_reply_goes_to_the_handler_once() {
    let (mut trezor, calls) = client(vec![reply(MessageType::Success, &[1, 2, 3, 4])]);
    let (handler, asked) = counting();
    match trezor.call(ping(), MessageType::Success, handler).unwrap() {
        TrezorResponse::Success(value, message_type) => {
            assert_eq!(value, 4);
            assert_eq!(message_type, MessageType::Success);
        }
        _ => panic!("a matching reply is a success"),
    }
    assert_eq!(asked.get(), 1);
    assert_eq!(*calls.borrow(), vec![Call::Write(ping()), Call::Read]);
}

#[test]
fn handler_error_is_the_error_of_the_call() {
    let (mut trezor, _) = client(vec![reply(MessageType::Success, &[])]);
    assert!(matches!(
        trezor.call(ping(), MessageType::Success, Refusing),
        Err(Error::UnexpectedMessageType(MessageType::Success))
    ));
}

#[test]
fn failure_reply_does_not_reach_the_handler() {
    let (mut trezor, calls) = client(vec![reply(MessageType::Failure, &[8, 4])]);
    let (handler, asked) = counting();
    match trezor.call(ping(), MessageType::Success, handler).unwrap() {
        TrezorResponse::Failure(failure) => assert_eq!(failure, Failure::new(vec![8, 4])),
        _ => panic!("a failure reply is a failure"),
    }
    assert_eq!(asked.get(), 0);
    assert_eq!(calls.borrow().len(), 2);
}

#[test]
fn expected_type_comes_before_the_control_types() {
    let (mut trezor, _) = client(vec![reply(MessageType::Failure, &[8, 4])]);
    let (handler, asked) = counting();
    let response = trezor.call(ping(), MessageType::Failure, handler).unwrap();
    assert!(matches!(response, TrezorResponse::Success(2, MessageType::Failure)));
    assert_eq!(asked.get(), 1);
}

#[test]
fn other_replies_are_unexpected() {
    for message_type in [MessageType::Features, MessageType::PassphraseRequest, MessageType::Address] {
        let (mut trezor, calls) = client(vec![reply(message_type, &[])]);
        let (handler, asked) = counting();
        match trezor.call(ping(), MessageType::Success, handler) {
            Err(Error::UnexpectedMessageType(found)) => assert_eq!(found, message_type),
            _ => panic!("an unexpected reply is an error"),
        }
        assert_eq!(asked.get(), 0);
        assert_eq!(calls.borrow().len(), 2);
    }
}

#[test]
fn button_request_ack_is_one_more_round_trip() {
    let (mut trezor, calls) = client(vec![
        reply(MessageType::ButtonRequest, &[8, 8]),
        reply(MessageType::Success, &[1]),
    ]);
    let (handler, asked) = counting();
    let request = trezor.call(ping(), MessageType::Success, handler).unwrap().button_request().unwrap();
    assert_eq!(request.message.payload(), &[8, 8][..]);
    assert_eq!(request.expected, MessageType::Success);
    assert_eq!(asked.get(), 0);
    assert_eq!(*calls.borrow(), vec![Call::Write(ping()), Call::Read]);
    let response = request.ack().unwrap();
    assert!(matches!(response, TrezorResponse::Success(1, MessageType::Success)));
    assert_eq!(asked.get(), 1);
    assert_eq!(*calls.borrow(), vec![Call::Write(ping()), Call::Read, button_ack(), Call::Read]);
}

#[test]
fn pin_matrix_request_ack_sends_the_pin() {
    let (mut trezor, calls) = client(vec![
        reply(MessageType::PinMatrixRequest, &[8, 1]),
        reply(MessageType::Success, &[]),
    ]);
    let (handler, asked) = counting();
    let request =
        trezor.call(ping(), MessageType::Success, handler).unwrap().pin_matrix_request().unwrap();
    assert_eq!(request.message.payload(), &[8, 1][..]);
    let response = request.ack_pin("951".to_string()).unwrap();
    assert!(matches!(response, TrezorResponse::Success(0, MessageType::Success)));
    assert_eq!(asked.get(), 1);
    assert_eq!(
        *calls.borrow(),
        vec![
            Call::Write(ping()),
            Call::Read,
            Call::Write(ProtoMessage::new(MessageType::PinMatrixAck, vec![0x0a, 3, b'9', b'5', b'1'])),
            Call::Read,
        ]
    );
}

#[test]
fn ack_all_confirms_two_button_requests_up_to_the_result() {
    let (mut trezor, calls) = client(vec![
        reply(MessageType::ButtonRequest, &[8, 3]),
        reply(MessageType::ButtonRequest, &[8, 10]),
        reply(MessageType::Address, &[1, 2, 3, 4, 5]),
    ]);
    let (handler, asked) = counting();
    let result = trezor.call(ping(), MessageType::Address, handler).unwrap().ack_all();
    assert!(matches!(result, Ok(5)));
    assert_eq!(asked.get(), 1);
    assert_eq!(
        *calls.borrow(),
        vec![Call::Write(ping()), Call::Read, button_ack(), Call::Read, button_ack(), Call::Read]
    );
}

#[test]
fn ack_all_of_a_result_sends_nothing() {
    let (mut trezor, calls) = client(vec![reply(MessageType::Success, &[7])]);
    let (handler, _) = counting();
    let result = trezor.call(ping(), MessageType::Success, handler).unwrap().ack_all();
    assert!(matches!(result, Ok(1)));
    assert_eq!(calls.borrow().len(), 2);
}

#[test]
fn ack_all_of_a_failure_is_the_failure() {
    let (mut trezor, calls) = client(vec![reply(MessageType::Failure, &[8, 9])]);
    let (handler, asked) = counting();
    match trezor.call(ping(), MessageType::Success, handler).unwrap().ack_all() {
        Err(Error::FailureResponse(failure)) => assert_eq!(failure.payload(), &[8, 9][..]),
        _ => panic!("a failure stays a failure"),
    }
    assert_eq!(asked.get(), 0);
    assert_eq!(calls.borrow().len(), 2);
}

#[test]
fn ack_all_ends_with_a_failure_after_a_confirmation() {
    let (mut trezor, calls) = client(vec![
        reply(MessageType::ButtonRequest, &[]),
        reply(MessageType::Failure, &[8, 4]),
    ]);
    let (handler, asked) = counting();
    match trezor.call(ping(), MessageType::Success, handler).unwrap().ack_all() {
        Err(Error::FailureResponse(failure)) => assert_eq!(failure.payload(), &[8, 4][..]),
        _ => panic!("the device refused"),
    }
    assert_eq!(asked.get(), 0);
    assert_eq!(calls.borrow().len(), 4);
}

#[test]
fn ack_all_never_makes_up_a_pin() {
    let (mut trezor, calls) = client(vec![
        reply(MessageType::PinMatrixRequest, &[8, 1]),
        reply(MessageType::Success, &[]),
    ]);
    let (handler, asked) = counting();
    assert!(matches!(
        trezor.call(ping(), MessageType::Success, handler).unwrap().ack_all(),
        Err(Error::UnexpectedInteractionRequest(InteractionType::PinMatrix))
    ));
    assert_eq!(asked.get(), 0);
    assert_eq!(*calls.borrow(), vec![Call::Write(ping()), Call::Read]);
}

#[test]
fn ack_all_stops_at_a_pin_matrix_request_after_a_confirmation() {
    let (mut trezor, calls) = client(vec![
        reply(MessageType::ButtonRequest, &[]),
        reply(MessageType::PinMatrixRequest, &[]),
        reply(MessageType::Success, &[]),
    ]);
    let (handler, _) = counting();
    assert!(matches!(
        trezor.call(ping(), MessageType::Success, handler).unwrap().ack_all(),
        Err(Error::UnexpectedInteractionRequest(InteractionType::PinMatrix))
    ));
    assert_eq!(
        *calls.borrow(),
        vec![Call::Write(ping()), Call::Read, button_ack(), Call::Read]
    );
}

#[test]
fn ack_all_stops_at_an_unexpected_reply_and_at_a_transport_failure() {
    let (mut trezor, _) = client(vec![
        reply(MessageType::ButtonRequest, &[]),
        reply(MessageType::Features, &[]),
    ]);
    let (handler, _) = counting();
    assert!(matches!(
        trezor.call(ping(), MessageType::Success, handler).unwrap().ack_all(),
        Err(Error::UnexpectedMessageType(MessageType::Features))
    ));
    let (mut trezor, calls) = client(vec![reply(MessageType::ButtonRequest, &[])]);
    let (handler, _) = counting();
    assert!(matches!(
        trezor.call(ping(), MessageType::Success, handler).unwrap().ack_all(),
        Err(Error::TransportReceiveMessage(transport::Error::DeviceReadTimeout))
    ));
    assert_eq!(calls.borrow().len(), 4);
}

#[test]
fn client_is_free_again_after_a_dropped_request() {
    let (mut trezor, calls) = client(vec![
        reply(MessageType::ButtonRequest, &[]),
        reply(MessageType::Success, &[1, 1]),
    ]);
    let (handler, _) = counting();
    let response = trezor.call(ping(), MessageType::Success, handler).unwrap();
    assert!(matches!(response, TrezorResponse::ButtonRequest(_)));
    drop(response);
    let (handler, asked) = counting();
    let response = trezor.call(ping(), MessageType::Success, handler).unwrap();
    assert!(matches!(response.ok(), Ok(2)));
    assert_eq!(asked.get(), 1);
    assert_eq!(calls.borrow().len(), 4);
}

#[test]
fn ok_of_each_response() {
    let (mut trezor, _) = client(vec![
        reply(MessageType::Success, &[5]),
        reply(MessageType::Failure, &[6]),
        reply(MessageType::ButtonRequest, &[]),
        reply(MessageType::PinMatrixRequest, &[]),
    ]);
    let response = trezor.call(ping(), MessageType::Success, counting().0).unwrap();
    assert!(matches!(response.ok(), Ok(1)));
    let response = trezor.call(ping(), MessageType::Success, counting().0).unwrap();
    match response.ok() {
        Err(Error::FailureResponse(failure)) => assert_eq!(failure.payload(), &[6][..]),
        _ => panic!("a failure is no result"),
    }
    let response = trezor.call(ping(), MessageType::Success, counting().0).unwrap();
    assert!(matches!(
        response.ok(),
        Err(Error::UnexpectedInteractionRequest(InteractionType::Button))
    ));
    let response = trezor.call(ping(), MessageType::Success, counting().0).unwrap();
    assert!(matches!(
        response.ok(),
        Err(Error::UnexpectedInteractionRequest(InteractionType::PinMatrix))
    ));
}

#[test]
fn button_request_of_each_response() {
    let (mut trezor, _) = client(vec![
        reply(MessageType::Address, &[5]),
        reply(MessageType::Failure, &[6]),
        reply(MessageType::ButtonRequest, &[7]),
        reply(MessageType::PinMatrixRequest, &[]),
    ]);
    let response = trezor.call(ping(), MessageType::Address, counting().0).unwrap();
    assert!(matches!(
        response.button_request(),
        Err(Error::UnexpectedMessageType(MessageType::Address))
    ));
    let response = trezor.call(ping(), MessageType::Address, counting().0).unwrap();
    match response.button_request() {
        Err(Error::FailureResponse(failure)) => assert_eq!(failure.payload(), &[6][..]),
        _ => panic!("a failure is no button request"),
    }
    let response = trezor.call(ping(), MessageType::Address, counting().0).unwrap();
    assert!(response.button_request().is_ok());
    let response = trezor.call(ping(), MessageType::Address, counting().0).unwrap();
    assert!(matches!(
        response.button_request(),
        Err(Error::UnexpectedInteractionRequest(InteractionType::PinMatrix))
    ));
}

#[test]
fn pin_matrix_request_of_each_response() {
    let (mut trezor, _) = client(vec![
        reply(MessageType::Address, &[5]),
        reply(MessageType::Failure, &[6]),
        reply(MessageType::ButtonRequest, &[7]),
        reply(MessageType::PinMatrixRequest, &[8]),
    ]);
    let response = trezor.call(ping(), MessageType::Address, counting().0).unwrap();
    assert!(matches!(
        response.pin_matrix_request(),
        Err(Error::UnexpectedMessageType(MessageType::Address))
    ));
    let response = trezor.call(ping(), MessageType::Address, counting().0).unwrap();
    match response.pin_matrix_request() {
        Err(Error::FailureResponse(failure)) => assert_eq!(failure.payload(), &[6][..]),
        _ => panic!("a failure is no PIN matrix request"),
    }
    let response = trezor.call(ping(), MessageType::Address, counting().0).unwrap();
    assert!(matches!(
        response.pin_matrix_request(),
        Err(Error::UnexpectedInteractionRequest(InteractionType::Button))
    ));
    let response = trezor.call(ping(), MessageType::Address, counting().0).unwrap();
    let request = response.pin_matrix_request().unwrap();
    assert_eq!(request.message.payload(), &[8][..]);
}

#[test]
fn entropy_of_the_wrong_length_sends_nothing() {
    for len in [31usize, 33] {
        let (mut trezor, calls) = client(vec![reply(MessageType::Success, &[])]);
        let request = EntropyRequest { client: &mut trezor };
        assert!(matches!(request.ack_entropy(vec![7; len]), Err(Error::InvalidEntropy)));
        assert!(calls.borrow().is_empty());
    }
}

#[test]
fn entropy_of_32_bytes_is_one_round_trip() {
    let (mut trezor, calls) = client(vec![reply(MessageType::Success, &[])]);
    let request = EntropyRequest { client: &mut trezor };
    let response = request.ack_entropy(vec![7; 32]).unwrap();
    assert!(matches!(response, TrezorResponse::Success((), MessageType::Success)));
    let mut payload = vec![0x0a, 32];
    payload.extend_from_slice(&[7; 32]);
    assert_eq!(
        *calls.borrow(),
        vec![Call::Write(ProtoMessage::new(MessageType::EntropyAck, payload)), Call::Read]
    );
}

#[test]
fn init_device_keeps_the_features() {
    let (mut trezor, calls) = client(vec![reply(MessageType::Features, &[0x0a, 1, b't'])]);
    assert!(trezor.init_device().is_ok());
    assert_eq!(trezor.features().unwrap().payload(), &[0x0a, 1, b't'][..]);
    assert_eq!(
        *calls.borrow(),
        vec![Call::Write(ProtoMessage::new(MessageType::Initialize, vec![])), Call::Read]
    );
}

#[test]
fn init_device_fails_without_features() {
    let (mut trezor, _) = client(vec![reply(MessageType::Failure, &[8, 1])]);
    assert!(matches!(trezor.init_device(), Err(Error::FailureResponse(_))));
    assert!(trezor.features().is_none());
    let (mut trezor, _) = client(vec![reply(MessageType::ButtonRequest, &[])]);
    assert!(matches!(
        trezor.init_device(),
        Err(Error::UnexpectedInteractionRequest(InteractionType::Button))
    ));
    assert!(trezor.features().is_none());
    let (mut trezor, _) = client(vec![reply(MessageType::Success, &[])]);
    assert!(matches!(trezor.init_device(), Err(Error::UnexpectedMessageType(MessageType::Success))));
    let (mut trezor, _) = client(vec![]);
    assert!(matches!(
        trezor.init_device(),
        Err(Error::TransportReceiveMessage(transport::Error::DeviceReadTimeout))
    ));
}

#[test]
fn initialize_is_a_call_for_features() {
    let (mut trezor, _) = client(vec![reply(MessageType::Features, &[1, 2])]);
    match trezor.initialize().unwrap() {
        TrezorResponse::Success(features, MessageType::Features) => {
            assert_eq!(features.payload(), &[1, 2][..])
        }
        _ => panic!("features were sent"),
    }
    assert!(trezor.features().is_none());
}

#[test]
fn classify_knows_the_control_types() {
    assert_eq!(classify(MessageType::Address, MessageType::Address), ReplyKind::Expected);
    assert_eq!(classify(MessageType::Failure, MessageType::Address), ReplyKind::Failure);
    assert_eq!(classify(MessageType::ButtonRequest, MessageType::Address), ReplyKind::ButtonRequest);
    assert_eq!(
        classify(MessageType::PinMatrixRequest, MessageType::Address),
        ReplyKind::PinMatrixRequest
    );
    assert_eq!(classify(MessageType::Success, MessageType::Address), ReplyKind::Unexpected);
    assert_eq!(classify(MessageType::ButtonRequest, MessageType::ButtonRequest), ReplyKind::Expected);
}

#[test]
fn interpret_works_for_any_client() {
    let reply = ProtoMessage::new(MessageType::ButtonRequest, vec![8, 2]);
    let response = interpret("client", reply, MessageType::Success, Discard).unwrap();
    match response.next_confirmation() {
        Confirmation::Confirm(request) => {
            assert_eq!(request.client, "client");
            assert_eq!(request.expected, MessageType::Success);
        }
        Confirmation::Done(_) => panic!("a button request is to be confirmed"),
    }
    let reply = ProtoMessage::new(MessageType::Success, vec![]);
    let response = interpret((), reply, MessageType::Success, Discard).unwrap();
    assert!(matches!(response.next_confirmation(), Confirmation::Done(Ok(()))));
    let reply = ProtoMessage::new(MessageType::PinMatrixRequest, vec![]);
    let response = interpret((), reply, MessageType::Success, Discard).unwrap();
    assert!(matches!(
        response.next_confirmation(),
        Confirmation::Done(Err(Error::UnexpectedInteractionRequest(InteractionType::PinMatrix)))
    ));
}

#[test]
fn word_counts() {
    assert_eq!(WordCount::W12.words(), 12);
    assert_eq!(WordCount::W18.words(), 18);
    assert_eq!(WordCount::W24.words(), 24);
}
