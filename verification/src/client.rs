//! The call/response exchange with a device, and what a reply leads to.

use vstd::prelude::*;
use vstd::string::*;
use crate::error::Error;
use crate::messages::{self, Failure, Features, MessageType, TezosSignTx, TezosSignedTx};
use crate::path::KeyDerivationPath;
use crate::transport::{Envelope, Exchange, ProtoMessage, TracedTransport, Transport};
use crate::TrezorModel;

verus! {

/// The kinds of interaction that a device can ask its user for.
#[derive(PartialEq, Eq, Clone, Copy, Debug, Structural)]
pub enum InteractionType {
    Button,
    PinMatrix,
    Passphrase,
    PassphraseState,
}

/// The numbers of words that a seed phrase can have.
#[derive(PartialEq, Eq, Clone, Copy, Debug, Structural)]
pub enum WordCount {
    W12,
    W18,
    W24,
}

impl WordCount {
    /// The number of words.
    pub fn words(self) -> (n: u8)
        ensures
            n == match self {
                WordCount::W12 => 12u8,
                WordCount::W18 => 18u8,
                WordCount::W24 => 24u8,
            },
    {
        match self {
            WordCount::W12 => 12,
            WordCount::W18 => 18,
            WordCount::W24 => 24,
        }
    }
}

/// What a reply is to the call that it answers.
#[derive(PartialEq, Eq, Clone, Copy, Debug, Structural)]
pub enum ReplyKind {
    /// The reply that the call was made for.
    Expected,
    /// The device refuses.
    Failure,
    /// The device waits for its button to be pressed.
    ButtonRequest,
    /// The device waits for a PIN.
    PinMatrixRequest,
    /// None of these.
    Unexpected,
}

/// What a reply of type `reply` is to a call that expects `expected`. The
/// expected type comes first: a call that expects one of the control types
/// gets it as its result.
pub open spec fn reply_kind(reply: MessageType, expected: MessageType) -> ReplyKind {
    if reply == expected {
        ReplyKind::Expected
    } else if reply == MessageType::Failure {
        ReplyKind::Failure
    } else if reply == MessageType::ButtonRequest {
        ReplyKind::ButtonRequest
    } else if reply == MessageType::PinMatrixRequest {
        ReplyKind::PinMatrixRequest
    } else {
        ReplyKind::Unexpected
    }
}

/// Tells what a reply of type `reply` is to a call that expects `expected`.
pub fn classify(reply: MessageType, expected: MessageType) -> (kind: ReplyKind)
    ensures
        kind == reply_kind(reply, expected),
{
    if reply == expected {
        ReplyKind::Expected
    } else {
        match reply {
            MessageType::Failure => ReplyKind::Failure,
            MessageType::ButtonRequest => ReplyKind::ButtonRequest,
            MessageType::PinMatrixRequest => ReplyKind::PinMatrixRequest,
            _ => ReplyKind::Unexpected,
        }
    }
}

/// Turns the reply that a call was made for into the call's result.
pub trait ResultHandler {
    /// The result of a call.
    type Output;

    /// Whether `out` is what this handler may give for `reply`. A handler
    /// that says nothing of itself may give anything.
    open spec fn handled(&self, reply: ProtoMessage, out: Result<Self::Output, Error>) -> bool {
        true
    }

    /// Makes the result of the call from the reply.
    fn handle(&self, reply: ProtoMessage) -> (out: Result<Self::Output, Error>)
        ensures
            self.handled(reply, out),
    ;
}

/// The handler of a reply that carries nothing of interest: any reply is
/// fine, and the result is `()`.
pub struct Discard;

impl ResultHandler for Discard {
    type Output = ();

    open spec fn handled(&self, reply: ProtoMessage, out: Result<(), Error>) -> bool {
        out == Ok::<(), Error>(())
    }

    fn handle(&self, reply: ProtoMessage) -> (out: Result<(), Error>) {
        Ok(())
    }
}

/// The handler of the reply to `Initialize`: the result is the reply's body.
pub struct TakeFeatures;

impl ResultHandler for TakeFeatures {
    type Output = Features;

    open spec fn handled(&self, reply: ProtoMessage, out: Result<Features, Error>) -> bool {
        out matches Ok(features) && features@ == reply@.payload
    }

    fn handle(&self, reply: ProtoMessage) -> (out: Result<Features, Error>) {
        Ok(Features::new(reply.into_payload()))
    }
}

/// The handler of a reply that carries one text: the result is the text of
/// the reply's field 1, and a reply that cannot be read is an error.
pub struct TakeText;

impl ResultHandler for TakeText {
    type Output = String;

    open spec fn handled(&self, reply: ProtoMessage, out: Result<String, Error>) -> bool {
        match messages::text_field(reply@.payload) {
            Some(text) => out matches Ok(found) && found@ == text,
            None => out matches Err(Error::Protobuf(_)),
        }
    }

    fn handle(&self, reply: ProtoMessage) -> (out: Result<String, Error>) {
        messages::reply_text(&reply)
    }
}

/// The handler of the reply to `TezosSignTx`: the result is the reply's body.
pub struct TakeSignedTx;

impl ResultHandler for TakeSignedTx {
    type Output = TezosSignedTx;

    open spec fn handled(&self, reply: ProtoMessage, out: Result<TezosSignedTx, Error>) -> bool {
        out matches Ok(signed) && signed@ == reply@.payload
    }

    fn handle(&self, reply: ProtoMessage) -> (out: Result<TezosSignedTx, Error>) {
        Ok(TezosSignedTx::new(reply.into_payload()))
    }
}

/// A button request from the device, together with what is needed to go on
/// once it is confirmed: the client, held for as long as this value lives,
/// the type of the reply that the call is after, and the handler of that reply.
pub struct ButtonRequest<C, H> {
    pub message: messages::ButtonRequest,
    pub client: C,
    pub expected: MessageType,
    pub result_handler: H,
}

/// A PIN matrix request from the device, together with what is needed to go
/// on once the PIN is at hand.
pub struct PinMatrixRequest<C, H> {
    pub message: messages::PinMatrixRequest,
    pub client: C,
    pub expected: MessageType,
    pub result_handler: H,
}

/// The device's request for the host's share of entropy, together with the
/// client, held for as long as this value lives.
pub struct EntropyRequest<C> {
    pub client: C,
}

/// What a call came to: on every exchange the device can send the reply
/// that was asked for, refuse, or ask for an interaction first.
pub enum TrezorResponse<C, T, H> {
    /// The handler's result, and the type of the reply that it was made from.
    Success(T, MessageType),
    Failure(Failure),
    ButtonRequest(ButtonRequest<C, H>),
    PinMatrixRequest(PinMatrixRequest<C, H>),
}

/// What a reply leads to, by its kind.
///
/// The expected reply goes to the handler, once, and the handler's result
/// or error is the outcome. A failure is kept as it came; the handler does
/// not see it. A request for an interaction is kept with the handler and the
/// expected type, for the call to go on. Any other reply is an error.
pub open spec fn interpreted<C, H: ResultHandler>(
    reply: ProtoMessage,
    expected: MessageType,
    result_handler: H,
    r: Result<TrezorResponse<C, H::Output, H>, Error>,
) -> bool {
    match reply_kind(reply@.message_type, expected) {
        ReplyKind::Expected => match r {
            Ok(TrezorResponse::Success(value, message_type)) => message_type == expected
                && result_handler.handled(reply, Ok::<H::Output, Error>(value)),
            Err(e) => result_handler.handled(reply, Err::<H::Output, Error>(e)),
            _ => false,
        },
        ReplyKind::Failure => r matches Ok(TrezorResponse::Failure(failure)) && failure@
            == reply@.payload,
        ReplyKind::ButtonRequest => r matches Ok(TrezorResponse::ButtonRequest(request))
            && request.message@ == reply@.payload && request.expected == expected
            && request.result_handler == result_handler,
        ReplyKind::PinMatrixRequest => r matches Ok(TrezorResponse::PinMatrixRequest(request))
            && request.message@ == reply@.payload && request.expected == expected
            && request.result_handler == result_handler,
        ReplyKind::Unexpected => r matches Err(Error::UnexpectedMessageType(message_type))
            && message_type == reply@.message_type,
    }
}

/// Turns the reply to a call into the call's outcome. A request for an
/// interaction takes the client along.
pub fn interpret<C, H: ResultHandler>(
    client: C,
    reply: ProtoMessage,
    expected: MessageType,
    result_handler: H,
) -> (r: Result<TrezorResponse<C, H::Output, H>, Error>)
    ensures
        interpreted(reply, expected, result_handler, r),
        r matches Ok(TrezorResponse::ButtonRequest(request)) ==> request.client == client,
        r matches Ok(TrezorResponse::PinMatrixRequest(request)) ==> request.client == client,
        !(r matches Ok(TrezorResponse::ButtonRequest(_)) || r matches Ok(
            TrezorResponse::PinMatrixRequest(_),
        )) ==> has_resolved(client),
{
    match classify(reply.message_type(), expected) {
        ReplyKind::Expected => {
            let value = result_handler.handle(reply)?;
            Ok(TrezorResponse::Success(value, expected))
        },
        ReplyKind::Failure => Ok(TrezorResponse::Failure(Failure::new(reply.into_payload()))),
        ReplyKind::ButtonRequest => Ok(
            TrezorResponse::ButtonRequest(
                ButtonRequest {
                    message: messages::ButtonRequest::new(reply.into_payload()),
                    client,
                    expected,
                    result_handler,
                },
            ),
        ),
        ReplyKind::PinMatrixRequest => Ok(
            TrezorResponse::PinMatrixRequest(
                PinMatrixRequest {
                    message: messages::PinMatrixRequest::new(reply.into_payload()),
                    client,
                    expected,
                    result_handler,
                },
            ),
        ),
        ReplyKind::Unexpected => Err(Error::UnexpectedMessageType(reply.message_type())),
    }
}

impl<C, T, H> TrezorResponse<C, T, H> {
    /// The result of the call, or why there is none: the device's refusal,
    /// or the interaction that the device still waits for.
    pub fn ok(self) -> (r: Result<T, Error>)
        ensures
            match self {
                TrezorResponse::Success(value, _) => r == Ok::<T, Error>(value),
                TrezorResponse::Failure(failure) => r == Err::<T, Error>(
                    Error::FailureResponse(failure),
                ),
                TrezorResponse::ButtonRequest(request) => r == Err::<T, Error>(
                    Error::UnexpectedInteractionRequest(InteractionType::Button),
                ) && has_resolved(request.client),
                TrezorResponse::PinMatrixRequest(request) => r == Err::<T, Error>(
                    Error::UnexpectedInteractionRequest(InteractionType::PinMatrix),
                ) && has_resolved(request.client),
            },
    {
        match self {
            TrezorResponse::Success(value, _) => Ok(value),
            TrezorResponse::Failure(failure) => Err(Error::FailureResponse(failure)),
            TrezorResponse::ButtonRequest(_) => Err(
                Error::UnexpectedInteractionRequest(InteractionType::Button),
            ),
            TrezorResponse::PinMatrixRequest(_) => Err(
                Error::UnexpectedInteractionRequest(InteractionType::PinMatrix),
            ),
        }
    }

    /// The button request, or why there is none: a result of a reply of the
    /// expected type, the device's refusal, or a PIN matrix request.
    pub fn button_request(self) -> (r: Result<ButtonRequest<C, H>, Error>)
        ensures
            match self {
                TrezorResponse::ButtonRequest(request) => r == Ok::<ButtonRequest<C, H>, Error>(
                    request,
                ),
                TrezorResponse::Success(_, message_type) => r == Err::<ButtonRequest<C, H>, Error>(
                    Error::UnexpectedMessageType(message_type),
                ),
                TrezorResponse::Failure(failure) => r == Err::<ButtonRequest<C, H>, Error>(
                    Error::FailureResponse(failure),
                ),
                TrezorResponse::PinMatrixRequest(request) => r == Err::<
                    ButtonRequest<C, H>,
                    Error,
                >(Error::UnexpectedInteractionRequest(InteractionType::PinMatrix))
                    && has_resolved(request.client),
            },
    {
        match self {
            TrezorResponse::ButtonRequest(request) => Ok(request),
            TrezorResponse::Success(_, message_type) => Err(Error::UnexpectedMessageType(message_type)),
            TrezorResponse::Failure(failure) => Err(Error::FailureResponse(failure)),
            TrezorResponse::PinMatrixRequest(_) => Err(
                Error::UnexpectedInteractionRequest(InteractionType::PinMatrix),
            ),
        }
    }

    /// The PIN matrix request, or why there is none: a result of a reply of
    /// the expected type, the device's refusal, or a button request. Every
    /// response but a PIN matrix request gives an error.
    pub fn pin_matrix_request(self) -> (r: Result<PinMatrixRequest<C, H>, Error>)
        ensures
            r is Ok <==> self is PinMatrixRequest,
            match self {
                TrezorResponse::PinMatrixRequest(request) => r == Ok::<
                    PinMatrixRequest<C, H>,
                    Error,
                >(request),
                TrezorResponse::Success(_, message_type) => r == Err::<PinMatrixRequest<C, H>, Error>(
                    Error::UnexpectedMessageType(message_type),
                ),
                TrezorResponse::Failure(failure) => r == Err::<PinMatrixRequest<C, H>, Error>(
                    Error::FailureResponse(failure),
                ),
                TrezorResponse::ButtonRequest(request) => r == Err::<
                    PinMatrixRequest<C, H>,
                    Error,
                >(Error::UnexpectedInteractionRequest(InteractionType::Button))
                    && has_resolved(request.client),
            },
    {
        match self {
            TrezorResponse::PinMatrixRequest(request) => Ok(request),
            TrezorResponse::Success(_, message_type) => Err(Error::UnexpectedMessageType(message_type)),
            TrezorResponse::Failure(failure) => Err(Error::FailureResponse(failure)),
            TrezorResponse::ButtonRequest(_) => Err(
                Error::UnexpectedInteractionRequest(InteractionType::Button),
            ),
        }
    }
}

/// What confirming everything has to do next.
pub enum Confirmation<C, T, H> {
    /// Nothing: this is the end, with this result.
    Done(Result<T, Error>),
    /// Confirm this button request, and go on with what comes back.
    Confirm(ButtonRequest<C, H>),
}

impl<C, T, H> TrezorResponse<C, T, H> {
    /// The next step of confirming everything: a button request is to be
    /// confirmed, and anything else is the end. A PIN matrix request ends
    /// it with an error, since a PIN is never made up.
    pub fn next_confirmation(self) -> (next: Confirmation<C, T, H>)
        ensures
            match self {
                TrezorResponse::Success(value, _) => next matches Confirmation::Done(r) && r
                    == Ok::<T, Error>(value),
                TrezorResponse::Failure(failure) => next matches Confirmation::Done(r) && r
                    == Err::<T, Error>(Error::FailureResponse(failure)),
                TrezorResponse::PinMatrixRequest(request) => (next matches Confirmation::Done(r)
                    && r == Err::<T, Error>(
                    Error::UnexpectedInteractionRequest(InteractionType::PinMatrix),
                )) && has_resolved(request.client),
                TrezorResponse::ButtonRequest(request) => next matches Confirmation::Confirm(
                    pending,
                ) && pending == request,
            },
    {
        match self {
            TrezorResponse::Success(value, _) => Confirmation::Done(Ok(value)),
            TrezorResponse::Failure(failure) => Confirmation::Done(
                Err(Error::FailureResponse(failure)),
            ),
            TrezorResponse::ButtonRequest(request) => Confirmation::Confirm(request),
            TrezorResponse::PinMatrixRequest(_) => Confirmation::Done(
                Err(Error::UnexpectedInteractionRequest(InteractionType::PinMatrix)),
            ),
        }
    }
}

/// A client of one device.
pub struct Trezor {
    model: TrezorModel,
    features: Option<Features>,
    transport: TracedTransport,
}

/// A client of the device behind `transport`.
pub fn trezor_with_transport(model: TrezorModel, transport: Box<dyn Transport>) -> (trezor: Trezor)
    ensures
        trezor.spec_model() == model,
        trezor.spec_features() is None,
        trezor.exchanges() == Seq::<Exchange>::empty(),
{
    Trezor { model, features: None, transport: TracedTransport::new(transport) }
}

/// What the record of a client's transport shows of one round trip that
/// ended as `r`: the request was written, once, and then one reply was read,
/// unless the write failed. A failure of either is the result.
pub open spec fn round_trip(
    before: Seq<Exchange>,
    after: Seq<Exchange>,
    request: Envelope,
    r: Result<ProtoMessage, Error>,
) -> bool {
    match r {
        Ok(reply) => after == before.push(Exchange::Sent(request)).push(Exchange::Received(reply)),
        Err(Error::TransportSendMessage(e)) => after == before.push(
            Exchange::SendFailed(request, e),
        ),
        Err(Error::TransportReceiveMessage(e)) => after == before.push(
            Exchange::Sent(request),
        ).push(Exchange::ReceiveFailed(e)),
        Err(_) => false,
    }
}

impl Trezor {
    /// The model of the device.
    pub closed spec fn spec_model(&self) -> TrezorModel {
        self.model
    }

    /// What the device said of itself when it was initialized, if it was.
    pub closed spec fn spec_features(&self) -> Option<Features> {
        self.features
    }

    /// Every message written to the device and read from it through this
    /// client, oldest first.
    pub closed spec fn exchanges(&self) -> Seq<Exchange> {
        self.transport.trace()
    }

    /// The model of the device.
    pub fn model(&self) -> (model: TrezorModel)
        ensures
            model == self.spec_model(),
    {
        self.model
    }

    /// What the device said of itself when it was initialized, if it was.
    pub fn features(&self) -> (features: Option<&Features>)
        ensures
            match features {
                Some(features) => self.spec_features() == Some(*features),
                None => self.spec_features() is None,
            },
    {
        self.features.as_ref()
    }

    /// One round trip: writes the request, then reads one reply, which is
    /// handed back as it came.
    pub fn call_raw(&mut self, message: ProtoMessage) -> (r: Result<ProtoMessage, Error>)
        ensures
            round_trip(old(self).exchanges(), final(self).exchanges(), message@, r),
            final(self).spec_model() == old(self).spec_model(),
            final(self).spec_features() == old(self).spec_features(),
    {
        match self.transport.write_message(message) {
            Ok(_) => {},
            Err(e) => {
                return Err(Error::TransportSendMessage(e));
            },
        }
        match self.transport.read_message() {
            Ok(reply) => Ok(reply),
            Err(e) => Err(Error::TransportReceiveMessage(e)),
        }
    }
}

/// The client as a call left it: held by the request for an interaction
/// that the call ended with, or else as found once the call is over.
pub open spec fn settled<'a, T, H>(
    r: Result<TrezorResponse<&'a mut Trezor, T, H>, Error>,
    otherwise: Trezor,
) -> Trezor {
    match r {
        Ok(TrezorResponse::ButtonRequest(request)) => *request.client,
        Ok(TrezorResponse::PinMatrixRequest(request)) => *request.client,
        _ => otherwise,
    }
}

/// What the record of a client's transport shows of one call that ended as
/// `r`: one round trip, whose reply led to `r`.
pub open spec fn exchanged<C, H: ResultHandler>(
    before: Seq<Exchange>,
    after: Seq<Exchange>,
    request: Envelope,
    expected: MessageType,
    result_handler: H,
    r: Result<TrezorResponse<C, H::Output, H>, Error>,
) -> bool {
    if after.len() == before.len() + 1 {
        &&& after.drop_last() == before
        &&& after.last() matches Exchange::SendFailed(sent, e) && sent == request && r
            == Err::<TrezorResponse<C, H::Output, H>, Error>(Error::TransportSendMessage(e))
    } else {
        &&& after.len() == before.len() + 2
        &&& after.drop_last() == before.push(Exchange::Sent(request))
        &&& match after.last() {
            Exchange::Received(reply) => interpreted(reply, expected, result_handler, r),
            Exchange::ReceiveFailed(e) => r == Err::<TrezorResponse<C, H::Output, H>, Error>(
                Error::TransportReceiveMessage(e),
            ),
            _ => false,
        }
    }
}

/// What one call that ended as `r` did to the client: one exchange on its
/// transport, and nothing else.
pub open spec fn called<C, H: ResultHandler>(
    before: Trezor,
    after: Trezor,
    request: Envelope,
    expected: MessageType,
    result_handler: H,
    r: Result<TrezorResponse<C, H::Output, H>, Error>,
) -> bool {
    &&& after.spec_model() == before.spec_model()
    &&& after.spec_features() == before.spec_features()
    &&& exchanged(before.exchanges(), after.exchanges(), request, expected, result_handler, r)
}

impl Trezor {
    /// One call: a round trip, and what its reply leads to.
    ///
    /// A reply of the expected type goes to `result_handler`, whose result is
    /// the outcome. A failure, a button request or a PIN matrix request is the
    /// outcome as such; a request holds this client until it is acknowledged
    /// or dropped. Any other reply is an error, as is a failure of the
    /// transport, after which nothing more is written or read.
    pub fn call<'a, H: ResultHandler>(
        &'a mut self,
        message: ProtoMessage,
        expected: MessageType,
        result_handler: H,
    ) -> (r: Result<TrezorResponse<&'a mut Trezor, H::Output, H>, Error>)
        ensures
            match r {
                Ok(TrezorResponse::ButtonRequest(request)) => *final(self)
                    == *final(request.client),
                Ok(TrezorResponse::PinMatrixRequest(request)) => *final(self)
                    == *final(request.client),
                _ => true,
            },
            called(*old(self), settled(r, *final(self)), message@, expected, result_handler, r),
    {
        let ghost before = self.exchanges();
        match self.call_raw(message) {
            Err(e) => {
                assert(self.exchanges().drop_last() =~= before || self.exchanges().drop_last()
                    =~= before.push(Exchange::Sent(message@)));
                Err(e)
            },
            Ok(reply) => {
                assert(self.exchanges().drop_last() =~= before.push(Exchange::Sent(message@)));
                interpret(self, reply, expected, result_handler)
            },
        }
    }
}

impl<'a, H: ResultHandler> ButtonRequest<&'a mut Trezor, H> {
    /// Confirms the request and takes the device's next reply: one more
    /// call, of a `ButtonAck`, with the same expected type and handler.
    pub fn ack(self) -> (r: Result<TrezorResponse<&'a mut Trezor, H::Output, H>, Error>)
        ensures
            match r {
                Ok(TrezorResponse::ButtonRequest(request)) => *final(self.client)
                    == *final(request.client),
                Ok(TrezorResponse::PinMatrixRequest(request)) => *final(self.client)
                    == *final(request.client),
                _ => true,
            },
            called(
                *old(self.client),
                settled(r, *final(self.client)),
                button_ack_sent(),
                self.expected,
                self.result_handler,
                r,
            ),
    {
        self.client.call(messages::button_ack(), self.expected, self.result_handler)
    }
}

impl<'a, H: ResultHandler> PinMatrixRequest<&'a mut Trezor, H> {
    /// Answers the request with a PIN and takes the device's next reply:
    /// one more call, of a `PinMatrixAck` with the PIN, with the same
    /// expected type and handler.
    ///
    /// A PIN too long to be encoded is refused before anything is sent.
    pub fn ack_pin(self, pin: String) -> (r: Result<
        TrezorResponse<&'a mut Trezor, H::Output, H>,
        Error,
    >)
        ensures
            match r {
                Ok(TrezorResponse::ButtonRequest(request)) => *final(self.client)
                    == *final(request.client),
                Ok(TrezorResponse::PinMatrixRequest(request)) => *final(self.client)
                    == *final(request.client),
                _ => true,
            },
            if vstd::utf8::encode_utf8(pin@).len() > u32::MAX {
                &&& r == Err::<TrezorResponse<&'a mut Trezor, H::Output, H>, Error>(
                    Error::TransportSendMessage(
                        crate::transport::Error::MessageTooLong(
                            vstd::utf8::encode_utf8(pin@).len() as usize,
                        ),
                    ),
                )
                &&& *final(self.client) == *old(self.client)
            } else {
                called(
                    *old(self.client),
                    settled(r, *final(self.client)),
                    Envelope {
                        message_type: MessageType::PinMatrixAck,
                        payload: messages::bytes_field(1, vstd::utf8::encode_utf8(pin@)),
                    },
                    self.expected,
                    self.result_handler,
                    r,
                )
            },
    {
        match messages::pin_matrix_ack(pin.as_str()) {
            Err(e) => Err(e),
            Ok(request) => self.client.call(request, self.expected, self.result_handler),
        }
    }
}

impl<'a> EntropyRequest<&'a mut Trezor> {
    /// Hands the device exactly 32 bytes of entropy and takes its next
    /// reply: one call, of an `EntropyAck`, that expects a `Success`.
    ///
    /// Entropy of any other length is refused before anything is sent.
    pub fn ack_entropy(self, entropy: Vec<u8>) -> (r: Result<
        TrezorResponse<&'a mut Trezor, (), Discard>,
        Error,
    >)
        ensures
            match r {
                Ok(TrezorResponse::ButtonRequest(request)) => *final(self.client)
                    == *final(request.client),
                Ok(TrezorResponse::PinMatrixRequest(request)) => *final(self.client)
                    == *final(request.client),
                _ => true,
            },
            if entropy@.len() != messages::ENTROPY_SIZE {
                &&& r == Err::<TrezorResponse<&'a mut Trezor, (), Discard>, Error>(
                    Error::InvalidEntropy,
                )
                &&& *final(self.client) == *old(self.client)
            } else {
                called(
                    *old(self.client),
                    settled(r, *final(self.client)),
                    Envelope {
                        message_type: MessageType::EntropyAck,
                        payload: messages::bytes_field(1, entropy@),
                    },
                    MessageType::Success,
                    Discard,
                    r,
                )
            },
    {
        match messages::entropy_ack(&entropy) {
            Err(e) => Err(e),
            Ok(request) => self.client.call(request, MessageType::Success, Discard),
        }
    }
}

/// What initializing a device that ended as `r` did to its client: one
/// exchange, of an `Initialize` that expects `Features`. The features are
/// kept exactly when they came; nothing else of the client changes.
pub open spec fn initialized(before: Trezor, after: Trezor, r: Result<(), Error>) -> bool {
    let sent = before.exchanges().push(
        Exchange::Sent(Envelope { message_type: MessageType::Initialize, payload: Seq::empty() }),
    );
    &&& after.spec_model() == before.spec_model()
    &&& r is Err ==> after.spec_features() == before.spec_features()
    &&& if after.exchanges().len() == before.exchanges().len() + 1 {
        &&& after.exchanges().drop_last() == before.exchanges()
        &&& after.exchanges().last() matches Exchange::SendFailed(request, e) && sent
            == before.exchanges().push(Exchange::Sent(request)) && r == Err::<(), Error>(
            Error::TransportSendMessage(e),
        )
    } else {
        &&& after.exchanges().len() == before.exchanges().len() + 2
        &&& after.exchanges().drop_last() == sent
        &&& match after.exchanges().last() {
            Exchange::ReceiveFailed(e) => r == Err::<(), Error>(Error::TransportReceiveMessage(e)),
            Exchange::Received(reply) => match reply_kind(
                reply@.message_type,
                MessageType::Features,
            ) {
                ReplyKind::Expected => r is Ok && (after.spec_features() matches Some(features)
                    && features@ == reply@.payload),
                ReplyKind::Failure => r matches Err(Error::FailureResponse(failure)) && failure@
                    == reply@.payload,
                ReplyKind::ButtonRequest => r == Err::<(), Error>(
                    Error::UnexpectedInteractionRequest(InteractionType::Button),
                ),
                ReplyKind::PinMatrixRequest => r == Err::<(), Error>(
                    Error::UnexpectedInteractionRequest(InteractionType::PinMatrix),
                ),
                ReplyKind::Unexpected => r == Err::<(), Error>(
                    Error::UnexpectedMessageType(reply@.message_type),
                ),
            },
            _ => false,
        }
    }
}

impl Trezor {
    /// Asks the device what it is: a call of `Initialize` whose result is
    /// the body of the `Features` that come back.
    pub fn initialize<'a>(&'a mut self) -> (r: Result<
        TrezorResponse<&'a mut Trezor, Features, TakeFeatures>,
        Error,
    >)
        ensures
            match r {
                Ok(TrezorResponse::ButtonRequest(request)) => *final(self)
                    == *final(request.client),
                Ok(TrezorResponse::PinMatrixRequest(request)) => *final(self)
                    == *final(request.client),
                _ => true,
            },
            called(
                *old(self),
                settled(r, *final(self)),
                Envelope { message_type: MessageType::Initialize, payload: Seq::empty() },
                MessageType::Features,
                TakeFeatures,
                r,
            ),
    {
        self.call(messages::initialize(), MessageType::Features, TakeFeatures)
    }

    /// Initializes the device and keeps what it says of itself. To be
    /// called once, first, after connecting.
    pub fn init_device(&mut self) -> (r: Result<(), Error>)
        ensures
            initialized(*old(self), *final(self), r),
    {
        let response = match self.initialize() {
            Ok(response) => response,
            Err(e) => {
                return Err(e);
            },
        };
        match response.ok() {
            Ok(features) => {
                self.features = Some(features);
                Ok(())
            },
            Err(e) => Err(e),
        }
    }
}

/// The most button requests in a row that `ack_all` confirms before it
/// gives up.
pub const MAX_CONFIRMATIONS: u64 = u64::MAX;

/// The `ButtonAck` request as it travels.
pub open spec fn button_ack_sent() -> Envelope {
    Envelope { message_type: MessageType::ButtonAck, payload: Seq::empty() }
}

/// What the record of a client's transport shows of confirming a pending
/// button request, and every button request after it, with `r` as the end.
///
/// Each confirmation is one round trip of a `ButtonAck`. A reply that is
/// another button request is confirmed in turn, as long as `budget` lasts.
/// The first other reply ends it: the expected one with what the handler
/// makes of it, a failure and a PIN matrix request with their errors. So
/// does the first failure of the transport.
pub open spec fn confirmed<H: ResultHandler>(
    events: Seq<Exchange>,
    expected: MessageType,
    result_handler: H,
    budget: nat,
    r: Result<H::Output, Error>,
) -> bool
    decreases events.len(),
{
    if events.len() == 1 {
        events[0] matches Exchange::SendFailed(request, e) && request == button_ack_sent() && r
            == Err::<H::Output, Error>(Error::TransportSendMessage(e))
    } else {
        &&& events.len() >= 2
        &&& events[0] == Exchange::Sent(button_ack_sent())
        &&& match events[1] {
            Exchange::ReceiveFailed(e) => events.len() == 2 && r == Err::<H::Output, Error>(
                Error::TransportReceiveMessage(e),
            ),
            Exchange::Received(reply) => match reply_kind(reply@.message_type, expected) {
                ReplyKind::Expected => events.len() == 2 && result_handler.handled(reply, r),
                ReplyKind::Failure => events.len() == 2 && (r matches Err(
                    Error::FailureResponse(failure),
                ) && failure@ == reply@.payload),
                ReplyKind::PinMatrixRequest => events.len() == 2 && r == Err::<H::Output, Error>(
                    Error::UnexpectedInteractionRequest(InteractionType::PinMatrix),
                ),
                ReplyKind::Unexpected => events.len() == 2 && r == Err::<H::Output, Error>(
                    Error::UnexpectedMessageType(reply@.message_type),
                ),
                ReplyKind::ButtonRequest => if budget == 0 {
                    events.len() == 2 && r == Err::<H::Output, Error>(
                        Error::UnexpectedInteractionRequest(InteractionType::Button),
                    )
                } else {
                    confirmed(events.skip(2), expected, result_handler, (budget - 1) as nat, r)
                },
            },
            _ => false,
        }
    }
}

/// The events at `2 * i` and after it are one confirmation that led to
/// another button request.
pub open spec fn is_confirmation(events: Seq<Exchange>, expected: MessageType, i: int) -> bool {
    &&& events[2 * i] == Exchange::Sent(button_ack_sent())
    &&& events[2 * i + 1] matches Exchange::Received(reply) && reply_kind(
        reply@.message_type,
        expected,
    ) is ButtonRequest
}

/// The events are confirmations, each of which led to another button request.
pub open spec fn all_confirmations(events: Seq<Exchange>, expected: MessageType) -> bool {
    &&& events.len() % 2 == 0
    &&& forall|i: int| 0 <= i < events.len() / 2 ==> is_confirmation(events, expected, i)
}

/// Confirmations that led to more button requests, followed by events that
/// end the confirming, end it the same way.
proof fn lemma_confirmed_after<H: ResultHandler>(
    done: Seq<Exchange>,
    rest: Seq<Exchange>,
    expected: MessageType,
    result_handler: H,
    budget: nat,
    r: Result<H::Output, Error>,
)
    requires
        all_confirmations(done, expected),
        done.len() / 2 <= budget,
        confirmed(rest, expected, result_handler, (budget - done.len() / 2) as nat, r),
    ensures
        confirmed(done + rest, expected, result_handler, budget, r),
    decreases done.len(),
{
    if done.len() == 0 {
        assert(done + rest =~= rest);
    } else {
        let tail = done.skip(2);
        assert(is_confirmation(done, expected, 0));
        assert forall|i: int| 0 <= i < tail.len() / 2 implies is_confirmation(
            tail,
            expected,
            i,
        ) by {
            assert(is_confirmation(done, expected, i + 1));
        }
        lemma_confirmed_after(tail, rest, expected, result_handler, (budget - 1) as nat, r);
        assert((done + rest).skip(2) =~= tail + rest);
        assert((done + rest)[0] == done[0]);
        assert((done + rest)[1] == done[1]);
    }
}

impl<'a, H: ResultHandler> ButtonRequest<&'a mut Trezor, H> {
    /// Confirms this button request and every one that follows it, up to
    /// the call's result. Nothing is ever made up for the device: a PIN
    /// matrix request ends the confirming with an error.
    pub fn ack_all(self) -> (r: Result<H::Output, Error>)
        ensures
            final(self.client).spec_model() == old(self.client).spec_model(),
            final(self.client).spec_features() == old(self.client).spec_features(),
            old(self.client).exchanges().is_prefix_of(final(self.client).exchanges()),
            confirmed(
                final(self.client).exchanges().skip(old(self.client).exchanges().len() as int),
                self.expected,
                self.result_handler,
                MAX_CONFIRMATIONS as nat,
                r,
            ),
    {
        let ButtonRequest { message: _, client, expected, result_handler } = self;
        let ghost start = client.exchanges();
        let mut rounds: u64 = 0;
        loop
            invariant
                client.spec_model() == old(self.client).spec_model(),
                client.spec_features() == old(self.client).spec_features(),
                start == old(self.client).exchanges(),
                start.is_prefix_of(client.exchanges()),
                *final(client) == *final(self.client),
                expected == self.expected,
                result_handler == self.result_handler,
                rounds <= MAX_CONFIRMATIONS,
                client.exchanges().len() == start.len() + 2 * rounds,
                all_confirmations(client.exchanges().skip(start.len() as int), expected),
            decreases MAX_CONFIRMATIONS - rounds,
        {
            let ghost done = client.exchanges().skip(start.len() as int);
            let ghost before = client.exchanges();
            let ghost budget = (MAX_CONFIRMATIONS - rounds) as nat;
            let outcome = client.call_raw(messages::button_ack());
            let ghost last = client.exchanges().skip(before.len() as int);
            assert(client.exchanges().skip(start.len() as int) =~= done + last);
            let reply = match outcome {
                Ok(reply) => reply,
                Err(e) => {
                    proof {
                        assert(confirmed(last, expected, result_handler, budget, Err(e)));
                        lemma_confirmed_after(
                            done,
                            last,
                            expected,
                            result_handler,
                            MAX_CONFIRMATIONS as nat,
                            Err(e),
                        );
                    }
                    return Err(e);
                },
            };
            assert(last =~= seq![Exchange::Sent(button_ack_sent()), Exchange::Received(reply)]);
            let r = match classify(reply.message_type(), expected) {
                ReplyKind::Expected => result_handler.handle(reply),
                ReplyKind::Failure => Err(
                    Error::FailureResponse(Failure::new(reply.into_payload())),
                ),
                ReplyKind::PinMatrixRequest => Err(
                    Error::UnexpectedInteractionRequest(InteractionType::PinMatrix),
                ),
                ReplyKind::Unexpected => Err(Error::UnexpectedMessageType(reply.message_type())),
                ReplyKind::ButtonRequest => {
                    if rounds < MAX_CONFIRMATIONS {
                        proof {
                            let now = done + last;
                            assert forall|i: int| 0 <= i < now.len() / 2 implies is_confirmation(
                                now,
                                expected,
                                i,
                            ) by {
                                if i < done.len() / 2 {
                                    assert(is_confirmation(done, expected, i));
                                }
                            }
                        }
                        rounds = rounds + 1;
                        continue ;
                    }
                    Err(Error::UnexpectedInteractionRequest(InteractionType::Button))
                },
            };
            proof {
                assert(confirmed(last, expected, result_handler, budget, r));
                lemma_confirmed_after(
                    done,
                    last,
                    expected,
                    result_handler,
                    MAX_CONFIRMATIONS as nat,
                    r,
                );
            }
            return r;
        }
    }
}

impl<'a, H: ResultHandler> TrezorResponse<&'a mut Trezor, H::Output, H> {
    /// Confirms every button request on the way and gives the call's result.
    ///
    /// A result or a failure is final as it stands, and nothing is sent. A
    /// button request is confirmed, and so is each that follows. A PIN
    /// matrix request is an error, at once or later: a PIN is never made up.
    pub fn ack_all(self) -> (r: Result<H::Output, Error>)
        ensures
            match self {
                TrezorResponse::Success(value, _) => r == Ok::<H::Output, Error>(value),
                TrezorResponse::Failure(failure) => r == Err::<H::Output, Error>(
                    Error::FailureResponse(failure),
                ),
                TrezorResponse::PinMatrixRequest(request) => {
                    &&& r == Err::<H::Output, Error>(
                        Error::UnexpectedInteractionRequest(InteractionType::PinMatrix),
                    )
                    &&& *final(request.client) == *request.client
                },
                TrezorResponse::ButtonRequest(request) => {
                    &&& final(request.client).spec_model() == request.client.spec_model()
                    &&& final(request.client).spec_features() == request.client.spec_features()
                    &&& request.client.exchanges().is_prefix_of(
                        final(request.client).exchanges(),
                    )
                    &&& confirmed(
                        final(request.client).exchanges().skip(
                            request.client.exchanges().len() as int,
                        ),
                        request.expected,
                        request.result_handler,
                        MAX_CONFIRMATIONS as nat,
                        r,
                    )
                },
            },
    {
        match self.next_confirmation() {
            Confirmation::Done(r) => r,
            Confirmation::Confirm(request) => request.ack_all(),
        }
    }
}

impl Trezor {
    /// Has the device show a text: a call of `Ping` that expects `Success`.
    ///
    /// A text too long to be encoded is refused before anything is sent.
    pub fn ping<'a>(&'a mut self, message: &str) -> (r: Result<
        TrezorResponse<&'a mut Trezor, (), Discard>,
        Error,
    >)
        ensures
            match r {
                Ok(TrezorResponse::ButtonRequest(request)) => *final(self)
                    == *final(request.client),
                Ok(TrezorResponse::PinMatrixRequest(request)) => *final(self)
                    == *final(request.client),
                _ => true,
            },
            if message.spec_bytes().len() > u32::MAX {
                &&& r == Err::<TrezorResponse<&'a mut Trezor, (), Discard>, Error>(
                    Error::TransportSendMessage(
                        crate::transport::Error::MessageTooLong(
                            message.spec_bytes().len() as usize,
                        ),
                    ),
                )
                &&& *final(self) == *old(self)
            } else {
                called(
                    *old(self),
                    settled(r, *final(self)),
                    Envelope {
                        message_type: MessageType::Ping,
                        payload: messages::bytes_field(1, message.spec_bytes()),
                    },
                    MessageType::Success,
                    Discard,
                    r,
                )
            },
    {
        match messages::ping(message) {
            Err(e) => Err(e),
            Ok(request) => self.call(request, MessageType::Success, Discard),
        }
    }

    /// Asks for the Tezos address at a path: a call of `TezosGetAddress`
    /// whose result is the text of the `TezosAddress` that comes back.
    pub fn get_address<'a>(&'a mut self, path: &KeyDerivationPath) -> (r: Result<
        TrezorResponse<&'a mut Trezor, String, TakeText>,
        Error,
    >)
        ensures
            match r {
                Ok(TrezorResponse::ButtonRequest(request)) => *final(self)
                    == *final(request.client),
                Ok(TrezorResponse::PinMatrixRequest(request)) => *final(self)
                    == *final(request.client),
                _ => true,
            },
            called(
                *old(self),
                settled(r, *final(self)),
                Envelope {
                    message_type: MessageType::TezosGetAddress,
                    payload: messages::index_fields(path@),
                },
                MessageType::TezosAddress,
                TakeText,
                r,
            ),
    {
        match messages::tezos_get_address(path.as_ref()) {
            Err(e) => Err(e),
            Ok(request) => self.call(request, MessageType::TezosAddress, TakeText),
        }
    }

    /// Asks for the Komodo address at a path: a call of `GetAddress` for
    /// the coin whose result is the text of the `Address` that comes back.
    pub fn get_komodo_address<'a>(&'a mut self, path: &KeyDerivationPath) -> (r: Result<
        TrezorResponse<&'a mut Trezor, String, TakeText>,
        Error,
    >)
        ensures
            match r {
                Ok(TrezorResponse::ButtonRequest(request)) => *final(self)
                    == *final(request.client),
                Ok(TrezorResponse::PinMatrixRequest(request)) => *final(self)
                    == *final(request.client),
                _ => true,
            },
            called(
                *old(self),
                settled(r, *final(self)),
                Envelope {
                    message_type: MessageType::GetAddress,
                    payload: messages::index_fields(path@) + messages::bytes_field(
                        2,
                        messages::coin_name(),
                    ),
                },
                MessageType::Address,
                TakeText,
                r,
            ),
    {
        match messages::get_komodo_address(path.as_ref()) {
            Err(e) => Err(e),
            Ok(request) => self.call(request, MessageType::Address, TakeText),
        }
    }

    /// Asks for the Tezos public key at a path: a call of
    /// `TezosGetPublicKey` whose result is the text of the `TezosPublicKey`
    /// that comes back.
    pub fn get_public_key<'a>(&'a mut self, path: &KeyDerivationPath) -> (r: Result<
        TrezorResponse<&'a mut Trezor, String, TakeText>,
        Error,
    >)
        ensures
            match r {
                Ok(TrezorResponse::ButtonRequest(request)) => *final(self)
                    == *final(request.client),
                Ok(TrezorResponse::PinMatrixRequest(request)) => *final(self)
                    == *final(request.client),
                _ => true,
            },
            called(
                *old(self),
                settled(r, *final(self)),
                Envelope {
                    message_type: MessageType::TezosGetPublicKey,
                    payload: messages::index_fields(path@),
                },
                MessageType::TezosPublicKey,
                TakeText,
                r,
            ),
    {
        match messages::tezos_get_public_key(path.as_ref()) {
            Err(e) => Err(e),
            Ok(request) => self.call(request, MessageType::TezosPublicKey, TakeText),
        }
    }

    /// Has the device sign Tezos operations: a call of `TezosSignTx` whose
    /// result is the body of the `TezosSignedTx` that comes back.
    pub fn sign_tx<'a>(&'a mut self, tx: TezosSignTx) -> (r: Result<
        TrezorResponse<&'a mut Trezor, TezosSignedTx, TakeSignedTx>,
        Error,
    >)
        ensures
            match r {
                Ok(TrezorResponse::ButtonRequest(request)) => *final(self)
                    == *final(request.client),
                Ok(TrezorResponse::PinMatrixRequest(request)) => *final(self)
                    == *final(request.client),
                _ => true,
            },
            called(
                *old(self),
                settled(r, *final(self)),
                Envelope { message_type: MessageType::TezosSignTx, payload: tx@ },
                MessageType::TezosSignedTx,
                TakeSignedTx,
                r,
            ),
    {
        self.call(messages::tezos_sign_tx(tx), MessageType::TezosSignedTx, TakeSignedTx)
    }
}

} // verus!
