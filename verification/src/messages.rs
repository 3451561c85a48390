//! The types of message that the device and the host exchange.

use vstd::prelude::*;
use vstd::string::*;
use crate::error::Error;
use crate::transport::{Envelope, ProtoMessage};

verus! {

#[verifier::external_type_specification]
#[verifier::external_body]
pub struct ExProtobufError(protobuf::ProtobufError);

/// The type of a message, as the 16-bit number in a frame's header names it.
#[derive(Clone, Copy, Debug, PartialEq, Eq, Structural)]
pub enum MessageType {
    Initialize,
    Ping,
    Success,
    Failure,
    ChangePin,
    WipeDevice,
    GetEntropy,
    Entropy,
    GetPublicKey,
    PublicKey,
    LoadDevice,
    ResetDevice,
    SignTx,
    Features,
    PinMatrixRequest,
    PinMatrixAck,
    Cancel,
    TxRequest,
    TxAck,
    ClearSession,
    ApplySettings,
    ButtonRequest,
    ButtonAck,
    ApplyFlags,
    GetAddress,
    Address,
    BackupDevice,
    EntropyRequest,
    EntropyAck,
    SignMessage,
    VerifyMessage,
    MessageSignature,
    PassphraseRequest,
    PassphraseAck,
    RecoveryDevice,
    WordRequest,
    WordAck,
    GetFeatures,
    PassphraseStateRequest,
    PassphraseStateAck,
    TezosGetAddress,
    TezosAddress,
    TezosSignTx,
    TezosSignedTx,
    TezosGetPublicKey,
    TezosPublicKey,
}

impl MessageType {
    /// The number that stands for this type on the wire.
    pub open spec fn id(self) -> u16 {
        match self {
            MessageType::Initialize => 0,
            MessageType::Ping => 1,
            MessageType::Success => 2,
            MessageType::Failure => 3,
            MessageType::ChangePin => 4,
            MessageType::WipeDevice => 5,
            MessageType::GetEntropy => 9,
            MessageType::Entropy => 10,
            MessageType::GetPublicKey => 11,
            MessageType::PublicKey => 12,
            MessageType::LoadDevice => 13,
            MessageType::ResetDevice => 14,
            MessageType::SignTx => 15,
            MessageType::Features => 17,
            MessageType::PinMatrixRequest => 18,
            MessageType::PinMatrixAck => 19,
            MessageType::Cancel => 20,
            MessageType::TxRequest => 21,
            MessageType::TxAck => 22,
            MessageType::ClearSession => 24,
            MessageType::ApplySettings => 25,
            MessageType::ButtonRequest => 26,
            MessageType::ButtonAck => 27,
            MessageType::ApplyFlags => 28,
            MessageType::GetAddress => 29,
            MessageType::Address => 30,
            MessageType::BackupDevice => 34,
            MessageType::EntropyRequest => 35,
            MessageType::EntropyAck => 36,
            MessageType::SignMessage => 38,
            MessageType::VerifyMessage => 39,
            MessageType::MessageSignature => 40,
            MessageType::PassphraseRequest => 41,
            MessageType::PassphraseAck => 42,
            MessageType::RecoveryDevice => 45,
            MessageType::WordRequest => 46,
            MessageType::WordAck => 47,
            MessageType::GetFeatures => 55,
            MessageType::PassphraseStateRequest => 77,
            MessageType::PassphraseStateAck => 78,
            MessageType::TezosGetAddress => 150,
            MessageType::TezosAddress => 151,
            MessageType::TezosSignTx => 152,
            MessageType::TezosSignedTx => 153,
            MessageType::TezosGetPublicKey => 154,
            MessageType::TezosPublicKey => 155,
        }
    }

    /// The type that `id` stands for, if it stands for any.
    pub open spec fn of_id(id: u16) -> Option<MessageType> {
        if id == 0 {
            Some(MessageType::Initialize)
        } else if id == 1 {
            Some(MessageType::Ping)
        } else if id == 2 {
            Some(MessageType::Success)
        } else if id == 3 {
            Some(MessageType::Failure)
        } else if id == 4 {
            Some(MessageType::ChangePin)
        } else if id == 5 {
            Some(MessageType::WipeDevice)
        } else if id == 9 {
            Some(MessageType::GetEntropy)
        } else if id == 10 {
            Some(MessageType::Entropy)
        } else if id == 11 {
            Some(MessageType::GetPublicKey)
        } else if id == 12 {
            Some(MessageType::PublicKey)
        } else if id == 13 {
            Some(MessageType::LoadDevice)
        } else if id == 14 {
            Some(MessageType::ResetDevice)
        } else if id == 15 {
            Some(MessageType::SignTx)
        } else if id == 17 {
            Some(MessageType::Features)
        } else if id == 18 {
            Some(MessageType::PinMatrixRequest)
        } else if id == 19 {
            Some(MessageType::PinMatrixAck)
        } else if id == 20 {
            Some(MessageType::Cancel)
        } else if id == 21 {
            Some(MessageType::TxRequest)
        } else if id == 22 {
            Some(MessageType::TxAck)
        } else if id == 24 {
            Some(MessageType::ClearSession)
        } else if id == 25 {
            Some(MessageType::ApplySettings)
        } else if id == 26 {
            Some(MessageType::ButtonRequest)
        } else if id == 27 {
            Some(MessageType::ButtonAck)
        } else if id == 28 {
            Some(MessageType::ApplyFlags)
        } else if id == 29 {
            Some(MessageType::GetAddress)
        } else if id == 30 {
            Some(MessageType::Address)
        } else if id == 34 {
            Some(MessageType::BackupDevice)
        } else if id == 35 {
            Some(MessageType::EntropyRequest)
        } else if id == 36 {
            Some(MessageType::EntropyAck)
        } else if id == 38 {
            Some(MessageType::SignMessage)
        } else if id == 39 {
            Some(MessageType::VerifyMessage)
        } else if id == 40 {
            Some(MessageType::MessageSignature)
        } else if id == 41 {
            Some(MessageType::PassphraseRequest)
        } else if id == 42 {
            Some(MessageType::PassphraseAck)
        } else if id == 45 {
            Some(MessageType::RecoveryDevice)
        } else if id == 46 {
            Some(MessageType::WordRequest)
        } else if id == 47 {
            Some(MessageType::WordAck)
        } else if id == 55 {
            Some(MessageType::GetFeatures)
        } else if id == 77 {
            Some(MessageType::PassphraseStateRequest)
        } else if id == 78 {
            Some(MessageType::PassphraseStateAck)
        } else if id == 150 {
            Some(MessageType::TezosGetAddress)
        } else if id == 151 {
            Some(MessageType::TezosAddress)
        } else if id == 152 {
            Some(MessageType::TezosSignTx)
        } else if id == 153 {
            Some(MessageType::TezosSignedTx)
        } else if id == 154 {
            Some(MessageType::TezosGetPublicKey)
        } else if id == 155 {
            Some(MessageType::TezosPublicKey)
        } else {
            None
        }
    }

    /// The number that stands for this type on the wire.
    pub fn wire_id(self) -> (id: u16)
        ensures
            id == self.id(),
    {
        match self {
            MessageType::Initialize => 0,
            MessageType::Ping => 1,
            MessageType::Success => 2,
            MessageType::Failure => 3,
            MessageType::ChangePin => 4,
            MessageType::WipeDevice => 5,
            MessageType::GetEntropy => 9,
            MessageType::Entropy => 10,
            MessageType::GetPublicKey => 11,
            MessageType::PublicKey => 12,
            MessageType::LoadDevice => 13,
            MessageType::ResetDevice => 14,
            MessageType::SignTx => 15,
            MessageType::Features => 17,
            MessageType::PinMatrixRequest => 18,
            MessageType::PinMatrixAck => 19,
            MessageType::Cancel => 20,
            MessageType::TxRequest => 21,
            MessageType::TxAck => 22,
            MessageType::ClearSession => 24,
            MessageType::ApplySettings => 25,
            MessageType::ButtonRequest => 26,
            MessageType::ButtonAck => 27,
            MessageType::ApplyFlags => 28,
            MessageType::GetAddress => 29,
            MessageType::Address => 30,
            MessageType::BackupDevice => 34,
            MessageType::EntropyRequest => 35,
            MessageType::EntropyAck => 36,
            MessageType::SignMessage => 38,
            MessageType::VerifyMessage => 39,
            MessageType::MessageSignature => 40,
            MessageType::PassphraseRequest => 41,
            MessageType::PassphraseAck => 42,
            MessageType::RecoveryDevice => 45,
            MessageType::WordRequest => 46,
            MessageType::WordAck => 47,
            MessageType::GetFeatures => 55,
            MessageType::PassphraseStateRequest => 77,
            MessageType::PassphraseStateAck => 78,
            MessageType::TezosGetAddress => 150,
            MessageType::TezosAddress => 151,
            MessageType::TezosSignTx => 152,
            MessageType::TezosSignedTx => 153,
            MessageType::TezosGetPublicKey => 154,
            MessageType::TezosPublicKey => 155,
        }
    }

    /// The type that `id` stands for; `None` for a number that names no type.
    pub fn from_wire_id(id: u16) -> (t: Option<MessageType>)
        ensures
            t == Self::of_id(id),
    {
        match id {
            0 => Some(MessageType::Initialize),
            1 => Some(MessageType::Ping),
            2 => Some(MessageType::Success),
            3 => Some(MessageType::Failure),
            4 => Some(MessageType::ChangePin),
            5 => Some(MessageType::WipeDevice),
            9 => Some(MessageType::GetEntropy),
            10 => Some(MessageType::Entropy),
            11 => Some(MessageType::GetPublicKey),
            12 => Some(MessageType::PublicKey),
            13 => Some(MessageType::LoadDevice),
            14 => Some(MessageType::ResetDevice),
            15 => Some(MessageType::SignTx),
            17 => Some(MessageType::Features),
            18 => Some(MessageType::PinMatrixRequest),
            19 => Some(MessageType::PinMatrixAck),
            20 => Some(MessageType::Cancel),
            21 => Some(MessageType::TxRequest),
            22 => Some(MessageType::TxAck),
            24 => Some(MessageType::ClearSession),
            25 => Some(MessageType::ApplySettings),
            26 => Some(MessageType::ButtonRequest),
            27 => Some(MessageType::ButtonAck),
            28 => Some(MessageType::ApplyFlags),
            29 => Some(MessageType::GetAddress),
            30 => Some(MessageType::Address),
            34 => Some(MessageType::BackupDevice),
            35 => Some(MessageType::EntropyRequest),
            36 => Some(MessageType::EntropyAck),
            38 => Some(MessageType::SignMessage),
            39 => Some(MessageType::VerifyMessage),
            40 => Some(MessageType::MessageSignature),
            41 => Some(MessageType::PassphraseRequest),
            42 => Some(MessageType::PassphraseAck),
            45 => Some(MessageType::RecoveryDevice),
            46 => Some(MessageType::WordRequest),
            47 => Some(MessageType::WordAck),
            55 => Some(MessageType::GetFeatures),
            77 => Some(MessageType::PassphraseStateRequest),
            78 => Some(MessageType::PassphraseStateAck),
            150 => Some(MessageType::TezosGetAddress),
            151 => Some(MessageType::TezosAddress),
            152 => Some(MessageType::TezosSignTx),
            153 => Some(MessageType::TezosSignedTx),
            154 => Some(MessageType::TezosGetPublicKey),
            155 => Some(MessageType::TezosPublicKey),
            _ => None,
        }
    }

    /// Each type is found again from its number.
    pub proof fn lemma_id_round_trip(self)
        ensures
            Self::of_id(self.id()) == Some(self),
    {
    }

    /// A number stands for at most the type whose number it is.
    pub proof fn lemma_of_id_is_inverse(id: u16)
        ensures
            Self::of_id(id) matches Some(t) ==> t.id() == id,
    {
    }
}

/// The body of a `Failure` message: the device's account of why it refused, in the schema's encoding, as it arrived.
#[derive(Debug, Clone, PartialEq, Eq)]
pub struct Failure {
    payload: Vec<u8>,
}

impl View for Failure {
    type V = Seq<u8>;

    closed spec fn view(&self) -> Seq<u8> {
        self.payload@
    }
}

impl Failure {
    /// Takes a payload as the body.
    pub fn new(payload: Vec<u8>) -> (body: Failure)
        ensures
            body@ == payload@,
    {
        Failure { payload }
    }

    /// The encoded body.
    pub fn payload(&self) -> (payload: &[u8])
        ensures
            payload@ == self@,
    {
        self.payload.as_slice()
    }

    /// Gives up the encoded body.
    pub fn into_payload(self) -> (payload: Vec<u8>)
        ensures
            payload@ == self@,
    {
        self.payload
    }
}

/// The body of a `ButtonRequest` message: what the device wants confirmed, in the schema's encoding, as it arrived.
#[derive(Debug, Clone, PartialEq, Eq)]
pub struct ButtonRequest {
    payload: Vec<u8>,
}

impl View for ButtonRequest {
    type V = Seq<u8>;

    closed spec fn view(&self) -> Seq<u8> {
        self.payload@
    }
}

impl ButtonRequest {
    /// Takes a payload as the body.
    pub fn new(payload: Vec<u8>) -> (body: ButtonRequest)
        ensures
            body@ == payload@,
    {
        ButtonRequest { payload }
    }

    /// The encoded body.
    pub fn payload(&self) -> (payload: &[u8])
        ensures
            payload@ == self@,
    {
        self.payload.as_slice()
    }

    /// Gives up the encoded body.
    pub fn into_payload(self) -> (payload: Vec<u8>)
        ensures
            payload@ == self@,
    {
        self.payload
    }
}

/// The body of a `PinMatrixRequest` message: which PIN the device asks for, in the schema's encoding, as it arrived.
#[derive(Debug, Clone, PartialEq, Eq)]
pub struct PinMatrixRequest {
    payload: Vec<u8>,
}

impl View for PinMatrixRequest {
    type V = Seq<u8>;

    closed spec fn view(&self) -> Seq<u8> {
        self.payload@
    }
}

impl PinMatrixRequest {
    /// Takes a payload as the body.
    pub fn new(payload: Vec<u8>) -> (body: PinMatrixRequest)
        ensures
            body@ == payload@,
    {
        PinMatrixRequest { payload }
    }

    /// The encoded body.
    pub fn payload(&self) -> (payload: &[u8])
        ensures
            payload@ == self@,
    {
        self.payload.as_slice()
    }

    /// Gives up the encoded body.
    pub fn into_payload(self) -> (payload: Vec<u8>)
        ensures
            payload@ == self@,
    {
        self.payload
    }
}

/// The body of a `Features` message: what the device says of itself, in the schema's encoding, as it arrived.
#[derive(Debug, Clone, PartialEq, Eq)]
pub struct Features {
    payload: Vec<u8>,
}

impl View for Features {
    type V = Seq<u8>;

    closed spec fn view(&self) -> Seq<u8> {
        self.payload@
    }
}

impl Features {
    /// Takes a payload as the body.
    pub fn new(payload: Vec<u8>) -> (body: Features)
        ensures
            body@ == payload@,
    {
        Features { payload }
    }

    /// The encoded body.
    pub fn payload(&self) -> (payload: &[u8])
        ensures
            payload@ == self@,
    {
        self.payload.as_slice()
    }

    /// Gives up the encoded body.
    pub fn into_payload(self) -> (payload: Vec<u8>)
        ensures
            payload@ == self@,
    {
        self.payload
    }
}

/// The body of a `TezosSignTx` message: the operations that the device is to sign, in the schema's encoding, as it arrived.
#[derive(Debug, Clone, PartialEq, Eq)]
pub struct TezosSignTx {
    payload: Vec<u8>,
}

impl View for TezosSignTx {
    type V = Seq<u8>;

    closed spec fn view(&self) -> Seq<u8> {
        self.payload@
    }
}

impl TezosSignTx {
    /// Takes a payload as the body.
    pub fn new(payload: Vec<u8>) -> (body: TezosSignTx)
        ensures
            body@ == payload@,
    {
        TezosSignTx { payload }
    }

    /// The encoded body.
    pub fn payload(&self) -> (payload: &[u8])
        ensures
            payload@ == self@,
    {
        self.payload.as_slice()
    }

    /// Gives up the encoded body.
    pub fn into_payload(self) -> (payload: Vec<u8>)
        ensures
            payload@ == self@,
    {
        self.payload
    }
}

/// The body of a `TezosSignedTx` message: the device's signature and what it signed, in the schema's encoding, as it arrived.
#[derive(Debug, Clone, PartialEq, Eq)]
pub struct TezosSignedTx {
    payload: Vec<u8>,
}

impl View for TezosSignedTx {
    type V = Seq<u8>;

    closed spec fn view(&self) -> Seq<u8> {
        self.payload@
    }
}

impl TezosSignedTx {
    /// Takes a payload as the body.
    pub fn new(payload: Vec<u8>) -> (body: TezosSignedTx)
        ensures
            body@ == payload@,
    {
        TezosSignedTx { payload }
    }

    /// The encoded body.
    pub fn payload(&self) -> (payload: &[u8])
        ensures
            payload@ == self@,
    {
        self.payload.as_slice()
    }

    /// Gives up the encoded body.
    pub fn into_payload(self) -> (payload: Vec<u8>)
        ensures
            payload@ == self@,
    {
        self.payload
    }
}

/// The largest field number of the schema's encoding.
pub const FIELD_NUMBER_MAX: u32 = 0x1fff_ffff;

/// The number of bytes of entropy that the device takes.
pub const ENTROPY_SIZE: usize = 32;

/// A number in the schema's variable-length encoding: seven bits to a byte,
/// least significant first, the top bit set on every byte but the last.
pub open spec fn varint(value: nat) -> Seq<u8>
    decreases value,
{
    if value < 128 {
        seq![value as u8]
    } else {
        seq![(value % 128 + 128) as u8] + varint(value / 128)
    }
}

/// A field of bytes in the schema's encoding: the field's number with the
/// mark of a length-delimited field, the length, and the bytes.
pub open spec fn bytes_field(field_number: u32, bytes: Seq<u8>) -> Seq<u8> {
    varint((field_number * 8 + 2) as nat) + varint(bytes.len()) + bytes
}

/// A field of a 32-bit number in the schema's encoding: the field's number
/// with the mark of a varint field, and the number.
pub open spec fn uint32_field(field_number: u32, value: u32) -> Seq<u8> {
    varint((field_number * 8) as nat) + varint(value as nat)
}

/// The indices of a key derivation path as the repeated field 1 of a
/// request: one field for each index, in order.
pub open spec fn index_fields(indices: Seq<u32>) -> Seq<u8>
    decreases indices.len(),
{
    if indices.len() == 0 {
        Seq::empty()
    } else {
        index_fields(indices.drop_last()) + uint32_field(1, indices.last())
    }
}

/// The text of field 1 of a message in the schema's encoding, as
/// `protobuf` reads it; `None` where `protobuf` refuses the message.
pub uninterp spec fn text_field(payload: Seq<u8>) -> Option<Seq<char>>;

/// Encodes one field of bytes with `protobuf::CodedOutputStream`: a stream
/// over a fresh vector, `write_bytes`, then `flush`.
///
/// `write_bytes` writes the tag `(field_number << 3) | 2` and the length as
/// varints, then the bytes. On a stream over a vector none of the three calls
/// has a path that returns an error, so the result is `Ok`. The field number
/// has to be one that `Tag::make` accepts, and the length has to fit the 32
/// bits that `write_bytes` narrows it to.
#[verifier::external_body]
fn encode_bytes_field(field_number: u32, bytes: &[u8]) -> (r: Result<Vec<u8>, protobuf::ProtobufError>)
    requires
        0 < field_number <= FIELD_NUMBER_MAX,
        bytes@.len() <= u32::MAX,
    ensures
        r is Ok,
        r matches Ok(encoded) ==> encoded@ == bytes_field(field_number, bytes@),
{
    let mut encoded = Vec::new();
    let mut stream = protobuf::CodedOutputStream::vec(&mut encoded);
    stream.write_bytes(field_number, bytes)?;
    stream.flush()?;
    drop(stream);
    Ok(encoded)
}

/// Encodes one field of a 32-bit number with `protobuf::CodedOutputStream`:
/// a stream over a fresh vector, `write_uint32`, then `flush`.
///
/// `write_uint32` writes the tag `field_number << 3` and the number as
/// varints. On a stream over a vector none of the three calls has a path
/// that returns an error, so the result is `Ok`. The field number has to be
/// one that `Tag::make` accepts.
#[verifier::external_body]
fn encode_uint32_field(field_number: u32, value: u32) -> (r: Result<Vec<u8>, protobuf::ProtobufError>)
    requires
        0 < field_number <= FIELD_NUMBER_MAX,
    ensures
        r is Ok,
        r matches Ok(encoded) ==> encoded@ == uint32_field(field_number, value),
{
    let mut encoded = Vec::new();
    let mut stream = protobuf::CodedOutputStream::vec(&mut encoded);
    stream.write_uint32(field_number, value)?;
    stream.flush()?;
    drop(stream);
    Ok(encoded)
}

/// Reads the text of field 1 of a message: `protobuf::Message::parse_from_bytes`
/// for `protobuf::well_known_types::StringValue`, the message whose only
/// field is a string with the number 1, and of the result its `value`.
///
/// The text that comes back, or that none does, is what `text_field` names.
#[verifier::external_body]
fn decode_text_field(payload: &[u8]) -> (r: Result<String, protobuf::ProtobufError>)
    ensures
        r matches Ok(text) ==> text_field(payload@) == Some(text@),
        r is Err ==> text_field(payload@) is None,
{
    let message: protobuf::well_known_types::StringValue = protobuf::Message::parse_from_bytes(
        payload,
    )?;
    Ok(message.value)
}

/// What reading a text came to, as a result of the library's own: the
/// text as it is, and the decoder's refusal as a codec error.
pub fn decoded_text(decoded: Result<String, protobuf::ProtobufError>) -> (r: Result<String, Error>)
    ensures
        match decoded {
            Ok(text) => r == Ok::<String, Error>(text),
            Err(e) => r == Err::<String, Error>(Error::Protobuf(e)),
        },
{
    match decoded {
        Ok(text) => Ok(text),
        Err(e) => Err(Error::Protobuf(e)),
    }
}

/// The text of field 1 of a reply's body: of an `Address`, a `TezosAddress`
/// or a `TezosPublicKey` the one thing that it carries.
pub fn reply_text(reply: &ProtoMessage) -> (r: Result<String, Error>)
    ensures
        match text_field(reply@.payload) {
            Some(text) => r matches Ok(found) && found@ == text,
            None => r matches Err(Error::Protobuf(_)),
        },
{
    decoded_text(decode_text_field(reply.payload()))
}

/// Encodes the indices of a path as the repeated field 1 of a request.
fn encode_indices(indices: &[u32]) -> (r: Result<Vec<u8>, Error>)
    ensures
        r matches Ok(encoded) && encoded@ == index_fields(indices@),
{
    let mut encoded: Vec<u8> = Vec::new();
    let mut i: usize = 0;
    while i < indices.len()
        invariant
            i <= indices@.len(),
            encoded@ == index_fields(indices@.take(i as int)),
        decreases indices@.len() - i,
    {
        match encode_uint32_field(1, indices[i]) {
            Ok(field) => {
                encoded.extend_from_slice(field.as_slice());
            },
            Err(e) => {
                return Err(Error::Protobuf(e));
            },
        }
        assert(indices@.take(i + 1).drop_last() =~= indices@.take(i as int));
        i = i + 1;
    }
    assert(indices@.take(i as int) =~= indices@);
    Ok(encoded)
}

/// The `Ping` request: the text that the device is to show, as field 1.
///
/// A text of more bytes than 32 bits can count cannot be encoded, nor
/// sent: it is refused as too long a message.
pub fn ping(message: &str) -> (r: Result<ProtoMessage, Error>)
    ensures
        match r {
            Ok(request) => message.spec_bytes().len() <= u32::MAX && request@ == (Envelope {
                message_type: MessageType::Ping,
                payload: bytes_field(1, message.spec_bytes()),
            }),
            Err(e) => message.spec_bytes().len() > u32::MAX && e == Error::TransportSendMessage(
                crate::transport::Error::MessageTooLong(message.spec_bytes().len() as usize),
            ),
        },
{
    let bytes = message.as_bytes();
    if bytes.len() as u64 > 0xffff_ffff {
        return Err(Error::TransportSendMessage(crate::transport::Error::MessageTooLong(bytes.len())));
    }
    match encode_bytes_field(1, bytes) {
        Ok(payload) => Ok(ProtoMessage(MessageType::Ping, payload)),
        Err(e) => Err(Error::Protobuf(e)),
    }
}

/// The name of the coin that `GetAddress` asks an address of, as bytes.
pub open spec fn coin_name() -> Seq<u8> {
    "Komodo".spec_bytes()
}

/// The coin's name is six letters, one byte each.
pub proof fn lemma_coin_name()
    ensures
        coin_name() == seq![0x4bu8, 0x6f, 0x6d, 0x6f, 0x64, 0x6f],
{
    reveal_strlit("Komodo");
    let name = "Komodo";
    assert(is_ascii(name)) by {
        assert(name@.len() == 6);
        assert(name@[0] == 'K' && name@[1] == 'o' && name@[2] == 'm' && name@[3] == 'o' && name@[4]
            == 'd' && name@[5] == 'o');
        reveal(vstd::utf8::is_ascii_chars);
    }
    is_ascii_spec_bytes(name);
    assert(coin_name() =~= seq![0x4bu8, 0x6f, 0x6d, 0x6f, 0x64, 0x6f]);
}

/// The `GetAddress` request for the Komodo address at a path: the path's
/// indices as field 1, and the coin's name as field 2.
pub fn get_komodo_address(indices: &[u32]) -> (r: Result<ProtoMessage, Error>)
    ensures
        r matches Ok(request) && request@ == (Envelope {
            message_type: MessageType::GetAddress,
            payload: index_fields(indices@) + bytes_field(2, coin_name()),
        }),
{
    let mut payload = match encode_indices(indices) {
        Ok(payload) => payload,
        Err(e) => {
            return Err(e);
        },
    };
    let coin = "Komodo".as_bytes();
    proof {
        lemma_coin_name();
    }
    let ghost indices_part = payload@;
    match encode_bytes_field(2, coin) {
        Ok(field) => {
            payload.extend_from_slice(field.as_slice());
            assert(payload@ == indices_part + bytes_field(2, coin_name()));
        },
        Err(e) => {
            return Err(Error::Protobuf(e));
        },
    }
    Ok(ProtoMessage(MessageType::GetAddress, payload))
}

/// The `TezosGetAddress` request for the address at a path: the path's
/// indices as field 1.
pub fn tezos_get_address(indices: &[u32]) -> (r: Result<ProtoMessage, Error>)
    ensures
        r matches Ok(request) && request@ == (Envelope {
            message_type: MessageType::TezosGetAddress,
            payload: index_fields(indices@),
        }),
{
    match encode_indices(indices) {
        Ok(payload) => Ok(ProtoMessage(MessageType::TezosGetAddress, payload)),
        Err(e) => Err(e),
    }
}

/// The `TezosGetPublicKey` request for the public key at a path: the path's
/// indices as field 1.
pub fn tezos_get_public_key(indices: &[u32]) -> (r: Result<ProtoMessage, Error>)
    ensures
        r matches Ok(request) && request@ == (Envelope {
            message_type: MessageType::TezosGetPublicKey,
            payload: index_fields(indices@),
        }),
{
    match encode_indices(indices) {
        Ok(payload) => Ok(ProtoMessage(MessageType::TezosGetPublicKey, payload)),
        Err(e) => Err(e),
    }
}

/// The `TezosSignTx` request: the body as it is.
pub fn tezos_sign_tx(tx: TezosSignTx) -> (request: ProtoMessage)
    ensures
        request@ == (Envelope { message_type: MessageType::TezosSignTx, payload: tx@ }),
{
    ProtoMessage(MessageType::TezosSignTx, tx.into_payload())
}

/// The `Initialize` request: the first message of every session. It has no
/// fields set, so its body is empty.
pub fn initialize() -> (request: ProtoMessage)
    ensures
        request@ == (Envelope { message_type: MessageType::Initialize, payload: Seq::empty() }),
{
    ProtoMessage(MessageType::Initialize, Vec::new())
}

/// The `ButtonAck` request, which confirms a button request. It has no
/// fields, so its body is empty.
pub fn button_ack() -> (request: ProtoMessage)
    ensures
        request@ == (Envelope { message_type: MessageType::ButtonAck, payload: Seq::empty() }),
{
    ProtoMessage(MessageType::ButtonAck, Vec::new())
}

/// The `PinMatrixAck` request, which answers a PIN matrix request: the PIN
/// as field 1.
///
/// A PIN of more bytes than 32 bits can count cannot be encoded, nor sent:
/// it is refused as too long a message.
pub fn pin_matrix_ack(pin: &str) -> (r: Result<ProtoMessage, Error>)
    ensures
        match r {
            Ok(request) => pin.spec_bytes().len() <= u32::MAX && request@ == (Envelope {
                message_type: MessageType::PinMatrixAck,
                payload: bytes_field(1, pin.spec_bytes()),
            }),
            Err(e) => pin.spec_bytes().len() > u32::MAX && e == Error::TransportSendMessage(
                crate::transport::Error::MessageTooLong(pin.spec_bytes().len() as usize),
            ),
        },
{
    let bytes = pin.as_bytes();
    if bytes.len() as u64 > 0xffff_ffff {
        return Err(Error::TransportSendMessage(crate::transport::Error::MessageTooLong(bytes.len())));
    }
    match encode_bytes_field(1, bytes) {
        Ok(payload) => Ok(ProtoMessage(MessageType::PinMatrixAck, payload)),
        Err(e) => Err(Error::Protobuf(e)),
    }
}

/// The `EntropyAck` request, which hands the device the host's share of
/// entropy: exactly `ENTROPY_SIZE` bytes, as field 1.
pub fn entropy_ack(entropy: &Vec<u8>) -> (r: Result<ProtoMessage, Error>)
    ensures
        match r {
            Ok(request) => entropy@.len() == ENTROPY_SIZE && request@ == (Envelope {
                message_type: MessageType::EntropyAck,
                payload: bytes_field(1, entropy@),
            }),
            Err(e) => entropy@.len() != ENTROPY_SIZE && e == Error::InvalidEntropy,
        },
{
    if entropy.len() != ENTROPY_SIZE {
        return Err(Error::InvalidEntropy);
    }
    match encode_bytes_field(1, entropy.as_slice()) {
        Ok(payload) => Ok(ProtoMessage(MessageType::EntropyAck, payload)),
        Err(e) => Err(Error::Protobuf(e)),
    }
}

} // verus!
