//! The chunked framing of messages: how one message becomes a run of
//! 64-byte chunks, and how such a run becomes the message again.
//!
//! A message is framed as `##`, its type as 16 bits, its payload's length
//! as 32 bits (both most significant byte first), and the payload. The
//! frame is cut into pieces of 63 bytes; each piece travels behind a `?`,
//! and the last one is filled up with zeros.

use vstd::prelude::*;
use crate::messages::MessageType;
use super::error::Error;
use super::link::{Link, LinkEvent, TracedLink};
use super::{Envelope, ProtoMessage, Transport};

verus! {

/// The byte that every chunk starts with.
pub const CHUNK_MARKER: u8 = 0x3f;

/// The byte that a frame's header starts with, twice.
pub const HEADER_MARKER: u8 = 0x23;

/// The longest payload that a frame can announce.
pub const MAX_PAYLOAD_SIZE: u64 = 0xffff_ffff;

/// A 16-bit number as two bytes, most significant first.
pub open spec fn be16(value: u16) -> Seq<u8> {
    seq![(value / 256) as u8, (value % 256) as u8]
}

/// A 32-bit number as four bytes, most significant first.
pub open spec fn be32(value: u32) -> Seq<u8> {
    seq![
        (value / 16777216) as u8,
        (value / 65536 % 256) as u8,
        (value / 256 % 256) as u8,
        (value % 256) as u8,
    ]
}

/// The 16-bit number that two bytes write, most significant first.
pub open spec fn from_be16(b0: u8, b1: u8) -> u16 {
    (b0 * 256 + b1) as u16
}

/// The 32-bit number that four bytes write, most significant first.
pub open spec fn from_be32(b0: u8, b1: u8, b2: u8, b3: u8) -> u32 {
    (b0 * 16777216 + b1 * 65536 + b2 * 256 + b3) as u32
}

/// The header of a frame for a payload of `length` bytes.
pub open spec fn header(message_type: MessageType, length: u32) -> Seq<u8> {
    seq![HEADER_MARKER, HEADER_MARKER] + be16(message_type.id()) + be32(length)
}

/// A message's frame: header, then payload.
pub open spec fn frame(message: Envelope) -> Seq<u8>
    recommends
        message.payload.len() <= MAX_PAYLOAD_SIZE,
{
    header(message.message_type, message.payload.len() as u32) + message.payload
}

/// The number of chunks that `n` bytes of frame take.
pub open spec fn chunk_count(n: nat) -> nat {
    (n + 62) / 63
}

/// The chunk with the given index: the marker, then the bytes of `data`
/// from `63 * index` on, then zeros where `data` has ended.
pub open spec fn chunk_at(data: Seq<u8>, index: int) -> Seq<u8> {
    Seq::new(
        64,
        |j: int|
            if j == 0 {
                CHUNK_MARKER
            } else if 63 * index + j - 1 < data.len() {
                data[63 * index + j - 1]
            } else {
                0u8
            },
    )
}

/// All the chunks of `data`, in the order in which they travel.
pub open spec fn chunks_of(data: Seq<u8>) -> Seq<Seq<u8>> {
    Seq::new(chunk_count(data.len()), |i: int| chunk_at(data, i))
}

/// The chunks that carry a message.
pub open spec fn message_chunks(message: Envelope) -> Seq<Seq<u8>>
    recommends
        message.payload.len() <= MAX_PAYLOAD_SIZE,
{
    chunks_of(frame(message))
}

/// The contents of each chunk of a list.
pub open spec fn chunk_views(chunks: Seq<Vec<u8>>) -> Seq<Seq<u8>> {
    Seq::new(chunks.len(), |i: int| chunks[i]@)
}

/// Whether the message's payload is short enough to be framed.
pub(crate) fn fits(message: &ProtoMessage) -> (ok: bool)
    ensures
        ok == (message@.payload.len() <= MAX_PAYLOAD_SIZE),
{
    message.1.len() as u64 <= MAX_PAYLOAD_SIZE
}

/// The byte at position `k` of the message's frame.
fn frame_byte(message: &ProtoMessage, k: u64) -> (b: u8)
    requires
        message@.payload.len() <= MAX_PAYLOAD_SIZE,
        k < 8 + message@.payload.len(),
    ensures
        b == frame(message@)[k as int],
{
    let id: u16 = message.0.wire_id();
    let length: u32 = message.1.len() as u32;
    if k == 0 || k == 1 {
        HEADER_MARKER
    } else if k == 2 {
        (id / 256) as u8
    } else if k == 3 {
        (id % 256) as u8
    } else if k == 4 {
        (length / 16777216) as u8
    } else if k == 5 {
        (length / 65536 % 256) as u8
    } else if k == 6 {
        (length / 256 % 256) as u8
    } else if k == 7 {
        (length % 256) as u8
    } else {
        message.1[(k - 8) as usize]
    }
}

/// The number of chunks that carry the message.
pub(crate) fn count_chunks(message: &ProtoMessage) -> (n: u64)
    requires
        message@.payload.len() <= MAX_PAYLOAD_SIZE,
    ensures
        n == message_chunks(message@).len(),
        n >= 1,
{
    (message.1.len() as u64 + 8 + 62) / 63
}

/// Builds the chunk with the given index of the message.
pub(crate) fn build_chunk(message: &ProtoMessage, index: u64) -> (chunk: Vec<u8>)
    requires
        message@.payload.len() <= MAX_PAYLOAD_SIZE,
        index < message_chunks(message@).len(),
    ensures
        chunk@ == message_chunks(message@)[index as int],
{
    let total: u64 = message.1.len() as u64 + 8;
    let ghost expected = chunk_at(frame(message@), index as int);
    let mut chunk: Vec<u8> = Vec::with_capacity(64);
    chunk.push(CHUNK_MARKER);
    let mut j: u64 = 1;
    while j < 64
        invariant
            1 <= j <= 64,
            chunk@.len() == j,
            message@.payload.len() <= MAX_PAYLOAD_SIZE,
            total == message@.payload.len() + 8,
            total == frame(message@).len(),
            index < chunk_count(total as nat),
            expected == chunk_at(frame(message@), index as int),
            forall|m: int| 0 <= m < j ==> chunk@[m] == expected[m],
        decreases 64 - j,
    {
        let k: u64 = 63 * index + j - 1;
        let b: u8 = if k < total {
            frame_byte(message, k)
        } else {
            0
        };
        chunk.push(b);
        j = j + 1;
    }
    assert(chunk@ =~= expected);
    chunk
}

/// Cuts a message into the chunks that carry it over a link.
///
/// Fails, with `MessageTooLong`, exactly for a payload whose length does
/// not fit the header.
pub fn encode(message: &ProtoMessage) -> (r: Result<Vec<Vec<u8>>, Error>)
    ensures
        match r {
            Ok(chunks) => message@.payload.len() <= MAX_PAYLOAD_SIZE && chunk_views(chunks@)
                == message_chunks(message@),
            Err(e) => message@.payload.len() > MAX_PAYLOAD_SIZE && e == Error::MessageTooLong(
                message@.payload.len() as usize,
            ),
        },
{
    if !fits(message) {
        return Err(Error::MessageTooLong(message.1.len()));
    }
    let n = count_chunks(message);
    let mut chunks: Vec<Vec<u8>> = Vec::new();
    let mut i: u64 = 0;
    while i < n
        invariant
            i <= n,
            n == message_chunks(message@).len(),
            message@.payload.len() <= MAX_PAYLOAD_SIZE,
            chunks@.len() == i,
            forall|m: int| 0 <= m < i ==> (#[trigger] chunks@[m])@ == message_chunks(message@)[m],
        decreases n - i,
    {
        chunks.push(build_chunk(message, i));
        i = i + 1;
    }
    assert(chunk_views(chunks@) =~= message_chunks(message@));
    Ok(chunks)
}

/// How far the reading of one message has come.
pub enum ReadState {
    /// No chunk has been taken yet.
    Start,
    /// The header has been read; `data` holds the payload bytes that have
    /// arrived so far, fewer than `length`.
    Collecting { message_type: MessageType, length: u32, data: Seq<u8> },
    /// The message is complete.
    Done(Envelope),
    /// The chunks are no message.
    Failed(Error),
}

impl ReadState {
    /// More chunks are needed.
    pub open spec fn pending(self) -> bool {
        self is Start || self is Collecting
    }

    /// An upper bound on the payload bytes that are still to come.
    pub open spec fn remaining(self) -> int {
        match self {
            ReadState::Start => MAX_PAYLOAD_SIZE + 1,
            ReadState::Collecting { length, data, .. } => length - data.len(),
            _ => 0,
        }
    }
}

/// The state once `data` has arrived of a payload of `length` bytes: done,
/// with what follows the payload dropped as padding, or still collecting.
pub open spec fn collected(message_type: MessageType, length: u32, data: Seq<u8>) -> ReadState {
    if data.len() >= length {
        ReadState::Done(Envelope { message_type, payload: data.take(length as int) })
    } else {
        ReadState::Collecting { message_type, length, data }
    }
}

/// What a message's first chunk leads to.
pub open spec fn first_step(chunk: Seq<u8>) -> ReadState {
    if chunk.len() != 64 {
        ReadState::Failed(Error::UnexpectedChunkSizeFromDevice(chunk.len() as usize))
    } else if chunk[0] != CHUNK_MARKER || chunk[1] != HEADER_MARKER || chunk[2] != HEADER_MARKER {
        ReadState::Failed(Error::DeviceBadMagic)
    } else {
        let id = from_be16(chunk[3], chunk[4]);
        match MessageType::of_id(id) {
            None => ReadState::Failed(Error::InvalidMessageType(id as u32)),
            Some(message_type) => collected(
                message_type,
                from_be32(chunk[5], chunk[6], chunk[7], chunk[8]),
                chunk.subrange(9, 64),
            ),
        }
    }
}

/// What one more chunk leads to.
pub open spec fn step(state: ReadState, chunk: Seq<u8>) -> ReadState {
    match state {
        ReadState::Start => first_step(chunk),
        ReadState::Collecting { message_type, length, data } => {
            if chunk.len() != 64 {
                ReadState::Failed(Error::UnexpectedChunkSizeFromDevice(chunk.len() as usize))
            } else if chunk[0] != CHUNK_MARKER {
                ReadState::Failed(Error::DeviceBadMagic)
            } else {
                collected(message_type, length, data + chunk.subrange(1, 64))
            }
        },
        ReadState::Done(_) => ReadState::Failed(Error::UnexpectedChunkCount),
        ReadState::Failed(e) => ReadState::Failed(e),
    }
}

/// What a run of chunks leads to, taken in order.
pub open spec fn feed(chunks: Seq<Seq<u8>>) -> ReadState
    decreases chunks.len(),
{
    if chunks.len() == 0 {
        ReadState::Start
    } else {
        step(feed(chunks.drop_last()), chunks.last())
    }
}

/// The message that a run of chunks carries, if it is exactly one message.
pub open spec fn reassembled(chunks: Seq<Seq<u8>>) -> Result<Envelope, Error> {
    match feed(chunks) {
        ReadState::Done(message) => Ok(message),
        ReadState::Failed(e) => Err(e),
        _ => Err(Error::UnexpectedChunkCount),
    }
}

/// Reads one message chunk by chunk, without doing any I/O itself.
pub struct Decoder {
    header: Option<(MessageType, u32)>,
    data: Vec<u8>,
}

/// What a decoder has come to after one more chunk.
pub enum Progress {
    /// More chunks are needed; go on with this decoder.
    Pending(Decoder),
    /// The message is complete.
    Complete(ProtoMessage),
    /// The chunks are no message.
    Failed(Error),
}

impl View for Decoder {
    type V = ReadState;

    closed spec fn view(&self) -> ReadState {
        match self.header {
            None => ReadState::Start,
            Some((message_type, length)) => ReadState::Collecting {
                message_type,
                length,
                data: self.data@,
            },
        }
    }
}

impl Progress {
    /// The state that this outcome stands for.
    pub open spec fn state(self) -> ReadState {
        match self {
            Progress::Pending(decoder) => decoder@,
            Progress::Complete(message) => ReadState::Done(message@),
            Progress::Failed(e) => ReadState::Failed(e),
        }
    }
}

impl Decoder {
    #[verifier::type_invariant]
    spec fn well_formed(self) -> bool {
        match self.header {
            None => self.data@.len() == 0,
            Some((_, length)) => self.data@.len() < length,
        }
    }

    /// A decoder that has seen no chunk.
    pub fn new() -> (decoder: Decoder)
        ensures
            decoder@ == ReadState::Start,
    {
        Decoder { header: None, data: Vec::new() }
    }


    /// Ends the collecting of `data` or goes on with it.
    fn collect(message_type: MessageType, length: u32, data: Vec<u8>) -> (r: Progress)
        ensures
            r.state() == collected(message_type, length, data@),
            r is Pending <==> collected(message_type, length, data@).pending(),
            r is Complete <==> collected(message_type, length, data@) is Done,
    {
        let mut data = data;
        if data.len() as u64 >= length as u64 {
            data.truncate(length as usize);
            Progress::Complete(ProtoMessage(message_type, data))
        } else {
            Progress::Pending(Decoder { header: Some((message_type, length)), data })
        }
    }

    /// Takes the next chunk of the message.
    pub fn push(self, chunk: &[u8]) -> (r: Progress)
        ensures
            r.state() == step(self@, chunk@),
            r is Pending <==> step(self@, chunk@).pending(),
            r is Complete <==> step(self@, chunk@) is Done,
            r is Failed <==> step(self@, chunk@) is Failed,
            r matches Progress::Pending(next) ==> 0 < next@.remaining() < self@.remaining(),
    {
        proof {
            use_type_invariant(&self);
        }
        if chunk.len() != 64 {
            return Progress::Failed(Error::UnexpectedChunkSizeFromDevice(chunk.len()));
        }
        if chunk[0] != CHUNK_MARKER {
            return Progress::Failed(Error::DeviceBadMagic);
        }
        match self.header {
            None => {
                if chunk[1] != HEADER_MARKER || chunk[2] != HEADER_MARKER {
                    return Progress::Failed(Error::DeviceBadMagic);
                }
                let id: u16 = chunk[3] as u16 * 256 + chunk[4] as u16;
                match MessageType::from_wire_id(id) {
                    None => Progress::Failed(Error::InvalidMessageType(id as u32)),
                    Some(message_type) => {
                        let length: u32 = chunk[5] as u32 * 16777216 + chunk[6] as u32 * 65536
                            + chunk[7] as u32 * 256 + chunk[8] as u32;
                        let mut data: Vec<u8> = Vec::new();
                        let mut i: usize = 9;
                        while i < 64
                            invariant
                                9 <= i <= 64,
                                chunk@.len() == 64,
                                data@ == chunk@.subrange(9, i as int),
                            decreases 64 - i,
                        {
                            data.push(chunk[i]);
                            assert(data@ =~= chunk@.subrange(9, i + 1));
                            i = i + 1;
                        }
                        Self::collect(message_type, length, data)
                    },
                }
            },
            Some((message_type, length)) => {
                let mut data = self.data;
                let ghost before = data@;
                let mut i: usize = 1;
                while i < 64
                    invariant
                        1 <= i <= 64,
                        chunk@.len() == 64,
                        data@ == before + chunk@.subrange(1, i as int),
                    decreases 64 - i,
                {
                    data.push(chunk[i]);
                    assert(data@ =~= before + chunk@.subrange(1, i + 1));
                    i = i + 1;
                }
                Self::collect(message_type, length, data)
            },
        }
    }
}

/// Puts the chunks of one message together again.
///
/// Succeeds exactly when the chunks are the chunks of one message, no more
/// and no fewer; what follows the payload in the last chunk is dropped.
pub fn decode(chunks: &Vec<Vec<u8>>) -> (r: Result<ProtoMessage, Error>)
    ensures
        match reassembled(chunk_views(chunks@)) {
            Ok(message) => r matches Ok(m) && m@ == message,
            Err(e) => r matches Err(e2) && e2 == e,
        },
{
    let ghost all = chunk_views(chunks@);
    let mut decoder = Decoder::new();
    let mut i: usize = 0;
    while i < chunks.len()
        invariant
            i <= chunks@.len(),
            all == chunk_views(chunks@),
            decoder@ == feed(all.take(i as int)),
            decoder@.pending(),
        decreases chunks@.len() - i,
    {
        proof {
            assert(all.take(i + 1).drop_last() =~= all.take(i as int));
            assert(all.take(all.len() as int) =~= all);
        }
        match decoder.push(chunks[i].as_slice()) {
            Progress::Pending(next) => {
                decoder = next;
            },
            Progress::Complete(message) => {
                if i + 1 == chunks.len() {
                    return Ok(message);
                } else {
                    proof {
                        lemma_feed_done_is_last(all, i + 1);
                    }
                    return Err(Error::UnexpectedChunkCount);
                }
            },
            Progress::Failed(e) => {
                proof {
                    lemma_feed_stays_failed(all, i + 1);
                }
                return Err(e);
            },
        }
        i = i + 1;
    }
    assert(all.take(i as int) =~= all);
    Err(Error::UnexpectedChunkCount)
}

/// Once a run of chunks has failed, more chunks change nothing.
pub proof fn lemma_feed_stays_failed(chunks: Seq<Seq<u8>>, k: int)
    requires
        0 <= k <= chunks.len(),
        feed(chunks.take(k)) is Failed,
    ensures
        feed(chunks) == feed(chunks.take(k)),
    decreases chunks.len() - k,
{
    if k == chunks.len() {
        assert(chunks.take(k) =~= chunks);
    } else {
        assert(chunks.take(k + 1).drop_last() =~= chunks.take(k));
        lemma_feed_stays_failed(chunks, k + 1);
    }
}

/// A chunk after the end of a message makes the run no message.
pub proof fn lemma_feed_done_is_last(chunks: Seq<Seq<u8>>, k: int)
    requires
        0 <= k < chunks.len(),
        feed(chunks.take(k)) is Done,
    ensures
        feed(chunks) == ReadState::Failed(Error::UnexpectedChunkCount),
{
    assert(chunks.take(k + 1).drop_last() =~= chunks.take(k));
    lemma_feed_stays_failed(chunks, k + 1);
}

/// What the first chunk of a message leads to.
proof fn lemma_first_chunk(message: Envelope)
    requires
        message.payload.len() <= MAX_PAYLOAD_SIZE,
    ensures
        first_step(message_chunks(message)[0]) == collected(
            message.message_type,
            message.payload.len() as u32,
            message_chunks(message)[0].subrange(9, 64),
        ),
{
    let data = frame(message);
    let chunk = message_chunks(message)[0];
    let length = message.payload.len() as u32;
    let id = message.message_type.id();
    assert(data.len() == 8 + message.payload.len());
    assert(chunk == chunk_at(data, 0));
    assert(chunk.len() == 64);
    assert(chunk[0] == CHUNK_MARKER);
    assert(chunk[1] == data[0] && data[0] == HEADER_MARKER);
    assert(chunk[2] == data[1] && data[1] == HEADER_MARKER);
    assert(chunk[3] == data[2] && data[2] == (id / 256) as u8);
    assert(chunk[4] == data[3] && data[3] == (id % 256) as u8);
    assert(chunk[5] == data[4] && data[4] == (length / 16777216) as u8);
    assert(chunk[6] == data[5] && data[5] == (length / 65536 % 256) as u8);
    assert(chunk[7] == data[6] && data[6] == (length / 256 % 256) as u8);
    assert(chunk[8] == data[7] && data[7] == (length % 256) as u8);
    assert(from_be16(chunk[3], chunk[4]) == id);
    assert(from_be32(chunk[5], chunk[6], chunk[7], chunk[8]) == length);
    message.message_type.lemma_id_round_trip();
}

/// The frame bytes that the chunk with the given index carries.
proof fn lemma_chunk_carries(data: Seq<u8>, index: int, from: int)
    requires
        0 <= index,
        1 <= from <= 64,
        63 * index + from - 1 <= data.len(),
    ensures
        63 * (index + 1) <= data.len() ==> chunk_at(data, index).subrange(from, 64)
            == data.subrange(63 * index + from - 1, 63 * (index + 1)),
        63 * (index + 1) > data.len() ==> chunk_at(data, index).subrange(from, 64).take(
            data.len() - (63 * index + from - 1),
        ) == data.subrange(63 * index + from - 1, data.len() as int),
{
    let chunk = chunk_at(data, index);
    let start = 63 * index + from - 1;
    if 63 * (index + 1) <= data.len() {
        assert(chunk.subrange(from, 64) =~= data.subrange(start, 63 * (index + 1)));
    } else {
        assert(chunk.subrange(from, 64).take(data.len() - start) =~= data.subrange(
            start,
            data.len() as int,
        ));
    }
}

/// The state that the first `k` chunks of a message lead to: all of the
/// frame up to byte `63 * k` has arrived, and the message is done with its
/// last chunk.
spec fn state_after(message: Envelope, k: int) -> ReadState {
    if k < message_chunks(message).len() {
        ReadState::Collecting {
            message_type: message.message_type,
            length: message.payload.len() as u32,
            data: frame(message).subrange(8, 63 * k),
        }
    } else {
        ReadState::Done(message)
    }
}

/// The first chunk of a message leads to the state after one chunk.
proof fn lemma_feed_first(message: Envelope)
    requires
        message.payload.len() <= MAX_PAYLOAD_SIZE,
    ensures
        first_step(message_chunks(message)[0]) == state_after(message, 1),
{
    let data = frame(message);
    let chunks = message_chunks(message);
    let length = message.payload.len() as u32;
    let chunk = chunks[0];
    assert(data.len() == 8 + message.payload.len());
    assert(chunks.len() == chunk_count(data.len()));
    assert(chunk == chunk_at(data, 0));
    lemma_first_chunk(message);
    lemma_chunk_carries(data, 0, 9);
    let arrived = chunk.subrange(9, 64);
    assert(arrived.len() == 55);
    if 1 < chunks.len() {
        assert(arrived == data.subrange(8, 63));
    } else {
        assert(data.subrange(8, data.len() as int) =~= message.payload);
        assert(arrived.take(length as int) == message.payload);
    }
}

/// One more chunk of a message leads from the state after `k - 1` chunks
/// to the state after `k`.
proof fn lemma_feed_next(message: Envelope, k: int)
    requires
        message.payload.len() <= MAX_PAYLOAD_SIZE,
        2 <= k <= message_chunks(message).len(),
    ensures
        step(state_after(message, k - 1), message_chunks(message)[k - 1]) == state_after(
            message,
            k,
        ),
{
    let data = frame(message);
    let chunks = message_chunks(message);
    let length = message.payload.len() as u32;
    let chunk = chunks[k - 1];
    assert(data.len() == 8 + message.payload.len());
    assert(chunks.len() == chunk_count(data.len()));
    assert(chunk == chunk_at(data, k - 1));
    assert(chunk.len() == 64 && chunk[0] == CHUNK_MARKER);
    lemma_chunk_carries(data, k - 1, 1);
    let before = data.subrange(8, 63 * (k - 1));
    let tail = chunk.subrange(1, 64);
    let arrived = before + tail;
    assert(tail.len() == 63);
    assert(step(state_after(message, k - 1), chunk) == collected(
        message.message_type,
        length,
        arrived,
    ));
    if k < chunks.len() {
        assert(tail == data.subrange(63 * (k - 1), 63 * k));
        assert(arrived =~= data.subrange(8, 63 * k));
    } else {
        let rest = data.len() - 63 * (k - 1);
        assert(tail.take(rest) == data.subrange(63 * (k - 1), data.len() as int));
        assert(arrived.take(length as int) =~= before + tail.take(rest));
        assert(before + data.subrange(63 * (k - 1), data.len() as int) =~= message.payload);
    }
}

/// The first `k` chunks of a message lead to the state after `k` chunks.
proof fn lemma_feed_message_prefix(message: Envelope, k: int)
    requires
        message.payload.len() <= MAX_PAYLOAD_SIZE,
        1 <= k <= message_chunks(message).len(),
    ensures
        feed(message_chunks(message).take(k)) == state_after(message, k),
    decreases k,
{
    let chunks = message_chunks(message);
    assert(chunks.take(k).drop_last() =~= chunks.take(k - 1));
    assert(chunks.take(k).last() == chunks[k - 1]);
    if k == 1 {
        assert(feed(chunks.take(0)) == ReadState::Start);
        lemma_feed_first(message);
    } else {
        lemma_feed_message_prefix(message, k - 1);
        lemma_feed_next(message, k);
    }
}

/// Cutting a message into chunks and putting the chunks together again
/// gives the message back, type and payload, and no shorter run of its
/// chunks is taken for a whole message.
pub proof fn lemma_round_trip(message: Envelope)
    requires
        message.payload.len() <= MAX_PAYLOAD_SIZE,
    ensures
        feed(message_chunks(message)) == ReadState::Done(message),
        reassembled(message_chunks(message)) == Ok::<Envelope, Error>(message),
        forall|k: int|
            0 <= k < message_chunks(message).len() ==> (#[trigger] feed(
                message_chunks(message).take(k),
            )).pending(),
{
    let chunks = message_chunks(message);
    lemma_feed_message_prefix(message, chunks.len() as int);
    assert(chunks.take(chunks.len() as int) =~= chunks);
    assert forall|k: int| 0 <= k < chunks.len() implies (#[trigger] feed(chunks.take(k))).pending() by {
        if k > 0 {
            lemma_feed_message_prefix(message, k);
        }
    }
}

/// The record of writing each of the chunks, in order.
pub open spec fn wrote(chunks: Seq<Seq<u8>>) -> Seq<LinkEvent> {
    Seq::new(chunks.len(), |i: int| LinkEvent::Wrote(chunks[i]))
}

/// Every one of the events is a chunk that was read.
pub open spec fn all_reads(events: Seq<LinkEvent>) -> bool {
    forall|i: int| 0 <= i < events.len() ==> #[trigger] events[i] is Read
}

/// The chunks that the events read, in order.
pub open spec fn chunks_read(events: Seq<LinkEvent>) -> Seq<Seq<u8>> {
    Seq::new(events.len(), |i: int| events[i]->Read_0)
}

/// What the link's record shows of one `write` of `message` that ended as `r`.
///
/// A message that fits goes out chunk by chunk, in order, until all are
/// written or one write fails; that failure is the result, and nothing is
/// written after it. A message that does not fit touches the link not at all.
pub open spec fn write_outcome(message: Envelope, events: Seq<LinkEvent>, r: Result<(), Error>) -> bool {
    let chunks = message_chunks(message);
    match r {
        Ok(_) => message.payload.len() <= MAX_PAYLOAD_SIZE && events == wrote(chunks),
        Err(e) => if message.payload.len() > MAX_PAYLOAD_SIZE {
            e == Error::MessageTooLong(message.payload.len() as usize) && events.len() == 0
        } else {
            let k = events.len() - 1;
            0 <= k < chunks.len() && events == wrote(chunks.take(k)).push(
                LinkEvent::WriteFailed(chunks[k], e),
            )
        },
    }
}

/// What the link's record shows of one `read` that ended as `r`.
///
/// Chunks are read, one after the other, for as long as the message is
/// incomplete. The read ends with the chunk that completes the message,
/// with the first chunk that cannot belong to one, or with the first read
/// that fails; a failure is the result as it came.
pub open spec fn read_outcome(events: Seq<LinkEvent>, r: Result<ProtoMessage, Error>) -> bool {
    let before = chunks_read(events.drop_last());
    &&& events.len() > 0
    &&& all_reads(events.drop_last())
    &&& feed(before).pending()
    &&& match events.last() {
        LinkEvent::Read(chunk) => match step(feed(before), chunk) {
            ReadState::Done(message) => r matches Ok(m) && m@ == message,
            ReadState::Failed(e) => r matches Err(e2) && e2 == e,
            _ => false,
        },
        LinkEvent::ReadFailed(e) => r matches Err(e2) && e2 == e,
        _ => false,
    }
}

/// What one end writes, the other end reads: where a message was written
/// in full and the far end's reads came upon just those chunks, in order,
/// the read gives the message back, and ends with its last chunk.
pub proof fn lemma_read_what_was_written(
    message: Envelope,
    written: Seq<LinkEvent>,
    read: Seq<LinkEvent>,
    r: Result<ProtoMessage, Error>,
)
    requires
        write_outcome(message, written, Ok(())),
        read.len() == written.len(),
        forall|i: int| 0 <= i < read.len() ==> read[i] == LinkEvent::Read(written[i]->Wrote_0),
        read_outcome(read, r),
    ensures
        r matches Ok(back) && back@ == message,
{
    let chunks = message_chunks(message);
    lemma_round_trip(message);
    assert(chunks_read(read) =~= chunks);
    assert(chunks_read(read.drop_last()) =~= chunks.drop_last());
    assert(chunks.drop_last() =~= chunks.take(chunks.len() - 1));
    assert(chunks.take(chunks.len() as int) =~= chunks);
    assert(read.last() == LinkEvent::Read(chunks.last()));
}

/// The chunked framing, over the link that it owns.
pub struct ProtocolV1<L: Link> {
    pub link: TracedLink<L>,
}

impl<L: Link> ProtocolV1<L> {
    /// The protocol over `link`, with nothing written or read yet.
    pub fn new(link: L) -> (protocol: Self)
        ensures
            protocol.link.trace() == Seq::<LinkEvent>::empty(),
            protocol.link.link() == link,
    {
        ProtocolV1 { link: TracedLink::new(link) }
    }

    /// This framing needs no handshake: nothing is sent.
    pub fn session_begin(&mut self) -> (r: Result<(), Error>)
        ensures
            r is Ok,
            *final(self) == *old(self),
    {
        Ok(())
    }

    /// This framing needs no handshake: nothing is sent.
    pub fn session_end(&mut self) -> (r: Result<(), Error>)
        ensures
            r is Ok,
            *final(self) == *old(self),
    {
        Ok(())
    }

    /// Writes one message, as its chunks in order.
    pub fn write(&mut self, message: ProtoMessage) -> (r: Result<(), Error>)
        ensures
            old(self).link.trace().is_prefix_of(final(self).link.trace()),
            write_outcome(
                message@,
                final(self).link.trace().skip(old(self).link.trace().len() as int),
                r,
            ),
    {
        let ghost start = self.link.trace();
        if !fits(&message) {
            assert(self.link.trace().skip(start.len() as int) =~= Seq::<LinkEvent>::empty());
            return Err(Error::MessageTooLong(message.1.len()));
        }
        let ghost chunks = message_chunks(message@);
        let n = count_chunks(&message);
        let mut i: u64 = 0;
        while i < n
            invariant
                i <= n,
                n == chunks.len(),
                chunks == message_chunks(message@),
                message@.payload.len() <= MAX_PAYLOAD_SIZE,
                start == old(self).link.trace(),
                self.link.trace() == start + wrote(chunks.take(i as int)),
            decreases n - i,
        {
            let chunk = build_chunk(&message, i);
            let ghost sent = self.link.trace();
            match self.link.write_chunk(chunk) {
                Ok(_) => {
                    assert(self.link.trace() =~= start + wrote(chunks.take(i + 1)));
                },
                Err(e) => {
                    assert(self.link.trace().skip(start.len() as int) =~= wrote(
                        chunks.take(i as int),
                    ).push(LinkEvent::WriteFailed(chunks[i as int], e)));
                    return Err(e);
                },
            }
            i = i + 1;
        }
        assert(chunks.take(i as int) =~= chunks);
        assert(self.link.trace().skip(start.len() as int) =~= wrote(chunks));
        Ok(())
    }

    /// Reads one whole message.
    pub fn read(&mut self) -> (r: Result<ProtoMessage, Error>)
        ensures
            old(self).link.trace().is_prefix_of(final(self).link.trace()),
            read_outcome(final(self).link.trace().skip(old(self).link.trace().len() as int), r),
    {
        let ghost start = self.link.trace();
        let ghost mut chunks: Seq<Seq<u8>> = Seq::empty();
        let mut decoder = Decoder::new();
        loop
            invariant
                start == old(self).link.trace(),
                self.link.trace().len() == start.len() + chunks.len(),
                start.is_prefix_of(self.link.trace()),
                all_reads(self.link.trace().skip(start.len() as int)),
                chunks_read(self.link.trace().skip(start.len() as int)) == chunks,
                decoder@ == feed(chunks),
                decoder@.pending(),
            decreases decoder@.remaining(),
        {
            let ghost before = self.link.trace();
            let ghost state = decoder@;
            match self.link.read_chunk() {
                Err(e) => {
                    proof {
                        let events = self.link.trace().skip(start.len() as int);
                        assert(events.drop_last() =~= before.skip(start.len() as int));
                    }
                    return Err(e);
                },
                Ok(chunk) => {
                    proof {
                        let events = self.link.trace().skip(start.len() as int);
                        assert(events.drop_last() =~= before.skip(start.len() as int));
                        assert(events.last() == LinkEvent::Read(chunk@));
                        assert forall|i: int| 0 <= i < events.len() implies #[trigger] events[i]
                            is Read by {
                            if i < events.len() - 1 {
                                assert(events[i] == events.drop_last()[i]);
                            }
                        }
                        assert(chunks_read(events) =~= chunks.push(chunk@));
                        assert(chunks.push(chunk@).drop_last() =~= chunks);
                        use_type_invariant(&decoder);
                    }
                    match decoder.push(chunk.as_slice()) {
                        Progress::Pending(next) => {
                            decoder = next;
                            proof {
                                chunks = chunks.push(chunk@);
                            }
                        },
                        Progress::Complete(message) => {
                            return Ok(message);
                        },
                        Progress::Failed(e) => {
                            return Err(e);
                        },
                    }
                },
            }
        }
    }
}

impl<L: Link> Transport for ProtocolV1<L> {
    /// As `ProtocolV1::session_begin`.
    fn session_begin(&mut self) -> (r: Result<(), Error>)
        ensures
            r is Ok,
            *final(self) == *old(self),
    {
        ProtocolV1::session_begin(self)
    }

    /// As `ProtocolV1::session_end`.
    fn session_end(&mut self) -> (r: Result<(), Error>)
        ensures
            r is Ok,
            *final(self) == *old(self),
    {
        ProtocolV1::session_end(self)
    }

    /// As `ProtocolV1::write`.
    fn write_message(&mut self, message: ProtoMessage) -> (r: Result<(), Error>)
        ensures
            old(self).link.trace().is_prefix_of(final(self).link.trace()),
            write_outcome(
                message@,
                final(self).link.trace().skip(old(self).link.trace().len() as int),
                r,
            ),
    {
        self.write(message)
    }

    /// As `ProtocolV1::read`.
    fn read_message(&mut self) -> (r: Result<ProtoMessage, Error>)
        ensures
            old(self).link.trace().is_prefix_of(final(self).link.trace()),
            read_outcome(final(self).link.trace().skip(old(self).link.trace().len() as int), r),
    {
        self.read()
    }
}

} // verus!
