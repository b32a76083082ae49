//! Wire format: every message starts with a two-byte magic prefix and a
//! one-byte kind tag; a frame chunk then carries three little-endian `u16`
//! fields and its payload, which runs to the end of the datagram.
use vstd::prelude::*;
use vstd::slice::slice_subrange;

verus! {

pub const PREFIX_0: u8 = 0xCA;

pub const PREFIX_1: u8 = 0x3E;

pub const MSG_CAMERA_READY: u8 = 0x01;

pub const MSG_CONNECT: u8 = 0x02;

pub const MSG_FRAME_CHUNK: u8 = 0x03;

pub const MSG_DISCONNECT: u8 = 0x04;

/// Shortest datagram that can carry any message: prefix and kind tag.
pub const HEADER_SIZE: usize = 3;

/// prefix(2) + kind(1) + frame_id(2) + chunk_idx(2) + total_chunks(2)
pub const CHUNK_HEADER_SIZE: usize = 9;

/// Largest datagram the link carries.
pub const MAX_PACKET_SIZE: usize = 250;

/// Payload bytes per chunk once the chunk header is paid for.
pub const CHUNK_DATA_SIZE: usize = MAX_PACKET_SIZE - CHUNK_HEADER_SIZE;

/// One message of the protocol; a chunk's payload borrows the buffer it was
/// decoded from or is about to be encoded from.
#[derive(Debug, PartialEq, Eq)]
pub enum Message<'a> {
    CameraReady,
    Connect,
    Disconnect,
    FrameChunk { frame_id: u16, chunk_idx: u16, total_chunks: u16, data: &'a [u8] },
}

/// The mathematical value of a message: the payload as a sequence of bytes.
pub ghost enum MessageView {
    CameraReady,
    Connect,
    Disconnect,
    FrameChunk { frame_id: u16, chunk_idx: u16, total_chunks: u16, data: Seq<u8> },
}

impl<'a> View for Message<'a> {
    type V = MessageView;

    open spec fn view(&self) -> MessageView {
        match *self {
            Message::CameraReady => MessageView::CameraReady,
            Message::Connect => MessageView::Connect,
            Message::Disconnect => MessageView::Disconnect,
            Message::FrameChunk { frame_id, chunk_idx, total_chunks, data } => MessageView::FrameChunk {
                frame_id,
                chunk_idx,
                total_chunks,
                data: data@,
            },
        }
    }
}

pub open spec fn opt_view(m: Option<Message>) -> Option<MessageView> {
    match m {
        Some(m) => Some(m@),
        None => None,
    }
}

/// Little-endian bytes of a `u16`.
pub open spec fn le_bytes(x: u16) -> Seq<u8> {
    seq![(x % 256) as u8, (x / 256) as u8]
}

/// The `u16` whose little-endian bytes are `lo`, `hi`.
pub open spec fn le_value(lo: u8, hi: u8) -> u16 {
    (lo as int + 256 * hi as int) as u16
}

pub open spec fn header(kind: u8) -> Seq<u8> {
    seq![PREFIX_0, PREFIX_1, kind]
}

pub open spec fn chunk_encoding(frame_id: u16, chunk_idx: u16, total_chunks: u16, data: Seq<u8>) -> Seq<u8> {
    header(MSG_FRAME_CHUNK) + le_bytes(frame_id) + le_bytes(chunk_idx) + le_bytes(total_chunks) + data
}

/// The bytes that stand for a message on the wire.
pub open spec fn encoding(m: MessageView) -> Seq<u8> {
    match m {
        MessageView::CameraReady => header(MSG_CAMERA_READY),
        MessageView::Connect => header(MSG_CONNECT),
        MessageView::Disconnect => header(MSG_DISCONNECT),
        MessageView::FrameChunk { frame_id, chunk_idx, total_chunks, data } =>
            chunk_encoding(frame_id, chunk_idx, total_chunks, data),
    }
}

/// The message a datagram holds, if it is well formed.
pub open spec fn decoding(b: Seq<u8>) -> Option<MessageView> {
    if b.len() < HEADER_SIZE || b[0] != PREFIX_0 || b[1] != PREFIX_1 {
        None
    } else if b[2] == MSG_CAMERA_READY {
        Some(MessageView::CameraReady)
    } else if b[2] == MSG_CONNECT {
        Some(MessageView::Connect)
    } else if b[2] == MSG_DISCONNECT {
        Some(MessageView::Disconnect)
    } else if b[2] == MSG_FRAME_CHUNK && b.len() >= CHUNK_HEADER_SIZE {
        Some(MessageView::FrameChunk {
            frame_id: le_value(b[3], b[4]),
            chunk_idx: le_value(b[5], b[6]),
            total_chunks: le_value(b[7], b[8]),
            data: b.subrange(CHUNK_HEADER_SIZE as int, b.len() as int),
        })
    } else {
        None
    }
}

fn read_le(lo: u8, hi: u8) -> (r: u16)
    ensures
        r == le_value(lo, hi),
{
    lo as u16 + (hi as u16) * 256
}

fn push_le(packet: &mut Vec<u8>, x: u16)
    ensures
        final(packet)@ == old(packet)@ + le_bytes(x),
{
    packet.push((x % 256) as u8);
    packet.push((x / 256) as u8);
    assert(final(packet)@ =~= old(packet)@ + le_bytes(x));
}

/// Parses one datagram; `None` for anything malformed.
pub fn decode(data: &[u8]) -> (r: Option<Message<'_>>)
    ensures
        opt_view(r) == decoding(data@),
{
    if data.len() < HEADER_SIZE || data[0] != PREFIX_0 || data[1] != PREFIX_1 {
        return None;
    }
    let msg_type = data[2];
    if msg_type == MSG_CAMERA_READY {
        Some(Message::CameraReady)
    } else if msg_type == MSG_CONNECT {
        Some(Message::Connect)
    } else if msg_type == MSG_DISCONNECT {
        Some(Message::Disconnect)
    } else if msg_type == MSG_FRAME_CHUNK && data.len() >= CHUNK_HEADER_SIZE {
        let frame_id = read_le(data[3], data[4]);
        let chunk_idx = read_le(data[5], data[6]);
        let total_chunks = read_le(data[7], data[8]);
        let payload = slice_subrange(data, CHUNK_HEADER_SIZE, data.len());
        Some(Message::FrameChunk { frame_id, chunk_idx, total_chunks, data: payload })
    } else {
        None
    }
}

pub fn encode_camera_ready() -> (r: [u8; 3])
    ensures
        r@ == encoding(MessageView::CameraReady),
{
    let r = [PREFIX_0, PREFIX_1, MSG_CAMERA_READY];
    assert(r@ =~= header(MSG_CAMERA_READY));
    r
}

pub fn encode_connect() -> (r: [u8; 3])
    ensures
        r@ == encoding(MessageView::Connect),
{
    let r = [PREFIX_0, PREFIX_1, MSG_CONNECT];
    assert(r@ =~= header(MSG_CONNECT));
    r
}

pub fn encode_disconnect() -> (r: [u8; 3])
    ensures
        r@ == encoding(MessageView::Disconnect),
{
    let r = [PREFIX_0, PREFIX_1, MSG_DISCONNECT];
    assert(r@ =~= header(MSG_DISCONNECT));
    r
}

pub fn encode_frame_chunk(frame_id: u16, chunk_idx: u16, total_chunks: u16, data: &[u8]) -> (r: Vec<u8>)
    requires
        data@.len() + CHUNK_HEADER_SIZE <= usize::MAX,
    ensures
        r@ == chunk_encoding(frame_id, chunk_idx, total_chunks, data@),
{
    let mut packet: Vec<u8> = Vec::with_capacity(CHUNK_HEADER_SIZE + data.len());
    packet.push(PREFIX_0);
    packet.push(PREFIX_1);
    packet.push(MSG_FRAME_CHUNK);
    assert(packet@ =~= header(MSG_FRAME_CHUNK));
    push_le(&mut packet, frame_id);
    push_le(&mut packet, chunk_idx);
    push_le(&mut packet, total_chunks);
    packet.extend_from_slice(data);
    packet
}

/// The datagram that carries `m`.
pub fn encode(m: &Message) -> (r: Vec<u8>)
    requires
        encoding(m@).len() <= usize::MAX,
    ensures
        r@ == encoding(m@),
{
    match m {
        Message::CameraReady => {
            let b = encode_camera_ready();
            let mut r: Vec<u8> = Vec::new();
            r.extend_from_slice(&b);
            r
        },
        Message::Connect => {
            let b = encode_connect();
            let mut r: Vec<u8> = Vec::new();
            r.extend_from_slice(&b);
            r
        },
        Message::Disconnect => {
            let b = encode_disconnect();
            let mut r: Vec<u8> = Vec::new();
            r.extend_from_slice(&b);
            r
        },
        Message::FrameChunk { frame_id, chunk_idx, total_chunks, data } => {
            encode_frame_chunk(*frame_id, *chunk_idx, *total_chunks, data)
        },
    }
}

proof fn lemma_le_round_trip(x: u16)
    ensures
        le_value(le_bytes(x)[0], le_bytes(x)[1]) == x,
{
}

/// Decoding the encoding of any message gives that message back.
pub proof fn lemma_round_trip(m: MessageView)
    ensures
        decoding(encoding(m)) == Some(m),
{
    if let MessageView::FrameChunk { frame_id, chunk_idx, total_chunks, data } = m {
        let b = encoding(m);
        lemma_le_round_trip(frame_id);
        lemma_le_round_trip(chunk_idx);
        lemma_le_round_trip(total_chunks);
        assert(b[3] == le_bytes(frame_id)[0] && b[4] == le_bytes(frame_id)[1]);
        assert(b[5] == le_bytes(chunk_idx)[0] && b[6] == le_bytes(chunk_idx)[1]);
        assert(b[7] == le_bytes(total_chunks)[0] && b[8] == le_bytes(total_chunks)[1]);
        assert(b.subrange(CHUNK_HEADER_SIZE as int, b.len() as int) =~= data);
    }
}

/// A datagram is rejected when it is shorter than the header, when its
/// prefix is wrong, when its kind tag is unknown, or when it is tagged as a
/// frame chunk but is shorter than the chunk header.
pub proof fn lemma_decode_rejects(b: Seq<u8>)
    ensures
        b.len() < HEADER_SIZE ==> decoding(b) is None,
        b.len() >= 2 && (b[0] != PREFIX_0 || b[1] != PREFIX_1) ==> decoding(b) is None,
        b.len() >= HEADER_SIZE && b[2] != MSG_CAMERA_READY && b[2] != MSG_CONNECT
            && b[2] != MSG_FRAME_CHUNK && b[2] != MSG_DISCONNECT ==> decoding(b) is None,
        b.len() >= HEADER_SIZE && b[2] == MSG_FRAME_CHUNK && b.len() < CHUNK_HEADER_SIZE
            ==> decoding(b) is None,
{
}

} // verus!
