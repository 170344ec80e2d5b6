//! Frames: a header of magic bytes, message type and payload length, then the payload.

use vstd::prelude::*;

use crate::codec::{be32, get_be32, lemma_read_be32_of, push_be32, push_bytes, read_be32};
use crate::error::Rx11Error;
use crate::protocol::payload::{
    chunks_wf, lemma_compressed_roundtrip, lemma_data_roundtrip, lemma_incremental_roundtrip,
    spec_decode_compressed, spec_decode_data, spec_decode_incremental, spec_encode_compressed,
    spec_encode_data, spec_encode_incremental, too_large_error, too_large_message, too_short_message,
    compressed_encode_message, incremental_encode_message, incremental_decode_message, BinaryMessageCodec, CompressedIncrementalX11DataMessage, CompressedView,
    CompressedX11DataMessage, IncrementalView, IncrementalX11DataMessage, X11DataMessage, X11DataView,
};
use crate::protocol::{
    is_control_type, lemma_message_type_code_roundtrip, unknown_type_message, message_type_code, message_type_of_code, MessageType, FRAME_HEADER_SIZE,
    MAX_FRAME_SIZE,
};
use crate::types::protocol_error;

verus! {

/// One unit of the relay protocol.
///
/// Control messages travel JSON-encoded; `Control` carries such a payload with its type.
#[derive(Debug, Clone)]
pub enum Frame {
    Control(MessageType, Vec<u8>),
    DataX11(X11DataMessage),
    CompressedDataX11(CompressedX11DataMessage),
    IncrementalDataX11(IncrementalX11DataMessage),
    CompressedIncrementalDataX11(CompressedIncrementalX11DataMessage),
    Heartbeat,
    HeartbeatAck,
}

pub enum FrameView {
    Control(MessageType, Seq<u8>),
    DataX11(X11DataView),
    CompressedDataX11(CompressedView),
    IncrementalDataX11(IncrementalView),
    CompressedIncrementalDataX11(CompressedView),
    Heartbeat,
    HeartbeatAck,
}

impl View for Frame {
    type V = FrameView;

    open spec fn view(&self) -> FrameView {
        match self {
            Frame::Control(t, p) => FrameView::Control(*t, p@),
            Frame::DataX11(m) => FrameView::DataX11(m@),
            Frame::CompressedDataX11(m) => FrameView::CompressedDataX11(m@),
            Frame::IncrementalDataX11(m) => FrameView::IncrementalDataX11(m@),
            Frame::CompressedIncrementalDataX11(m) => FrameView::CompressedIncrementalDataX11(m@),
            Frame::Heartbeat => FrameView::Heartbeat,
            Frame::HeartbeatAck => FrameView::HeartbeatAck,
        }
    }
}

pub open spec fn frame_msg_type(f: FrameView) -> MessageType {
    match f {
        FrameView::Control(t, _) => t,
        FrameView::DataX11(_) => MessageType::DataX11,
        FrameView::CompressedDataX11(_) => MessageType::CompressedDataX11,
        FrameView::IncrementalDataX11(_) => MessageType::IncrementalDataX11,
        FrameView::CompressedIncrementalDataX11(_) => MessageType::CompressedIncrementalDataX11,
        FrameView::Heartbeat => MessageType::Heartbeat,
        FrameView::HeartbeatAck => MessageType::HeartbeatAck,
    }
}

/// A control frame must carry a control message type.
pub open spec fn frame_wf(f: FrameView) -> bool {
    match f {
        FrameView::Control(t, _) => is_control_type(t),
        _ => true,
    }
}

pub open spec fn magic() -> Seq<u8> {
    seq![0x52u8, 0x58u8, 0x31u8, 0x31u8]
}

/// The frame for a payload of the given type byte.
pub open spec fn spec_encode_raw(msg_type: u8, payload: Seq<u8>) -> Seq<u8> {
    magic() + seq![msg_type] + be32(payload.len() as u32) + payload
}

/// The payload of a frame, or `None` where the payload cannot be encoded.
pub open spec fn spec_frame_payload(f: FrameView) -> Option<Seq<u8>> {
    match f {
        FrameView::Control(_, p) => if p.len() > MAX_FRAME_SIZE { None } else { Some(p) },
        FrameView::DataX11(m) => spec_encode_data(m),
        FrameView::CompressedDataX11(m) => spec_encode_compressed(m),
        FrameView::IncrementalDataX11(m) => spec_encode_incremental(m),
        FrameView::CompressedIncrementalDataX11(m) => spec_encode_compressed(m),
        FrameView::Heartbeat | FrameView::HeartbeatAck => Some(Seq::empty()),
    }
}

/// The bytes of a frame, or `None` where it cannot be encoded.
pub open spec fn spec_encode_frame(f: FrameView) -> Option<Seq<u8>> {
    match spec_frame_payload(f) {
        None => None,
        Some(p) => if p.len() > u32::MAX {
            None
        } else {
            Some(spec_encode_raw(message_type_code(frame_msg_type(f)), p))
        },
    }
}

/// The frame that a payload of the given type stands for, if it is well formed.
pub open spec fn spec_decode_payload(t: MessageType, p: Seq<u8>) -> Option<FrameView> {
    match t {
        MessageType::DataX11 => match spec_decode_data(p) {
            Some(m) => Some(FrameView::DataX11(m)),
            None => None,
        },
        MessageType::CompressedDataX11 => match spec_decode_compressed(p) {
            Some(m) => Some(FrameView::CompressedDataX11(m)),
            None => None,
        },
        MessageType::IncrementalDataX11 => match spec_decode_incremental(p) {
            Some(m) => Some(FrameView::IncrementalDataX11(m)),
            None => None,
        },
        MessageType::CompressedIncrementalDataX11 => match spec_decode_compressed(p) {
            Some(m) => Some(FrameView::CompressedIncrementalDataX11(m)),
            None => None,
        },
        MessageType::Heartbeat => if p.len() == 0 { Some(FrameView::Heartbeat) } else { None },
        MessageType::HeartbeatAck => if p.len() == 0 { Some(FrameView::HeartbeatAck) } else { None },
        _ => Some(FrameView::Control(t, p)),
    }
}

/// The error text for a frame that cannot be encoded.
pub open spec fn spec_encode_frame_error(f: FrameView) -> Seq<char> {
    match f {
        FrameView::Control(_, p) => if p.len() > MAX_FRAME_SIZE {
            too_large_message("Frame"@, p.len(), MAX_FRAME_SIZE as nat)
        } else {
            "payload exceeds u32 max"@
        },
        FrameView::DataX11(m) => match spec_encode_data(m) {
            None => too_large_message("DataX11"@, m.data.len(), MAX_FRAME_SIZE as nat),
            Some(_) => "payload exceeds u32 max"@,
        },
        FrameView::CompressedDataX11(m) => match spec_encode_compressed(m) {
            None => compressed_encode_message("CompressedDataX11"@, m),
            Some(_) => "payload exceeds u32 max"@,
        },
        FrameView::IncrementalDataX11(m) => match spec_encode_incremental(m) {
            None => incremental_encode_message(m),
            Some(_) => "payload exceeds u32 max"@,
        },
        FrameView::CompressedIncrementalDataX11(m) => match spec_encode_compressed(m) {
            None => compressed_encode_message("CompressedIncrementalDataX11"@, m),
            Some(_) => "payload exceeds u32 max"@,
        },
        FrameView::Heartbeat | FrameView::HeartbeatAck => "payload exceeds u32 max"@,
    }
}

/// The error text for a payload of the given type that is not well formed.
pub open spec fn spec_decode_payload_error(t: MessageType, p: Seq<u8>) -> Seq<char> {
    match t {
        MessageType::DataX11 => too_short_message("DataX11"@, p.len(), 8),
        MessageType::CompressedDataX11 => too_short_message("CompressedDataX11"@, p.len(), 12),
        MessageType::IncrementalDataX11 => incremental_decode_message(p),
        MessageType::CompressedIncrementalDataX11 => too_short_message("CompressedIncrementalDataX11"@, p.len(), 12),
        MessageType::Heartbeat => "Heartbeat frame must have empty payload"@,
        MessageType::HeartbeatAck => "HeartbeatAck frame must have empty payload"@,
        _ => Seq::empty(),
    }
}

/// The error text for bytes that do not start with a valid frame.
pub open spec fn spec_decode_frame_error(s: Seq<u8>) -> Seq<char> {
    if s.subrange(0, 4) != magic() {
        "Invalid magic bytes"@
    } else if read_be32(s, 5) > MAX_FRAME_SIZE {
        too_large_message("Frame"@, read_be32(s, 5) as nat, MAX_FRAME_SIZE as nat)
    } else {
        match message_type_of_code(s[4]) {
            None => unknown_type_message(s[4]),
            Some(t) => spec_decode_payload_error(t, s.subrange(9, 9 + read_be32(s, 5) as int)),
        }
    }
}

/// What the start of a byte stream holds.
pub enum DecodeOutcome {
    /// Not yet a whole frame: more bytes are needed.
    Incomplete,
    /// Not a valid frame.
    Invalid,
    /// A frame, and the number of bytes it takes.
    Complete(FrameView, nat),
}

pub open spec fn spec_decode_frame(s: Seq<u8>) -> DecodeOutcome {
    if s.len() < FRAME_HEADER_SIZE {
        DecodeOutcome::Incomplete
    } else if s.subrange(0, 4) != magic() {
        DecodeOutcome::Invalid
    } else {
        let len = read_be32(s, 5) as nat;
        if len > MAX_FRAME_SIZE {
            DecodeOutcome::Invalid
        } else if s.len() < FRAME_HEADER_SIZE + len {
            DecodeOutcome::Incomplete
        } else {
            match message_type_of_code(s[4]) {
                None => DecodeOutcome::Invalid,
                Some(t) => match spec_decode_payload(t, s.subrange(9, 9 + len as int)) {
                    None => DecodeOutcome::Invalid,
                    Some(f) => DecodeOutcome::Complete(f, 9 + len),
                },
            }
        }
    }
}

/// The frame for `payload` under type byte `msg_type`; a payload too long for the
/// 32-bit length field is refused.
pub fn encode_raw(msg_type: u8, payload: &[u8]) -> (r: Result<Vec<u8>, Rx11Error>)
    ensures
        payload@.len() <= u32::MAX ==> (r matches Ok(v) && v@ == spec_encode_raw(msg_type, payload@)),
        payload@.len() > u32::MAX ==> (r matches Err(Rx11Error::Protocol(m)) && m@ == "payload exceeds u32 max"@),
{
    if payload.len() > 0xFFFF_FFFFusize {
        return Err(protocol_error("payload exceeds u32 max"));
    }
    let len = payload.len() as u32;
    let mut buf: Vec<u8> = Vec::new();
    buf.push(0x52u8);
    buf.push(0x58u8);
    buf.push(0x31u8);
    buf.push(0x31u8);
    buf.push(msg_type);
    push_be32(&mut buf, len);
    push_bytes(&mut buf, payload);
    assert(buf@ =~= spec_encode_raw(msg_type, payload@));
    Ok(buf)
}

impl Frame {
    pub fn msg_type(&self) -> (t: MessageType)
        ensures
            t == frame_msg_type(self@),
    {
        match self {
            Frame::Control(t, _) => *t,
            Frame::DataX11(_) => MessageType::DataX11,
            Frame::CompressedDataX11(_) => MessageType::CompressedDataX11,
            Frame::IncrementalDataX11(_) => MessageType::IncrementalDataX11,
            Frame::CompressedIncrementalDataX11(_) => MessageType::CompressedIncrementalDataX11,
            Frame::Heartbeat => MessageType::Heartbeat,
            Frame::HeartbeatAck => MessageType::HeartbeatAck,
        }
    }

    /// The bytes of this frame.
    pub fn encode(&self) -> (r: Result<Vec<u8>, Rx11Error>)
        ensures
            match spec_encode_frame(self@) {
                Some(b) => r matches Ok(v) && v@ == b,
                None => r matches Err(Rx11Error::Protocol(m)) && m@ == spec_encode_frame_error(self@),
            },
    {
        let t = self.msg_type().as_u8();
        match self {
            Frame::Control(_, json) => {
                if json.len() > MAX_FRAME_SIZE {
                    return Err(too_large_error("Frame", json.len(), MAX_FRAME_SIZE));
                }
                encode_raw(t, json.as_slice())
            },
            Frame::DataX11(m) => {
                let payload = m.encode_payload()?;
                encode_raw(t, payload.as_slice())
            },
            Frame::CompressedDataX11(m) => {
                let payload = m.encode_payload()?;
                encode_raw(t, payload.as_slice())
            },
            Frame::IncrementalDataX11(m) => {
                let payload = m.encode_payload()?;
                encode_raw(t, payload.as_slice())
            },
            Frame::CompressedIncrementalDataX11(m) => {
                let payload = m.encode_payload()?;
                encode_raw(t, payload.as_slice())
            },
            Frame::Heartbeat | Frame::HeartbeatAck => {
                let empty: Vec<u8> = Vec::new();
                encode_raw(t, empty.as_slice())
            },
        }
    }

    pub fn heartbeat() -> (f: Frame)
        ensures
            f@ == FrameView::Heartbeat,
    {
        Frame::Heartbeat
    }
}

/// The bytes of a frame.
pub fn encode_frame(frame: &Frame) -> (r: Result<Vec<u8>, Rx11Error>)
    ensures
        match spec_encode_frame(frame@) {
            Some(b) => r matches Ok(v) && v@ == b,
            None => r matches Err(Rx11Error::Protocol(m)) && m@ == spec_encode_frame_error(frame@),
        },
{
    frame.encode()
}

fn decode_payload(msg_type: MessageType, payload: &[u8]) -> (r: Result<Frame, Rx11Error>)
    ensures
        match spec_decode_payload(msg_type, payload@) {
            Some(f) => r matches Ok(v) && v@ == f,
            None => r matches Err(Rx11Error::Protocol(m)) && m@ == spec_decode_payload_error(msg_type, payload@),
        },
{
    match msg_type {
        MessageType::DataX11 => {
            let m = X11DataMessage::decode_payload(payload)?;
            Ok(Frame::DataX11(m))
        },
        MessageType::CompressedDataX11 => {
            let m = CompressedX11DataMessage::decode_payload(payload)?;
            Ok(Frame::CompressedDataX11(m))
        },
        MessageType::IncrementalDataX11 => {
            let m = IncrementalX11DataMessage::decode_payload(payload)?;
            Ok(Frame::IncrementalDataX11(m))
        },
        MessageType::CompressedIncrementalDataX11 => {
            let m = CompressedIncrementalX11DataMessage::decode_payload(payload)?;
            Ok(Frame::CompressedIncrementalDataX11(m))
        },
        MessageType::Heartbeat => {
            if payload.len() != 0 {
                return Err(protocol_error("Heartbeat frame must have empty payload"));
            }
            Ok(Frame::Heartbeat)
        },
        MessageType::HeartbeatAck => {
            if payload.len() != 0 {
                return Err(protocol_error("HeartbeatAck frame must have empty payload"));
            }
            Ok(Frame::HeartbeatAck)
        },
        _ => {
            let bytes = crate::codec::copy_range(payload, 0, payload.len());
            assert(bytes@ =~= payload@);
            Ok(Frame::Control(msg_type, bytes))
        },
    }
}

/// Decodes the frame at the start of `data`: `None` while the frame is still incomplete,
/// else the frame and the number of bytes it takes; an invalid frame is an error.
pub fn decode_frame(data: &[u8]) -> (r: Result<Option<(Frame, usize)>, Rx11Error>)
    ensures
        match spec_decode_frame(data@) {
            DecodeOutcome::Incomplete => r matches Ok(None),
            DecodeOutcome::Invalid => r matches Err(Rx11Error::Protocol(m)) && m@ == spec_decode_frame_error(data@),
            DecodeOutcome::Complete(f, n) => r matches Ok(Some((v, m))) && v@ == f && m == n,
        },
{
    if data.len() < FRAME_HEADER_SIZE {
        return Ok(None);
    }
    let ghost s = data@;
    if !(data[0] == 0x52u8 && data[1] == 0x58u8 && data[2] == 0x31u8 && data[3] == 0x31u8) {
        proof {
            if s.subrange(0, 4) == magic() {
                assert(s[0] == s.subrange(0, 4)[0]);
                assert(s[1] == s.subrange(0, 4)[1]);
                assert(s[2] == s.subrange(0, 4)[2]);
                assert(s[3] == s.subrange(0, 4)[3]);
            }
        }
        return Err(protocol_error("Invalid magic bytes"));
    }
    assert(s.subrange(0, 4) =~= magic());
    let msg_type_byte = data[4];
    let payload_len = get_be32(data, 5) as usize;
    if payload_len > MAX_FRAME_SIZE {
        return Err(too_large_error("Frame", payload_len, MAX_FRAME_SIZE));
    }
    let total = FRAME_HEADER_SIZE + payload_len;
    if data.len() < total {
        return Ok(None);
    }
    let payload = &data[FRAME_HEADER_SIZE..total];
    let msg_type = MessageType::try_from(msg_type_byte)?;
    let frame = decode_payload(msg_type, payload)?;
    Ok(Some((frame, total)))
}

pub fn frame_header_size() -> (n: usize)
    ensures
        n == FRAME_HEADER_SIZE,
{
    FRAME_HEADER_SIZE
}

/// The payload of an encoded frame decodes to the frame again.
pub proof fn lemma_payload_roundtrip(f: FrameView)
    requires
        frame_wf(f),
        frame_chunks_wf(f),
        spec_frame_payload(f) is Some,
    ensures
        spec_decode_payload(frame_msg_type(f), spec_frame_payload(f)->0) == Some(f),
{
    match f {
        FrameView::DataX11(m) => lemma_data_roundtrip(m),
        FrameView::CompressedDataX11(m) => lemma_compressed_roundtrip(m),
        FrameView::IncrementalDataX11(m) => lemma_incremental_roundtrip(m),
        FrameView::CompressedIncrementalDataX11(m) => lemma_compressed_roundtrip(m),
        _ => {},
    }
}

/// The chunks of an incremental frame are as long as their `length` fields say.
pub open spec fn frame_chunks_wf(f: FrameView) -> bool {
    match f {
        FrameView::IncrementalDataX11(m) => chunks_wf(m.chunks),
        _ => true,
    }
}

/// Encoding then decoding gives the frame back, and says how many bytes it took, whatever
/// bytes follow it in the stream. This holds of every well-formed frame that encodes to a
/// frame no longer than the largest that decoding accepts.
pub proof fn lemma_frame_roundtrip(f: FrameView, tail: Seq<u8>)
    requires
        frame_wf(f),
        frame_chunks_wf(f),
        spec_encode_frame(f) is Some,
        spec_encode_frame(f)->0.len() <= FRAME_HEADER_SIZE + MAX_FRAME_SIZE,
    ensures
        spec_decode_frame(spec_encode_frame(f)->0 + tail)
            == DecodeOutcome::Complete(f, spec_encode_frame(f)->0.len()),
{
    let p = spec_frame_payload(f)->0;
    let t = frame_msg_type(f);
    let b = spec_encode_frame(f)->0;
    let s = b + tail;
    assert(b == spec_encode_raw(message_type_code(t), p));
    assert(b.len() == 9 + p.len());
    assert(s.subrange(0, 4) =~= magic());
    assert(s[4] == message_type_code(t));
    assert(s.subrange(5, 9) =~= be32(p.len() as u32));
    lemma_read_be32_of(s, 5, p.len() as u32);
    assert(s.subrange(9, 9 + p.len() as int) =~= p);
    lemma_message_type_code_roundtrip(t);
    lemma_payload_roundtrip(f);
}

/// Encoding a frame writes its message type's byte at offset 4.
pub proof fn lemma_encoded_type_byte(f: FrameView)
    requires
        spec_encode_frame(f) is Some,
    ensures
        spec_encode_frame(f)->0[4] == message_type_code(frame_msg_type(f)),
        spec_encode_frame(f)->0.subrange(0, 4) == magic(),
{
    assert(spec_encode_frame(f)->0.subrange(0, 4) =~= magic());
}

/// An encoded frame is the magic bytes `RX11`, the byte of its message type from the
/// protocol's table, its payload's length as four big-endian bytes, then the payload.
pub proof fn lemma_frame_layout(f: FrameView)
    requires
        spec_encode_frame(f) is Some,
    ensures
        ({
            let b = spec_encode_frame(f)->0;
            let p = spec_frame_payload(f)->0;
            &&& b.len() == 9 + p.len()
            &&& b[0] == 0x52 && b[1] == 0x58 && b[2] == 0x31 && b[3] == 0x31
            &&& b[4] == message_type_code(frame_msg_type(f))
            &&& b.subrange(5, 9) == be32(p.len() as u32)
            &&& read_be32(b, 5) == p.len()
            &&& b.subrange(9, b.len() as int) == p
        }),
{
    let b = spec_encode_frame(f)->0;
    let p = spec_frame_payload(f)->0;
    assert(b.subrange(5, 9) =~= be32(p.len() as u32));
    assert(b.subrange(9, b.len() as int) =~= p);
    lemma_read_be32_of(b, 5, p.len() as u32);
}

} // verus!
