//! The binary payloads that carry X11 data.

use vstd::prelude::*;

use crate::codec::{
    be16, be32, copy_range, get_be16, get_be32, lemma_read_be16_of, lemma_read_be32_of, push_be16,
    push_be32, push_bytes, read_be16, read_be32,
};
use crate::error::Rx11Error;
use crate::protocol::MAX_FRAME_SIZE;
use crate::text::{decimal_string, spec_decimal};
use crate::types::{protocol_error, ConnectionId};

verus! {

/// A message carried as a binary payload: encoded to bytes and decoded back.
/// Each implementation states in its own contract which bytes it writes and reads.
pub trait BinaryMessageCodec: Sized {
    fn encode_payload(&self) -> Result<Vec<u8>, Rx11Error>;

    fn decode_payload(data: &[u8]) -> Result<Self, Rx11Error>;
}

/// The error text for a payload of `len` bytes, below the `min` bytes that `label` needs.
pub open spec fn too_short_message(label: Seq<char>, len: nat, min: nat) -> Seq<char> {
    label + " payload too short: "@ + spec_decimal(len) + " bytes (min "@ + spec_decimal(min) + ")"@
}

/// The error text for a payload of `len` bytes, above the `max` bytes allowed for `label`.
pub open spec fn too_large_message(label: Seq<char>, len: nat, max: nat) -> Seq<char> {
    label + " payload too large: "@ + spec_decimal(len) + " bytes (max "@ + spec_decimal(max) + ")"@
}

pub(crate) fn too_short_error(label: &str, len: usize, min: usize) -> (e: Rx11Error)
    ensures
        e matches Rx11Error::Protocol(m) && m@ == too_short_message(label@, len as nat, min as nat),
{
    let mut m = label.to_owned();
    m.append(" payload too short: ");
    m.append(decimal_string(len as u64).as_str());
    m.append(" bytes (min ");
    m.append(decimal_string(min as u64).as_str());
    m.append(")");
    Rx11Error::Protocol(m)
}

pub(crate) fn too_large_error(label: &str, len: usize, max: usize) -> (e: Rx11Error)
    ensures
        e matches Rx11Error::Protocol(m) && m@ == too_large_message(label@, len as nat, max as nat),
{
    let mut m = label.to_owned();
    m.append(" payload too large: ");
    m.append(decimal_string(len as u64).as_str());
    m.append(" bytes (max ");
    m.append(decimal_string(max as u64).as_str());
    m.append(")");
    Rx11Error::Protocol(m)
}

/// Plain X11 data for one connection.
#[derive(Debug, Clone)]
pub struct X11DataMessage {
    pub connection_id: ConnectionId,
    pub sequence_id: u32,
    pub data: Vec<u8>,
}

pub struct X11DataView {
    pub connection_id: u32,
    pub sequence_id: u32,
    pub data: Seq<u8>,
}

impl View for X11DataMessage {
    type V = X11DataView;

    open spec fn view(&self) -> X11DataView {
        X11DataView { connection_id: self.connection_id.0, sequence_id: self.sequence_id, data: self.data@ }
    }
}

/// X11 data compressed with the negotiated algorithm, with its length before compression.
#[derive(Debug, Clone)]
pub struct CompressedX11DataMessage {
    pub connection_id: ConnectionId,
    pub sequence_id: u32,
    pub original_len: usize,
    pub data: Vec<u8>,
}

pub struct CompressedView {
    pub connection_id: u32,
    pub sequence_id: u32,
    pub original_len: usize,
    pub data: Seq<u8>,
}

impl View for CompressedX11DataMessage {
    type V = CompressedView;

    open spec fn view(&self) -> CompressedView {
        CompressedView {
            connection_id: self.connection_id.0,
            sequence_id: self.sequence_id,
            original_len: self.original_len,
            data: self.data@,
        }
    }
}

/// The same layout as `CompressedX11DataMessage`, for a compressed incremental update.
#[derive(Debug, Clone)]
pub struct CompressedIncrementalX11DataMessage {
    pub connection_id: ConnectionId,
    pub sequence_id: u32,
    pub original_len: usize,
    pub data: Vec<u8>,
}

impl View for CompressedIncrementalX11DataMessage {
    type V = CompressedView;

    open spec fn view(&self) -> CompressedView {
        CompressedView {
            connection_id: self.connection_id.0,
            sequence_id: self.sequence_id,
            original_len: self.original_len,
            data: self.data@,
        }
    }
}

/// A run of bytes of new data, at `offset`, that replaces the cached data there.
#[derive(Debug, Clone)]
pub struct IncrementalChunk {
    pub offset: usize,
    pub length: usize,
    pub data: Vec<u8>,
}

pub struct ChunkView {
    pub offset: usize,
    pub length: usize,
    pub data: Seq<u8>,
}

impl View for IncrementalChunk {
    type V = ChunkView;

    open spec fn view(&self) -> ChunkView {
        ChunkView { offset: self.offset, length: self.length, data: self.data@ }
    }
}

/// New data for a connection, given as the chunks in which it differs from the data
/// last sent under `base_sequence_id`.
#[derive(Debug, Clone)]
pub struct IncrementalX11DataMessage {
    pub connection_id: ConnectionId,
    pub sequence_id: u32,
    pub base_sequence_id: u32,
    pub total_len: usize,
    pub chunks: Vec<IncrementalChunk>,
}

pub struct IncrementalView {
    pub connection_id: u32,
    pub sequence_id: u32,
    pub base_sequence_id: u32,
    pub total_len: usize,
    pub chunks: Seq<ChunkView>,
}

pub open spec fn chunk_views(chunks: Seq<IncrementalChunk>) -> Seq<ChunkView> {
    chunks.map_values(|c: IncrementalChunk| c@)
}

impl View for IncrementalX11DataMessage {
    type V = IncrementalView;

    open spec fn view(&self) -> IncrementalView {
        IncrementalView {
            connection_id: self.connection_id.0,
            sequence_id: self.sequence_id,
            base_sequence_id: self.base_sequence_id,
            total_len: self.total_len,
            chunks: chunk_views(self.chunks@),
        }
    }
}

/// A chunk whose data is as long as its `length` field says.
pub open spec fn chunk_wf(c: ChunkView) -> bool {
    c.data.len() == c.length
}

pub open spec fn chunks_wf(cs: Seq<ChunkView>) -> bool {
    forall|i: int| 0 <= i < cs.len() ==> #[trigger] chunk_wf(cs[i])
}

// ----- X11 data -----

pub open spec fn spec_encode_data(m: X11DataView) -> Option<Seq<u8>> {
    if m.data.len() > MAX_FRAME_SIZE {
        None
    } else {
        Some(be32(m.connection_id) + be32(m.sequence_id) + m.data)
    }
}

pub open spec fn spec_decode_data(p: Seq<u8>) -> Option<X11DataView> {
    if p.len() < 8 {
        None
    } else {
        Some(X11DataView {
            connection_id: read_be32(p, 0),
            sequence_id: read_be32(p, 4),
            data: p.subrange(8, p.len() as int),
        })
    }
}

impl BinaryMessageCodec for X11DataMessage {
    fn encode_payload(&self) -> (r: Result<Vec<u8>, Rx11Error>)
        ensures
            match spec_encode_data(self@) {
                Some(b) => r matches Ok(v) && v@ == b,
                None => r matches Err(Rx11Error::Protocol(m))
                    && m@ == too_large_message("DataX11"@, self.data@.len(), MAX_FRAME_SIZE as nat),
            },
    {
        if self.data.len() > MAX_FRAME_SIZE {
            return Err(too_large_error("DataX11", self.data.len(), MAX_FRAME_SIZE));
        }
        let mut buf: Vec<u8> = Vec::new();
        push_be32(&mut buf, self.connection_id.get());
        push_be32(&mut buf, self.sequence_id);
        push_bytes(&mut buf, self.data.as_slice());
        assert(buf@ =~= be32(self.connection_id.0) + be32(self.sequence_id) + self.data@);
        Ok(buf)
    }

    fn decode_payload(data: &[u8]) -> (r: Result<X11DataMessage, Rx11Error>)
        ensures
            match spec_decode_data(data@) {
                Some(m) => r matches Ok(v) && v@ == m,
                None => r matches Err(Rx11Error::Protocol(msg))
                    && msg@ == too_short_message("DataX11"@, data@.len(), 8),
            },
    {
        if data.len() < 8 {
            return Err(too_short_error("DataX11", data.len(), 8));
        }
        let connection_id = get_be32(data, 0);
        let sequence_id = get_be32(data, 4);
        Ok(X11DataMessage {
            connection_id: ConnectionId::new(connection_id),
            sequence_id,
            data: copy_range(data, 8, data.len()),
        })
    }
}

// ----- compressed X11 data -----

pub open spec fn spec_encode_compressed(m: CompressedView) -> Option<Seq<u8>> {
    if m.original_len > u32::MAX || m.data.len() > MAX_FRAME_SIZE {
        None
    } else {
        Some(be32(m.connection_id) + be32(m.sequence_id) + be32(m.original_len as u32) + m.data)
    }
}

pub open spec fn spec_decode_compressed(p: Seq<u8>) -> Option<CompressedView> {
    if p.len() < 12 {
        None
    } else {
        Some(CompressedView {
            connection_id: read_be32(p, 0),
            sequence_id: read_be32(p, 4),
            original_len: read_be32(p, 8) as usize,
            data: p.subrange(12, p.len() as int),
        })
    }
}

/// The error text for a compressed payload that cannot be encoded, named by `label`.
pub open spec fn compressed_encode_message(label: Seq<char>, m: CompressedView) -> Seq<char> {
    if m.original_len > u32::MAX {
        "original_len exceeds u32"@
    } else {
        too_large_message(label, m.data.len(), MAX_FRAME_SIZE as nat)
    }
}

fn encode_compressed_fields(
    label: &str,
    connection_id: u32,
    sequence_id: u32,
    original_len: usize,
    data: &Vec<u8>,
) -> (r: Result<Vec<u8>, Rx11Error>)
    ensures
        match spec_encode_compressed(CompressedView { connection_id, sequence_id, original_len, data: data@ }) {
            Some(b) => r matches Ok(v) && v@ == b,
            None => r matches Err(Rx11Error::Protocol(m)) && m@ == compressed_encode_message(
                label@,
                CompressedView { connection_id, sequence_id, original_len, data: data@ },
            ),
        },
{
    if original_len > 0xFFFF_FFFFusize {
        return Err(protocol_error("original_len exceeds u32"));
    }
    if data.len() > MAX_FRAME_SIZE {
        return Err(too_large_error(label, data.len(), MAX_FRAME_SIZE));
    }
    let mut buf: Vec<u8> = Vec::new();
    push_be32(&mut buf, connection_id);
    push_be32(&mut buf, sequence_id);
    push_be32(&mut buf, original_len as u32);
    push_bytes(&mut buf, data.as_slice());
    assert(buf@ =~= be32(connection_id) + be32(sequence_id) + be32(original_len as u32) + data@);
    Ok(buf)
}

fn decode_compressed_fields(label: &str, data: &[u8]) -> (r: Result<(u32, u32, usize, Vec<u8>), Rx11Error>)
    ensures
        match spec_decode_compressed(data@) {
            Some(m) => r matches Ok(v) && v.0 == m.connection_id && v.1 == m.sequence_id
                && v.2 == m.original_len && v.3@ == m.data,
            None => r matches Err(Rx11Error::Protocol(msg)) && msg@ == too_short_message(label@, data@.len(), 12),
        },
{
    if data.len() < 12 {
        return Err(too_short_error(label, data.len(), 12));
    }
    let connection_id = get_be32(data, 0);
    let sequence_id = get_be32(data, 4);
    let original_len = get_be32(data, 8) as usize;
    Ok((connection_id, sequence_id, original_len, copy_range(data, 12, data.len())))
}

impl BinaryMessageCodec for CompressedX11DataMessage {
    fn encode_payload(&self) -> (r: Result<Vec<u8>, Rx11Error>)
        ensures
            match spec_encode_compressed(self@) {
                Some(b) => r matches Ok(v) && v@ == b,
                None => r matches Err(Rx11Error::Protocol(m))
                    && m@ == compressed_encode_message("CompressedDataX11"@, self@),
            },
    {
        encode_compressed_fields("CompressedDataX11", self.connection_id.get(), self.sequence_id, self.original_len, &self.data)
    }

    fn decode_payload(data: &[u8]) -> (r: Result<CompressedX11DataMessage, Rx11Error>)
        ensures
            match spec_decode_compressed(data@) {
                Some(m) => r matches Ok(v) && v@ == m,
                None => r matches Err(Rx11Error::Protocol(msg))
                    && msg@ == too_short_message("CompressedDataX11"@, data@.len(), 12),
            },
    {
        let (connection_id, sequence_id, original_len, bytes) = decode_compressed_fields("CompressedDataX11", data)?;
        Ok(CompressedX11DataMessage {
            connection_id: ConnectionId::new(connection_id),
            sequence_id,
            original_len,
            data: bytes,
        })
    }
}

impl BinaryMessageCodec for CompressedIncrementalX11DataMessage {
    fn encode_payload(&self) -> (r: Result<Vec<u8>, Rx11Error>)
        ensures
            match spec_encode_compressed(self@) {
                Some(b) => r matches Ok(v) && v@ == b,
                None => r matches Err(Rx11Error::Protocol(m))
                    && m@ == compressed_encode_message("CompressedIncrementalDataX11"@, self@),
            },
    {
        encode_compressed_fields("CompressedIncrementalDataX11", self.connection_id.get(), self.sequence_id, self.original_len, &self.data)
    }

    fn decode_payload(data: &[u8]) -> (r: Result<CompressedIncrementalX11DataMessage, Rx11Error>)
        ensures
            match spec_decode_compressed(data@) {
                Some(m) => r matches Ok(v) && v@ == m,
                None => r matches Err(Rx11Error::Protocol(msg))
                    && msg@ == too_short_message("CompressedIncrementalDataX11"@, data@.len(), 12),
            },
    {
        let (connection_id, sequence_id, original_len, bytes) = decode_compressed_fields("CompressedIncrementalDataX11", data)?;
        Ok(CompressedIncrementalX11DataMessage {
            connection_id: ConnectionId::new(connection_id),
            sequence_id,
            original_len,
            data: bytes,
        })
    }
}

// ----- incremental X11 data -----

pub open spec fn encode_chunk(c: ChunkView) -> Seq<u8> {
    be32(c.offset as u32) + be32(c.length as u32) + c.data
}

pub open spec fn encode_chunks(cs: Seq<ChunkView>) -> Seq<u8>
    decreases cs.len(),
{
    if cs.len() == 0 {
        Seq::empty()
    } else {
        encode_chunk(cs[0]) + encode_chunks(cs.drop_first())
    }
}

/// Offsets and lengths that fit the 32-bit fields of the encoding.
pub open spec fn chunks_encodable(cs: Seq<ChunkView>) -> bool {
    forall|i: int| 0 <= i < cs.len() ==> (#[trigger] cs[i]).offset <= u32::MAX && cs[i].length <= u32::MAX
}

pub open spec fn incremental_header(m: IncrementalView) -> Seq<u8> {
    be32(m.connection_id) + be32(m.sequence_id) + be32(m.base_sequence_id) + be32(m.total_len as u32)
        + be16(m.chunks.len() as u16)
}

pub open spec fn spec_encode_incremental(m: IncrementalView) -> Option<Seq<u8>> {
    if m.total_len > u32::MAX || m.chunks.len() > u16::MAX || !chunks_encodable(m.chunks) {
        None
    } else {
        let b = incremental_header(m) + encode_chunks(m.chunks);
        if b.len() > MAX_FRAME_SIZE {
            None
        } else {
            Some(b)
        }
    }
}

/// Parses `count` chunks starting at `pos`: the chunks and the position after them.
pub open spec fn parse_chunks(p: Seq<u8>, pos: int, count: nat) -> Option<(Seq<ChunkView>, int)>
    decreases count,
{
    if count == 0 {
        Some((Seq::empty(), pos))
    } else if pos + 8 > p.len() {
        None
    } else {
        let off = read_be32(p, pos);
        let len = read_be32(p, pos + 4);
        let start = pos + 8;
        if start + len > p.len() {
            None
        } else {
            let c = ChunkView { offset: off as usize, length: len as usize, data: p.subrange(start, start + len) };
            match parse_chunks(p, start + len, (count - 1) as nat) {
                None => None,
                Some((rest, end)) => Some((seq![c] + rest, end)),
            }
        }
    }
}

pub open spec fn spec_decode_incremental(p: Seq<u8>) -> Option<IncrementalView> {
    if p.len() < 18 {
        None
    } else {
        match parse_chunks(p, 18, read_be16(p, 16) as nat) {
            None => None,
            Some((cs, _)) => Some(IncrementalView {
                connection_id: read_be32(p, 0),
                sequence_id: read_be32(p, 4),
                base_sequence_id: read_be32(p, 8),
                total_len: read_be32(p, 12) as usize,
                chunks: cs,
            }),
        }
    }
}

pub proof fn lemma_encode_chunks_snoc(a: Seq<ChunkView>, c: ChunkView)
    ensures
        encode_chunks(a.push(c)) == encode_chunks(a) + encode_chunk(c),
    decreases a.len(),
{
    if a.len() == 0 {
        assert(a.push(c).drop_first() =~= Seq::<ChunkView>::empty());
        assert(encode_chunks(a.push(c)) =~= encode_chunk(c) + encode_chunks(Seq::<ChunkView>::empty()));
        assert(encode_chunks(a) + encode_chunk(c) =~= encode_chunk(c));
    } else {
        assert(a.push(c).drop_first() =~= a.drop_first().push(c));
        lemma_encode_chunks_snoc(a.drop_first(), c);
        assert(encode_chunks(a.push(c)) =~= encode_chunk(a[0]) + (encode_chunks(a.drop_first()) + encode_chunk(c)));
    }
}

/// The error text for the first chunk, in order, whose offset or length does not fit in
/// 32 bits; `None` where all fit.
pub open spec fn chunk_field_error(cs: Seq<ChunkView>) -> Option<Seq<char>>
    decreases cs.len(),
{
    if cs.len() == 0 {
        None
    } else if cs[0].offset > u32::MAX {
        Some("chunk offset exceeds u32"@)
    } else if cs[0].length > u32::MAX {
        Some("chunk length exceeds u32"@)
    } else {
        chunk_field_error(cs.drop_first())
    }
}

/// The error text for an incremental message that cannot be encoded: its fields are
/// checked in order, and the size of the whole payload last.
pub open spec fn incremental_encode_message(m: IncrementalView) -> Seq<char> {
    if m.total_len > u32::MAX {
        "total_len exceeds u32"@
    } else if m.chunks.len() > u16::MAX {
        "too many chunks"@
    } else {
        match chunk_field_error(m.chunks) {
            Some(msg) => msg,
            None => too_large_message(
                "IncrementalDataX11"@,
                (incremental_header(m) + encode_chunks(m.chunks)).len(),
                MAX_FRAME_SIZE as nat,
            ),
        }
    }
}

/// The error text for `count` chunks at `pos` that cannot be parsed: the first chunk whose
/// header, or whose data, runs past the end.
pub open spec fn parse_chunks_error(p: Seq<u8>, pos: int, count: nat) -> Seq<char>
    decreases count,
{
    if count == 0 {
        Seq::empty()
    } else if pos + 8 > p.len() {
        "Invalid IncrementalDataX11 chunk header"@
    } else {
        let len = read_be32(p, pos + 4);
        let start = pos + 8;
        if start + len > p.len() {
            "Invalid IncrementalDataX11 chunk data"@
        } else {
            parse_chunks_error(p, start + len, (count - 1) as nat)
        }
    }
}

/// The error text for an incremental payload that cannot be decoded.
pub open spec fn incremental_decode_message(p: Seq<u8>) -> Seq<char> {
    if p.len() < 18 {
        too_short_message("IncrementalDataX11"@, p.len(), 18)
    } else {
        parse_chunks_error(p, 18, read_be16(p, 16) as nat)
    }
}

/// No chunk field is too wide exactly when the chunks can be encoded.
pub proof fn lemma_chunk_field_error_none(cs: Seq<ChunkView>)
    ensures
        chunk_field_error(cs) is None <==> chunks_encodable(cs),
    decreases cs.len(),
{
    if cs.len() > 0 {
        lemma_chunk_field_error_none(cs.drop_first());
        if chunks_encodable(cs) {
            assert forall|i: int| 0 <= i < cs.drop_first().len() implies (#[trigger] cs.drop_first()[i]).offset
                <= u32::MAX && cs.drop_first()[i].length <= u32::MAX by {
                assert(cs.drop_first()[i] == cs[i + 1]);
            }
        }
        if cs[0].offset <= u32::MAX && cs[0].length <= u32::MAX && chunks_encodable(cs.drop_first()) {
            assert forall|i: int| 0 <= i < cs.len() implies (#[trigger] cs[i]).offset <= u32::MAX
                && cs[i].length <= u32::MAX by {
                if i > 0 {
                    assert(cs[i] == cs.drop_first()[i - 1]);
                }
            }
        }
    }
}

impl BinaryMessageCodec for IncrementalX11DataMessage {
    fn encode_payload(&self) -> (r: Result<Vec<u8>, Rx11Error>)
        ensures
            match spec_encode_incremental(self@) {
                Some(b) => r matches Ok(v) && v@ == b,
                None => r matches Err(Rx11Error::Protocol(msg)) && msg@ == incremental_encode_message(self@),
            },
    {
        let ghost m = self@;
        proof {
            lemma_chunk_field_error_none(m.chunks);
        }
        let mut buf: Vec<u8> = Vec::new();
        push_be32(&mut buf, self.connection_id.get());
        push_be32(&mut buf, self.sequence_id);
        push_be32(&mut buf, self.base_sequence_id);
        if self.total_len > 0xFFFF_FFFFusize {
            return Err(protocol_error("total_len exceeds u32"));
        }
        push_be32(&mut buf, self.total_len as u32);
        if self.chunks.len() > 0xFFFFusize {
            return Err(protocol_error("too many chunks"));
        }
        push_be16(&mut buf, self.chunks.len() as u16);
        assert(buf@ =~= incremental_header(m) + encode_chunks(m.chunks.take(0)));
        assert(m.chunks.skip(0) =~= m.chunks);
        let mut i: usize = 0;
        while i < self.chunks.len()
            invariant
                i <= self.chunks@.len(),
                m == self@,
                m.chunks.len() == self.chunks@.len(),
                m.total_len <= u32::MAX,
                m.chunks.len() <= u16::MAX,
                forall|j: int| 0 <= j < i ==> (#[trigger] m.chunks[j]).offset <= u32::MAX && m.chunks[j].length <= u32::MAX,
                buf@ == incremental_header(m) + encode_chunks(m.chunks.take(i as int)),
                chunk_field_error(m.chunks) == chunk_field_error(m.chunks.skip(i as int)),
                chunk_field_error(m.chunks) is None <==> chunks_encodable(m.chunks),
            decreases self.chunks@.len() - i,
        {
            let chunk = &self.chunks[i];
            assert(m.chunks[i as int] == chunk@);
            assert(m.chunks.skip(i as int)[0] == chunk@);
            assert(m.chunks.skip(i as int).drop_first() =~= m.chunks.skip(i + 1));
            if chunk.offset > 0xFFFF_FFFFusize {
                return Err(protocol_error("chunk offset exceeds u32"));
            }
            if chunk.length > 0xFFFF_FFFFusize {
                return Err(protocol_error("chunk length exceeds u32"));
            }
            let ghost before = buf@;
            push_be32(&mut buf, chunk.offset as u32);
            push_be32(&mut buf, chunk.length as u32);
            push_bytes(&mut buf, chunk.data.as_slice());
            proof {
                lemma_encode_chunks_snoc(m.chunks.take(i as int), m.chunks[i as int]);
                assert(m.chunks.take(i + 1) =~= m.chunks.take(i as int).push(m.chunks[i as int]));
                assert(buf@ =~= incremental_header(m) + (encode_chunks(m.chunks.take(i as int)) + encode_chunk(m.chunks[i as int])));
            }
            i = i + 1;
        }
        assert(m.chunks.take(i as int) =~= m.chunks);
        if buf.len() > MAX_FRAME_SIZE {
            assert(m.chunks.skip(i as int) =~= Seq::<ChunkView>::empty());
            return Err(too_large_error("IncrementalDataX11", buf.len(), MAX_FRAME_SIZE));
        }
        Ok(buf)
    }

    fn decode_payload(data: &[u8]) -> (r: Result<IncrementalX11DataMessage, Rx11Error>)
        ensures
            match spec_decode_incremental(data@) {
                Some(m) => r matches Ok(v) && v@ == m,
                None => r matches Err(Rx11Error::Protocol(msg)) && msg@ == incremental_decode_message(data@),
            },
    {
        if data.len() < 18 {
            return Err(too_short_error("IncrementalDataX11", data.len(), 18));
        }
        let connection_id = get_be32(data, 0);
        let sequence_id = get_be32(data, 4);
        let base_sequence_id = get_be32(data, 8);
        let total_len = get_be32(data, 12) as usize;
        let chunk_count = get_be16(data, 16) as usize;
        let ghost p = data@;
        let mut offset: usize = 18;
        let mut chunks: Vec<IncrementalChunk> = Vec::new();
        let mut i: usize = 0;
        while i < chunk_count
            invariant
                p == data@,
                18 <= offset <= p.len(),
                i <= chunk_count,
                chunk_count == read_be16(p, 16) as nat,
                chunks@.len() == i,
                parse_chunks(p, 18, chunk_count as nat) == match parse_chunks(p, offset as int, (chunk_count - i) as nat) {
                    Some((rest, end)) => Some((chunk_views(chunks@) + rest, end)),
                    None => None,
                },
                parse_chunks_error(p, 18, chunk_count as nat) == parse_chunks_error(
                    p,
                    offset as int,
                    (chunk_count - i) as nat,
                ),
            decreases chunk_count - i,
        {
            if data.len() - offset < 8 {
                return Err(protocol_error("Invalid IncrementalDataX11 chunk header"));
            }
            let chunk_offset = get_be32(data, offset) as usize;
            let chunk_length = get_be32(data, offset + 4) as usize;
            let start = offset + 8;
            if chunk_length > data.len() - start {
                return Err(protocol_error("Invalid IncrementalDataX11 chunk data"));
            }
            let chunk_data = copy_range(data, start, start + chunk_length);
            let ghost old_views = chunk_views(chunks@);
            let chunk = IncrementalChunk { offset: chunk_offset, length: chunk_length, data: chunk_data };
            chunks.push(chunk);
            proof {
                let c = chunk@;
                assert(chunk_views(chunks@) =~= old_views.push(c));
                let rest_opt = parse_chunks(p, (start + chunk_length) as int, (chunk_count - i - 1) as nat);
                match rest_opt {
                    Some((rest, end)) => {
                        assert(old_views + (seq![c] + rest) =~= old_views.push(c) + rest);
                    }
                    None => {}
                }
            }
            offset = start + chunk_length;
            i = i + 1;
        }
        Ok(IncrementalX11DataMessage {
            connection_id: ConnectionId::new(connection_id),
            sequence_id,
            base_sequence_id,
            total_len,
            chunks,
        })
    }
}

// ----- layouts -----

/// A data payload is the connection id, then the sequence number, each as four
/// big-endian bytes, then the data; only data longer than the largest frame is refused.
pub proof fn lemma_data_layout(m: X11DataView)
    ensures
        spec_encode_data(m) is None <==> m.data.len() > MAX_FRAME_SIZE,
        spec_encode_data(m) matches Some(b) ==> {
            &&& b.len() == 8 + m.data.len()
            &&& b.subrange(0, 4) == be32(m.connection_id)
            &&& b.subrange(4, 8) == be32(m.sequence_id)
            &&& b.subrange(8, b.len() as int) == m.data
        },
{
    if let Some(b) = spec_encode_data(m) {
        assert(b.subrange(0, 4) =~= be32(m.connection_id));
        assert(b.subrange(4, 8) =~= be32(m.sequence_id));
        assert(b.subrange(8, b.len() as int) =~= m.data);
    }
}

/// A compressed payload is the connection id, the sequence number and the length before
/// compression, each as four big-endian bytes, then the compressed data; a length before
/// compression beyond 32 bits, or data longer than the largest frame, is refused.
pub proof fn lemma_compressed_layout(m: CompressedView)
    ensures
        spec_encode_compressed(m) is None <==> (m.original_len > u32::MAX || m.data.len() > MAX_FRAME_SIZE),
        spec_encode_compressed(m) matches Some(b) ==> {
            &&& b.len() == 12 + m.data.len()
            &&& b.subrange(0, 4) == be32(m.connection_id)
            &&& b.subrange(4, 8) == be32(m.sequence_id)
            &&& b.subrange(8, 12) == be32(m.original_len as u32)
            &&& m.original_len == read_be32(b, 8)
            &&& b.subrange(12, b.len() as int) == m.data
        },
{
    if let Some(b) = spec_encode_compressed(m) {
        assert(b.subrange(0, 4) =~= be32(m.connection_id));
        assert(b.subrange(4, 8) =~= be32(m.sequence_id));
        assert(b.subrange(8, 12) =~= be32(m.original_len as u32));
        assert(b.subrange(12, b.len() as int) =~= m.data);
        lemma_read_be32_of(b, 8, m.original_len as u32);
    }
}

/// An incremental payload starts with the connection id, the sequence number, the base's
/// sequence number and the total length, each as four big-endian bytes, and the number of
/// chunks as two; then each chunk's offset and length, as four bytes each, and its data.
pub proof fn lemma_incremental_layout(m: IncrementalView)
    ensures
        spec_encode_incremental(m) matches Some(b) ==> {
            &&& b.len() >= 18
            &&& b.subrange(0, 4) == be32(m.connection_id)
            &&& b.subrange(4, 8) == be32(m.sequence_id)
            &&& b.subrange(8, 12) == be32(m.base_sequence_id)
            &&& b.subrange(12, 16) == be32(m.total_len as u32)
            &&& m.total_len == read_be32(b, 12)
            &&& b.subrange(16, 18) == be16(m.chunks.len() as u16)
            &&& m.chunks.len() == read_be16(b, 16)
            &&& m.chunks.len() > 0 ==> {
                &&& b.len() >= 26 + m.chunks[0].data.len()
                &&& b.subrange(18, 22) == be32(m.chunks[0].offset as u32)
                &&& m.chunks[0].offset == read_be32(b, 18)
                &&& b.subrange(22, 26) == be32(m.chunks[0].length as u32)
                &&& m.chunks[0].length == read_be32(b, 22)
                &&& b.subrange(26, 26 + m.chunks[0].data.len() as int) == m.chunks[0].data
            }
        },
{
    if let Some(b) = spec_encode_incremental(m) {
        let h = incremental_header(m);
        assert(h.len() == 18);
        assert(b.subrange(0, 4) =~= be32(m.connection_id));
        assert(b.subrange(4, 8) =~= be32(m.sequence_id));
        assert(b.subrange(8, 12) =~= be32(m.base_sequence_id));
        assert(b.subrange(12, 16) =~= be32(m.total_len as u32));
        assert(b.subrange(16, 18) =~= be16(m.chunks.len() as u16));
        lemma_read_be32_of(b, 12, m.total_len as u32);
        lemma_read_be16_of(b, 16, m.chunks.len() as u16);
        if m.chunks.len() > 0 {
            let c = m.chunks[0];
            let rest = encode_chunks(m.chunks);
            assert(rest == encode_chunk(c) + encode_chunks(m.chunks.drop_first()));
            assert(b == h + rest);
            assert(b.subrange(18, 22) =~= be32(c.offset as u32));
            assert(b.subrange(22, 26) =~= be32(c.length as u32));
            assert(b.subrange(26, 26 + c.data.len() as int) =~= c.data);
            lemma_read_be32_of(b, 18, c.offset as u32);
            lemma_read_be32_of(b, 22, c.length as u32);
        }
    }
}

// ----- round trips -----

/// Bytes that stand at offset `a` of `p` can be read back piecewise there.
pub proof fn lemma_subrange_within(p: Seq<u8>, a: int, x: Seq<u8>, j: int, k: int)
    requires
        0 <= a,
        a + x.len() <= p.len(),
        p.subrange(a, a + x.len()) == x,
        0 <= j <= k <= x.len(),
    ensures
        p.subrange(a + j, a + k) == x.subrange(j, k),
{
    assert forall|t: int| 0 <= t < k - j implies p.subrange(a + j, a + k)[t] == x.subrange(j, k)[t] by {
        assert(p.subrange(a, a + x.len())[j + t] == p[a + j + t]);
    }
    assert(p.subrange(a + j, a + k) =~= x.subrange(j, k));
}

/// Decoding the payload of a data message gives the message back.
pub proof fn lemma_data_roundtrip(m: X11DataView)
    requires
        spec_encode_data(m) is Some,
    ensures
        spec_decode_data(spec_encode_data(m)->0) == Some(m),
{
    let b = spec_encode_data(m)->0;
    assert(b.subrange(0, 4) =~= be32(m.connection_id));
    assert(b.subrange(4, 8) =~= be32(m.sequence_id));
    lemma_read_be32_of(b, 0, m.connection_id);
    lemma_read_be32_of(b, 4, m.sequence_id);
    assert(b.subrange(8, b.len() as int) =~= m.data);
}

/// Decoding the payload of a compressed message gives the message back.
pub proof fn lemma_compressed_roundtrip(m: CompressedView)
    requires
        spec_encode_compressed(m) is Some,
    ensures
        spec_decode_compressed(spec_encode_compressed(m)->0) == Some(m),
{
    let b = spec_encode_compressed(m)->0;
    assert(b.subrange(0, 4) =~= be32(m.connection_id));
    assert(b.subrange(4, 8) =~= be32(m.sequence_id));
    assert(b.subrange(8, 12) =~= be32(m.original_len as u32));
    lemma_read_be32_of(b, 0, m.connection_id);
    lemma_read_be32_of(b, 4, m.sequence_id);
    lemma_read_be32_of(b, 8, m.original_len as u32);
    assert(b.subrange(12, b.len() as int) =~= m.data);
}

/// Encoded chunks that stand at `pos` parse back to the same chunks.
pub proof fn lemma_parse_encoded_chunks(p: Seq<u8>, pos: int, cs: Seq<ChunkView>)
    requires
        0 <= pos,
        pos + encode_chunks(cs).len() <= p.len(),
        p.subrange(pos, pos + encode_chunks(cs).len()) == encode_chunks(cs),
        chunks_wf(cs),
        chunks_encodable(cs),
    ensures
        parse_chunks(p, pos, cs.len()) == Some((cs, pos + encode_chunks(cs).len())),
    decreases cs.len(),
{
    if cs.len() > 0 {
        let c = cs[0];
        assert(chunk_wf(c));
        let e = encode_chunks(cs);
        let rest = cs.drop_first();
        let er = encode_chunks(rest);
        let len = c.data.len() as int;
        assert(e == encode_chunk(c) + er);
        lemma_subrange_within(p, pos, e, 0, 4);
        assert(e.subrange(0, 4) =~= be32(c.offset as u32));
        lemma_read_be32_of(p, pos, c.offset as u32);
        lemma_subrange_within(p, pos, e, 4, 8);
        assert(e.subrange(4, 8) =~= be32(c.length as u32));
        lemma_read_be32_of(p, pos + 4, c.length as u32);
        lemma_subrange_within(p, pos, e, 8, 8 + len);
        assert(e.subrange(8, 8 + len) =~= c.data);
        lemma_subrange_within(p, pos, e, 8 + len, e.len() as int);
        assert(e.subrange(8 + len, e.len() as int) =~= er);
        assert forall|i: int| 0 <= i < rest.len() implies #[trigger] chunk_wf(rest[i]) by {
            assert(rest[i] == cs[i + 1]);
            assert(chunk_wf(cs[i + 1]));
        }
        assert forall|i: int| 0 <= i < rest.len() implies (#[trigger] rest[i]).offset <= u32::MAX
            && rest[i].length <= u32::MAX by {
            assert(rest[i] == cs[i + 1]);
        }
        lemma_parse_encoded_chunks(p, pos + 8 + len, rest);
        let parsed = ChunkView {
            offset: (c.offset as u32) as usize,
            length: (c.length as u32) as usize,
            data: p.subrange(pos + 8, pos + 8 + len),
        };
        assert(parsed == c);
        assert(seq![c] + rest =~= cs);
    }
}

/// Decoding the payload of an incremental message gives the message back, where each
/// chunk's data is as long as its `length` field says.
pub proof fn lemma_incremental_roundtrip(m: IncrementalView)
    requires
        spec_encode_incremental(m) is Some,
        chunks_wf(m.chunks),
    ensures
        spec_decode_incremental(spec_encode_incremental(m)->0) == Some(m),
{
    let b = spec_encode_incremental(m)->0;
    let h = incremental_header(m);
    let ec = encode_chunks(m.chunks);
    assert(b == h + ec);
    assert(b.subrange(0, 4) =~= be32(m.connection_id));
    assert(b.subrange(4, 8) =~= be32(m.sequence_id));
    assert(b.subrange(8, 12) =~= be32(m.base_sequence_id));
    assert(b.subrange(12, 16) =~= be32(m.total_len as u32));
    assert(b.subrange(16, 18) =~= be16(m.chunks.len() as u16));
    lemma_read_be32_of(b, 0, m.connection_id);
    lemma_read_be32_of(b, 4, m.sequence_id);
    lemma_read_be32_of(b, 8, m.base_sequence_id);
    lemma_read_be32_of(b, 12, m.total_len as u32);
    lemma_read_be16_of(b, 16, m.chunks.len() as u16);
    assert(b.subrange(18, 18 + ec.len() as int) =~= ec);
    lemma_parse_encoded_chunks(b, 18, m.chunks);
}

} // verus!
