//! Compression of X11 data: algorithm negotiation, and compressing only where it pays.

use std::io::{Read, Write};

use vstd::prelude::*;

use crate::incremental::{spec_compute_incremental, ConnectionDataCache, MIN_BLOCK_SIZE_FOR_DIFF};
use crate::protocol::frame::FrameView;
use crate::protocol::payload::{CompressedView, X11DataView};
use crate::protocol::{CompressedX11DataMessage, Frame, X11DataMessage};
use crate::types::ConnectionId;

verus! {

/// Data of at most this many bytes is sent as it is; longer data is compressed where
/// that makes it shorter.
pub const COMPRESSION_THRESHOLD: usize = 64;
pub const ZSTD_COMPRESSION_LEVEL: i32 = 3;
pub const ZLIB_COMPRESSION_LEVEL: u32 = 3;

/// A compression algorithm that relay peers may agree on.
#[derive(Debug, Clone, Copy, PartialEq, Eq, Hash, Structural)]
pub enum CompressionAlgo {
    Zstd,
    Lz4,
    Zlib,
}

/// Every algorithm, in order of preference.
pub open spec fn all_algos() -> Seq<CompressionAlgo> {
    seq![CompressionAlgo::Zstd, CompressionAlgo::Lz4, CompressionAlgo::Zlib]
}

pub open spec fn algo_name(a: CompressionAlgo) -> Seq<char> {
    match a {
        CompressionAlgo::Zstd => "zstd"@,
        CompressionAlgo::Lz4 => "lz4"@,
        CompressionAlgo::Zlib => "zlib"@,
    }
}

pub open spec fn option_bytes(o: Option<Vec<u8>>) -> Option<Seq<u8>> {
    match o {
        Some(v) => Some(v@),
        None => None,
    }
}

// ----- what the compression libraries compute -----

/// What `zstd::encode_all` produces from these bytes at this level; `None` for an error.
pub uninterp spec fn zstd_encode_all(data: Seq<u8>, level: i32) -> Option<Seq<u8>>;

/// What `zstd::decode_all` produces from these bytes; `None` for an error.
pub uninterp spec fn zstd_decode_all(data: Seq<u8>) -> Option<Seq<u8>>;

/// What `lz4_flex::compress_prepend_size` produces from these bytes.
pub uninterp spec fn lz4_compress_prepend_size(data: Seq<u8>) -> Seq<u8>;

/// What `lz4_flex::decompress_size_prepended` produces from these bytes; `None` for an error.
pub uninterp spec fn lz4_decompress_size_prepended(data: Seq<u8>) -> Option<Seq<u8>>;

/// What a `flate2` zlib encoder at this level produces from these bytes; `None` for an error.
pub uninterp spec fn zlib_encode(data: Seq<u8>, level: u32) -> Option<Seq<u8>>;

/// What a `flate2` zlib decoder produces from these bytes; `None` for an error.
pub uninterp spec fn zlib_decode(data: Seq<u8>) -> Option<Seq<u8>>;

/// Compresses with `zstd::encode_all`.
///
/// Trusted: the result is the library's output for these bytes and this level.
#[verifier::external_body]
fn zstd_compress(data: &[u8], level: i32) -> (r: Option<Vec<u8>>)
    ensures
        option_bytes(r) == zstd_encode_all(data@, level),
{
    zstd::encode_all(data, level).ok()
}

/// Decompresses with `zstd::decode_all`.
///
/// Trusted: the result is the library's output for these bytes; and zstd being lossless,
/// bytes that `encode_all` produced from some data decode to that data.
#[verifier::external_body]
fn zstd_decompress(compressed: &[u8]) -> (r: Option<Vec<u8>>)
    ensures
        option_bytes(r) == zstd_decode_all(compressed@),
        forall|d: Seq<u8>, level: i32| #[trigger] zstd_encode_all(d, level) == Some(compressed@)
            ==> option_bytes(r) == Some(d),
{
    zstd::decode_all(compressed).ok()
}

/// Compresses with `lz4_flex::compress_prepend_size`.
///
/// Trusted: the result is the library's output for these bytes.
#[verifier::external_body]
fn lz4_compress(data: &[u8]) -> (r: Vec<u8>)
    ensures
        r@ == lz4_compress_prepend_size(data@),
{
    lz4_flex::compress_prepend_size(data)
}

/// Decompresses with `lz4_flex::decompress_size_prepended`.
///
/// Trusted: the result is the library's output for these bytes; and bytes that
/// `compress_prepend_size` produced from data of at most `u32::MAX` bytes (whose length
/// its 32-bit size prefix holds) decompress to that data.
#[verifier::external_body]
fn lz4_decompress(compressed: &[u8]) -> (r: Option<Vec<u8>>)
    ensures
        option_bytes(r) == lz4_decompress_size_prepended(compressed@),
        forall|d: Seq<u8>| d.len() <= u32::MAX && #[trigger] lz4_compress_prepend_size(d) == compressed@
            ==> option_bytes(r) == Some(d),
{
    lz4_flex::decompress_size_prepended(compressed).ok()
}

/// Compresses with a `flate2` zlib encoder: `ZlibEncoder::new`, `write_all`, `finish`.
///
/// Trusted: the result is the library's output for these bytes and this level. Levels run
/// from 0 to 9; the encoder's backend asserts a level of at most 10.
#[verifier::external_body]
fn zlib_compress(data: &[u8], level: u32) -> (r: Option<Vec<u8>>)
    requires
        level <= 9,
    ensures
        option_bytes(r) == zlib_encode(data@, level),
{
    let mut encoder = flate2::write::ZlibEncoder::new(Vec::new(), flate2::Compression::new(level));
    encoder.write_all(data).ok()?;
    encoder.finish().ok()
}

/// Decompresses with a `flate2` zlib decoder: `ZlibDecoder::new`, `read_to_end`.
///
/// Trusted: the result is the library's output for these bytes; and zlib being lossless,
/// bytes that the encoder produced from some data decode to that data.
#[verifier::external_body]
fn zlib_decompress(compressed: &[u8]) -> (r: Option<Vec<u8>>)
    ensures
        option_bytes(r) == zlib_decode(compressed@),
        forall|d: Seq<u8>, level: u32| #[trigger] zlib_encode(d, level) == Some(compressed@)
            ==> option_bytes(r) == Some(d),
{
    let mut decoder = flate2::read::ZlibDecoder::new(compressed);
    let mut output = Vec::new();
    decoder.read_to_end(&mut output).ok()?;
    Some(output)
}

// ----- compressing frames -----

/// What the algorithm's library makes of the data.
pub open spec fn raw_compress(a: CompressionAlgo, data: Seq<u8>) -> Option<Seq<u8>> {
    match a {
        CompressionAlgo::Zstd => zstd_encode_all(data, ZSTD_COMPRESSION_LEVEL),
        CompressionAlgo::Lz4 => Some(lz4_compress_prepend_size(data)),
        CompressionAlgo::Zlib => zlib_encode(data, ZLIB_COMPRESSION_LEVEL),
    }
}

pub open spec fn raw_decompress(a: CompressionAlgo, data: Seq<u8>) -> Option<Seq<u8>> {
    match a {
        CompressionAlgo::Zstd => zstd_decode_all(data),
        CompressionAlgo::Lz4 => lz4_decompress_size_prepended(data),
        CompressionAlgo::Zlib => zlib_decode(data),
    }
}

/// The compressed data, where the data is longer than the threshold and compression
/// succeeds and makes it shorter; `None` otherwise.
pub open spec fn spec_compress(a: CompressionAlgo, data: Seq<u8>) -> Option<Seq<u8>> {
    if data.len() <= COMPRESSION_THRESHOLD {
        None
    } else {
        match raw_compress(a, data) {
            Some(c) => if c.len() >= data.len() { None } else { Some(c) },
            None => None,
        }
    }
}

/// The decompressed data, where decompression succeeds with exactly `original_len` bytes.
pub open spec fn spec_decompress(a: CompressionAlgo, data: Seq<u8>, original_len: int) -> Option<Seq<u8>> {
    match raw_decompress(a, data) {
        Some(d) => if d.len() == original_len { Some(d) } else { None },
        None => None,
    }
}

/// The first algorithm, in order of preference, that both peers offer.
pub open spec fn spec_negotiate(client: Seq<CompressionAlgo>, server: Seq<CompressionAlgo>) -> Option<CompressionAlgo> {
    if client.contains(CompressionAlgo::Zstd) && server.contains(CompressionAlgo::Zstd) {
        Some(CompressionAlgo::Zstd)
    } else if client.contains(CompressionAlgo::Lz4) && server.contains(CompressionAlgo::Lz4) {
        Some(CompressionAlgo::Lz4)
    } else if client.contains(CompressionAlgo::Zlib) && server.contains(CompressionAlgo::Zlib) {
        Some(CompressionAlgo::Zlib)
    } else {
        None
    }
}

/// Compressed bytes, where they are shorter than the `len` bytes they stand for.
pub fn shorter_than(compressed: Vec<u8>, len: usize) -> (r: Option<Vec<u8>>)
    ensures
        compressed@.len() < len ==> (r matches Some(v) && v@ == compressed@),
        compressed@.len() >= len ==> r is None,
{
    if compressed.len() >= len {
        return None;
    }
    Some(compressed)
}

/// Decompressed bytes, where there are as many as were announced.
pub fn of_length(decompressed: Option<Vec<u8>>, original_len: usize) -> (r: Option<Vec<u8>>)
    ensures
        option_bytes(r) == match option_bytes(decompressed) {
            Some(d) => if d.len() == original_len { Some(d) } else { None },
            None => None,
        },
{
    let result = match decompressed {
        Some(v) => v,
        None => return None,
    };
    if result.len() != original_len {
        return None;
    }
    Some(result)
}

fn contains_algo(list: &[CompressionAlgo], a: CompressionAlgo) -> (r: bool)
    ensures
        r == list@.contains(a),
{
    let mut i: usize = 0;
    while i < list.len()
        invariant
            i <= list@.len(),
            forall|j: int| 0 <= j < i ==> list@[j] != a,
        decreases list@.len() - i,
    {
        if list[i] == a {
            assert(list@[i as int] == a);
            return true;
        }
        i = i + 1;
    }
    false
}

impl CompressionAlgo {
    /// Every algorithm, in order of preference.
    pub const ALL: [CompressionAlgo; 3] = [CompressionAlgo::Zstd, CompressionAlgo::Lz4, CompressionAlgo::Zlib];

    /// Every algorithm, in order of preference.
    pub fn all() -> (v: Vec<CompressionAlgo>)
        ensures
            v@ == all_algos(),
    {
        let mut v: Vec<CompressionAlgo> = Vec::new();
        v.push(CompressionAlgo::Zstd);
        v.push(CompressionAlgo::Lz4);
        v.push(CompressionAlgo::Zlib);
        assert(v@ =~= all_algos());
        v
    }

    pub fn as_str(&self) -> (s: &'static str)
        ensures
            s@ == algo_name(*self),
    {
        match self {
            CompressionAlgo::Zstd => "zstd",
            CompressionAlgo::Lz4 => "lz4",
            CompressionAlgo::Zlib => "zlib",
        }
    }

    /// The compressed form of `data`, where it is worth sending instead of `data`.
    pub fn compress(&self, data: &[u8]) -> (r: Option<Vec<u8>>)
        ensures
            option_bytes(r) == spec_compress(*self, data@),
    {
        self.compress_to_bytes(data)
    }

    /// The compressed form of `data`, where it is worth sending instead of `data`.
    pub fn compress_to_bytes(&self, data: &[u8]) -> (r: Option<Vec<u8>>)
        ensures
            option_bytes(r) == spec_compress(*self, data@),
    {
        if data.len() <= COMPRESSION_THRESHOLD {
            return None;
        }
        let compressed = match self {
            CompressionAlgo::Zstd => match zstd_compress(data, ZSTD_COMPRESSION_LEVEL) {
                Some(c) => c,
                None => return None,
            },
            CompressionAlgo::Lz4 => lz4_compress(data),
            CompressionAlgo::Zlib => match zlib_compress(data, ZLIB_COMPRESSION_LEVEL) {
                Some(c) => c,
                None => return None,
            },
        };
        shorter_than(compressed, data.len())
    }

    /// The data that `compressed` decompresses to, where it is `original_len` bytes long.
    /// Whatever `compress` made of some data decompresses, under that data's length, to
    /// that data (for lz4, data whose length its 32-bit size prefix holds).
    pub fn decompress(&self, compressed: &[u8], original_len: usize) -> (r: Option<Vec<u8>>)
        ensures
            option_bytes(r) == spec_decompress(*self, compressed@, original_len as int),
            forall|d: Seq<u8>| #[trigger] spec_compress(*self, d) == Some(compressed@)
                && d.len() == original_len && (*self is Lz4 ==> d.len() <= u32::MAX) ==> option_bytes(r) == Some(d),
    {
        let result = match self {
            CompressionAlgo::Zstd => zstd_decompress(compressed),
            CompressionAlgo::Lz4 => lz4_decompress(compressed),
            CompressionAlgo::Zlib => zlib_decompress(compressed),
        };
        assert forall|d: Seq<u8>| #[trigger] spec_compress(*self, d) == Some(compressed@)
            && (*self is Lz4 ==> d.len() <= u32::MAX) implies option_bytes(result) == Some(d) by {
            match self {
                CompressionAlgo::Zstd => assert(zstd_encode_all(d, ZSTD_COMPRESSION_LEVEL) == Some(compressed@)),
                CompressionAlgo::Lz4 => assert(lz4_compress_prepend_size(d) == compressed@),
                CompressionAlgo::Zlib => assert(zlib_encode(d, ZLIB_COMPRESSION_LEVEL) == Some(compressed@)),
            }
        }
        of_length(result, original_len)
    }

    /// The algorithm to use: the first in order of preference that both peers offer.
    pub fn negotiate(client_algos: &[CompressionAlgo], server_algos: &[CompressionAlgo]) -> (r: Option<CompressionAlgo>)
        ensures
            r == spec_negotiate(client_algos@, server_algos@),
    {
        let all = Self::all();
        let mut i: usize = 0;
        while i < all.len()
            invariant
                all@ == all_algos(),
                i <= 3,
                forall|j: int| 0 <= j < i ==> !(client_algos@.contains(all_algos()[j]) && server_algos@.contains(all_algos()[j])),
            decreases 3 - i,
        {
            let algo = all[i];
            if contains_algo(client_algos, algo) && contains_algo(server_algos, algo) {
                return Some(algo);
            }
            i = i + 1;
        }
        None
    }
}

/// A negotiated algorithm is one that both peers offer, and none is negotiated only when
/// they offer none in common.
pub proof fn lemma_negotiate_common(client: Seq<CompressionAlgo>, server: Seq<CompressionAlgo>)
    ensures
        spec_negotiate(client, server) matches Some(a) ==> client.contains(a) && server.contains(a),
        spec_negotiate(client, server) is None <==> forall|a: CompressionAlgo| !(client.contains(a) && server.contains(a)),
{
    if spec_negotiate(client, server) is None {
        assert forall|a: CompressionAlgo| !(client.contains(a) && server.contains(a)) by {
            match a {
                CompressionAlgo::Zstd => {},
                CompressionAlgo::Lz4 => {},
                CompressionAlgo::Zlib => {},
            }
        }
    }
}

/// Negotiation does not depend on which peer is which.
pub proof fn lemma_negotiate_symmetric(a: Seq<CompressionAlgo>, b: Seq<CompressionAlgo>)
    ensures
        spec_negotiate(a, b) == spec_negotiate(b, a),
{
}

/// Compression pays: what `compress` returns is shorter than the data.
pub proof fn lemma_compress_shrinks(a: CompressionAlgo, data: Seq<u8>)
    ensures
        spec_compress(a, data) matches Some(c) ==> c.len() < data.len() && data.len() > COMPRESSION_THRESHOLD,
{
}

/// The frame that carries X11 data: compressed where an algorithm is agreed and
/// compression pays, plain otherwise.
pub open spec fn spec_maybe_compress_frame(cid: u32, seq: u32, data: Seq<u8>, algo: Option<CompressionAlgo>) -> FrameView {
    match algo {
        Some(a) => match spec_compress(a, data) {
            Some(c) => FrameView::CompressedDataX11(CompressedView {
                connection_id: cid,
                sequence_id: seq,
                original_len: data.len() as usize,
                data: c,
            }),
            None => FrameView::DataX11(X11DataView { connection_id: cid, sequence_id: seq, data }),
        },
        None => FrameView::DataX11(X11DataView { connection_id: cid, sequence_id: seq, data }),
    }
}

pub fn maybe_compress_frame(
    connection_id: ConnectionId,
    sequence_id: u32,
    data: Vec<u8>,
    compression_algo: Option<CompressionAlgo>,
) -> (f: Frame)
    ensures
        f@ == spec_maybe_compress_frame(connection_id.0, sequence_id, data@, compression_algo),
{
    if let Some(algo) = compression_algo {
        if data.len() > COMPRESSION_THRESHOLD {
            if let Some(compressed) = algo.compress_to_bytes(data.as_slice()) {
                return Frame::CompressedDataX11(CompressedX11DataMessage {
                    connection_id,
                    sequence_id,
                    original_len: data.len(),
                    data: compressed,
                });
            }
        }
    }
    Frame::DataX11(X11DataMessage { connection_id, sequence_id, data })
}

/// The data a compressed frame carries, decompressed with the negotiated algorithm.
pub fn decompress_frame_data(msg: &CompressedX11DataMessage, algo: CompressionAlgo) -> (r: Option<Vec<u8>>)
    ensures
        option_bytes(r) == spec_decompress(algo, msg.data@, msg.original_len as int),
        forall|d: Seq<u8>| #[trigger] spec_compress(algo, d) == Some(msg.data@) && d.len() == msg.original_len
            && (algo is Lz4 ==> d.len() <= u32::MAX) ==> option_bytes(r) == Some(d),
{
    algo.decompress(msg.data.as_slice(), msg.original_len)
}

/// The frame that carries X11 data, with the per-connection cache of earlier data where
/// there is one: an incremental update where one is worth it, else as
/// `maybe_compress_frame` decides. The cache then holds `data` for the connection.
pub fn maybe_incremental_or_compress_frame(
    connection_id: ConnectionId,
    sequence_id: u32,
    data: Vec<u8>,
    compression_algo: Option<CompressionAlgo>,
    incremental_cache: Option<&mut ConnectionDataCache>,
) -> (f: Frame)
    requires
        incremental_cache matches Some(c) ==> c@.chunk_size > 0,
    ensures
        match incremental_cache {
            Some(c) => {
                &&& final(c)@.entries == c@.entries.insert(connection_id.0, (sequence_id, data@))
                &&& final(c)@.chunk_size == c@.chunk_size
                &&& f@ == match spec_compute_incremental(c@, connection_id.0, sequence_id, data@) {
                    Some(m) => FrameView::IncrementalDataX11(m),
                    None => spec_maybe_compress_frame(connection_id.0, sequence_id, data@, compression_algo),
                }
            },
            None => f@ == spec_maybe_compress_frame(connection_id.0, sequence_id, data@, compression_algo),
        },
{
    if let Some(cache) = incremental_cache {
        if let Some(incremental_msg) = cache.compute_incremental(connection_id, sequence_id, data.as_slice()) {
            cache.update_cache(connection_id, sequence_id, data.as_slice());
            return Frame::IncrementalDataX11(incremental_msg);
        }
        cache.update_cache(connection_id, sequence_id, data.as_slice());
    }
    maybe_compress_frame(connection_id, sequence_id, data, compression_algo)
}

} // verus!
