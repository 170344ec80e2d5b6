//! Reading frames from a byte stream: the bytes read so far are buffered until they hold
//! a whole frame; after invalid bytes the reader resynchronises on the next magic
//! bytes; a buffer that grows past its limit is an error.

use vstd::prelude::*;

use crate::codec::copy_range;
use crate::error::Rx11Error;
use crate::protocol::frame::{
    decode_frame, frame_chunks_wf, frame_wf, lemma_encoded_type_byte, lemma_frame_roundtrip, magic,
    spec_decode_frame, spec_encode_frame, DecodeOutcome, Frame, FrameView,
};
use crate::protocol::{FRAME_HEADER_SIZE, MAX_FRAME_SIZE};
use crate::types::protocol_error;

verus! {

/// The most bytes the reader holds while it waits for the rest of a frame.
pub const MAX_READ_BUF: usize = MAX_FRAME_SIZE + 256;

/// Whether the magic bytes start at offset `i` of `s`.
pub open spec fn magic_at(s: Seq<u8>, i: int) -> bool {
    0 <= i && i + 4 <= s.len() && s.subrange(i, i + 4) == magic()
}

/// The offset of the first magic bytes after the start of `s`, or 0 if there are none.
pub open spec fn spec_scan_for_magic(s: Seq<u8>) -> nat {
    if exists|i: int| 1 <= i && #[trigger] magic_at(s, i) {
        let i = choose|i: int| 1 <= i && #[trigger] magic_at(s, i) && forall|j: int|
            1 <= j < i ==> !#[trigger] magic_at(s, j);
        i as nat
    } else {
        0
    }
}

proof fn lemma_least_magic(s: Seq<u8>, k: int)
    requires
        1 <= k,
        magic_at(s, k),
        forall|j: int| 1 <= j < k ==> !#[trigger] magic_at(s, j),
    ensures
        spec_scan_for_magic(s) == k,
{
    assert(exists|i: int| 1 <= i && #[trigger] magic_at(s, i));
    assert(exists|i: int| 1 <= i && #[trigger] magic_at(s, i) && forall|j: int|
        1 <= j < i ==> !#[trigger] magic_at(s, j));
    let i = choose|i: int| 1 <= i && #[trigger] magic_at(s, i) && forall|j: int|
        1 <= j < i ==> !#[trigger] magic_at(s, j);
    if i < k {
        assert(!magic_at(s, i));
    } else if i > k {
        assert(!magic_at(s, k));
    }
}

/// The offset of the first magic bytes after the start of `data`, or 0 if there are none:
/// how many bytes to skip to resynchronise after an invalid frame.
pub fn scan_for_magic(data: &[u8]) -> (r: usize)
    ensures
        r == spec_scan_for_magic(data@),
        r == 0 ==> forall|i: int| 1 <= i ==> !#[trigger] magic_at(data@, i),
        r > 0 ==> magic_at(data@, r as int) && forall|j: int| 1 <= j < r ==> !#[trigger] magic_at(data@, j),
{
    if data.len() <= 4 {
        return 0;
    }
    let n = data.len() - 3;
    let mut i: usize = 1;
    while i < n
        invariant
            1 <= i <= n,
            n == data@.len() - 3,
            forall|j: int| 1 <= j < i ==> !#[trigger] magic_at(data@, j),
        decreases n - i,
    {
        if data[i] == 0x52u8 && data[i + 1] == 0x58u8 && data[i + 2] == 0x31u8 && data[i + 3] == 0x31u8 {
            proof {
                assert(data@.subrange(i as int, i + 4) =~= magic());
                lemma_least_magic(data@, i as int);
            }
            return i;
        }
        proof {
            if magic_at(data@, i as int) {
                let m = data@.subrange(i as int, i + 4);
                assert(m[0] == data@[i as int]);
                assert(m[1] == data@[i + 1]);
                assert(m[2] == data@[i + 2]);
                assert(m[3] == data@[i + 3]);
            }
        }
        i = i + 1;
    }
    proof {
        assert forall|j: int| 1 <= j implies !#[trigger] magic_at(data@, j) by {
            if j >= n {
                assert(!(j + 4 <= data@.len()));
            }
        }
        assert(!exists|j: int| 1 <= j && #[trigger] magic_at(data@, j));
    }
    0
}

/// What polling the reader found.
pub enum PollView {
    /// A whole frame at the start of the buffer, and the number of bytes it takes.
    Frame(FrameView, nat),
    /// Not yet a whole frame.
    NeedMore,
    /// Invalid bytes with no magic bytes after them to resynchronise on.
    Corrupt,
    /// More bytes buffered than a frame can take, and still no whole frame.
    Overflow,
}

/// What polling a reader that buffers `s` finds, and what it buffers then: invalid bytes
/// are skipped up to the next magic bytes until a frame, the need for more bytes or a
/// failure shows.
pub open spec fn spec_poll(s: Seq<u8>) -> (PollView, Seq<u8>)
    decreases s.len(),
{
    if s.len() >= FRAME_HEADER_SIZE && spec_decode_frame(s) is Complete {
        (PollView::Frame(spec_decode_frame(s)->0, spec_decode_frame(s)->1), s)
    } else if s.len() >= FRAME_HEADER_SIZE && spec_decode_frame(s) is Invalid {
        let k = spec_scan_for_magic(s);
        if k == 0 || k > s.len() {
            (PollView::Corrupt, s)
        } else {
            spec_poll(s.subrange(k as int, s.len() as int))
        }
    } else if s.len() > MAX_READ_BUF {
        (PollView::Overflow, s)
    } else {
        (PollView::NeedMore, s)
    }
}

/// What one poll of the reader gives.
pub enum ReadStep {
    /// A frame at the start of the buffer and its length in bytes; it stays buffered
    /// until it is accepted or rejected.
    Frame(Frame, usize),
    /// More bytes are needed.
    NeedMore,
    /// The stream cannot be read on.
    Failed(Rx11Error),
}

/// Buffers the bytes read from a stream and cuts them into frames.
pub struct FrameReader {
    buf: Vec<u8>,
}

impl View for FrameReader {
    type V = Seq<u8>;

    closed spec fn view(&self) -> Seq<u8> {
        self.buf@
    }
}

impl FrameReader {
    pub fn new() -> (r: FrameReader)
        ensures
            r@ == Seq::<u8>::empty(),
    {
        FrameReader { buf: Vec::new() }
    }

    /// The number of bytes buffered.
    pub fn len(&self) -> (n: usize)
        ensures
            n == self@.len(),
    {
        self.buf.len()
    }

    /// Buffers bytes read from the stream.
    pub fn push(&mut self, data: &[u8])
        requires
            old(self)@.len() + data@.len() <= usize::MAX,
        ensures
            final(self)@ == old(self)@ + data@,
    {
        crate::codec::push_bytes(&mut self.buf, data);
    }

    /// Drops the first `k` bytes.
    fn drop_front(&mut self, k: usize)
        requires
            k <= old(self)@.len(),
        ensures
            final(self)@ == old(self)@.subrange(k as int, old(self)@.len() as int),
    {
        let rest = copy_range(self.buf.as_slice(), k, self.buf.len());
        self.buf = rest;
    }

    /// Looks for the next frame: skips invalid bytes up to the next magic bytes, and
    /// fails where there are none, or where more bytes are buffered than a frame can take.
    pub fn poll(&mut self) -> (r: ReadStep)
        ensures
            final(self)@ == spec_poll(old(self)@).1,
            match spec_poll(old(self)@).0 {
                PollView::Frame(f, n) => r matches ReadStep::Frame(g, m) && g@ == f && m == n
                    && n <= final(self)@.len(),
                PollView::NeedMore => r is NeedMore,
                PollView::Corrupt => r matches ReadStep::Failed(e) && e matches Rx11Error::Protocol(m)
                    && m@ == "Invalid frame and no recovery possible"@,
                PollView::Overflow => r matches ReadStep::Failed(e) && e matches Rx11Error::Protocol(m)
                    && m@ == "read buffer exceeded maximum size"@,
            },
    {
        loop
            invariant
                spec_poll(self@) == spec_poll(old(self)@),
            decreases self@.len(),
        {
            if self.buf.len() >= FRAME_HEADER_SIZE {
                match decode_frame(self.buf.as_slice()) {
                    Ok(Some((f, n))) => {
                        proof {
                            let s = self@;
                            assert(spec_decode_frame(s) is Complete);
                            assert(n <= s.len()) by {
                                reveal_with_fuel(spec_poll, 1);
                                lemma_complete_fits(s);
                            }
                        }
                        return ReadStep::Frame(f, n);
                    },
                    Ok(None) => {},
                    Err(_) => {
                        let k = scan_for_magic(self.buf.as_slice());
                        if k == 0 {
                            return ReadStep::Failed(
                                protocol_error("Invalid frame and no recovery possible"),
                            );
                        }
                        proof {
                            assert(k as int + 4 <= self@.len());
                        }
                        self.drop_front(k);
                        continue;
                    },
                }
            }
            if self.buf.len() > MAX_READ_BUF {
                return ReadStep::Failed(protocol_error("read buffer exceeded maximum size"));
            }
            return ReadStep::NeedMore;
        }
    }

    /// Takes the frame that the last poll found, `n` bytes long, out of the buffer.
    pub fn accept(&mut self, n: usize)
        requires
            n <= old(self)@.len(),
        ensures
            final(self)@ == old(self)@.subrange(n as int, old(self)@.len() as int),
    {
        self.drop_front(n);
    }

    /// Rejects the frame at the start of the buffer, as invalid frames are: skips to the
    /// next magic bytes after its start, or fails where there are none.
    pub fn reject(&mut self) -> (r: Result<(), Rx11Error>)
        ensures
            spec_scan_for_magic(old(self)@) == 0 ==> {
                &&& r matches Err(e) && e matches Rx11Error::Protocol(m)
                    && m@ == "Invalid frame and no recovery possible"@
                &&& final(self)@ == old(self)@
            },
            spec_scan_for_magic(old(self)@) > 0 ==> {
                &&& r is Ok
                &&& final(self)@ == old(self)@.subrange(
                    spec_scan_for_magic(old(self)@) as int,
                    old(self)@.len() as int,
                )
            },
    {
        let k = scan_for_magic(self.buf.as_slice());
        if k == 0 {
            return Err(protocol_error("Invalid frame and no recovery possible"));
        }
        self.drop_front(k);
        Ok(())
    }
}

/// A whole frame lies within the bytes it was decoded from.
proof fn lemma_complete_fits(s: Seq<u8>)
    requires
        spec_decode_frame(s) is Complete,
    ensures
        spec_decode_frame(s)->1 <= s.len(),
{
}

} // verus!

verus! {

/// A frame written to the stream is read back: whatever follows it, polling a reader
/// that buffers its encoding finds that very frame, taking exactly its bytes.
pub proof fn lemma_poll_reads_written_frame(f: FrameView, tail: Seq<u8>)
    requires
        frame_wf(f),
        frame_chunks_wf(f),
        spec_encode_frame(f) is Some,
        spec_encode_frame(f)->0.len() <= FRAME_HEADER_SIZE + MAX_FRAME_SIZE,
    ensures
        spec_poll(spec_encode_frame(f)->0 + tail) == (
            PollView::Frame(f, spec_encode_frame(f)->0.len()),
            spec_encode_frame(f)->0 + tail,
        ),
{
    lemma_frame_roundtrip(f, tail);
    let b = spec_encode_frame(f)->0;
    assert(b.len() >= FRAME_HEADER_SIZE) by {
        assert(b == crate::protocol::frame::spec_encode_raw(
            crate::protocol::message_type_code(crate::protocol::frame::frame_msg_type(f)),
            crate::protocol::frame::spec_frame_payload(f)->0,
        ));
    }
}

proof fn lemma_poll_skip(s: Seq<u8>, k: nat)
    requires
        s.len() >= FRAME_HEADER_SIZE,
        spec_decode_frame(s) is Invalid,
        spec_scan_for_magic(s) == k,
        1 <= k <= s.len(),
    ensures
        spec_poll(s) == spec_poll(s.subrange(k as int, s.len() as int)),
{
}

proof fn lemma_magic_after_garbage(garbage: Seq<u8>, b: Seq<u8>, tail: Seq<u8>)
    requires
        garbage.len() > 0,
        b.len() >= 4,
        b.subrange(0, 4) == magic(),
        forall|j: int| 1 <= j < garbage.len() ==> !#[trigger] magic_at(garbage + b + tail, j),
    ensures
        spec_scan_for_magic(garbage + b + tail) == garbage.len(),
        (garbage + b + tail).subrange(garbage.len() as int, (garbage + b + tail).len() as int) == b + tail,
{
    let s = garbage + b + tail;
    let g = garbage.len() as int;
    assert(s.subrange(g, g + 4) =~= b.subrange(0, 4));
    lemma_least_magic(s, g);
    assert(s.subrange(g, s.len() as int) =~= b + tail);
}

/// Invalid bytes do not break the stream: after garbage that does not start a frame and
/// holds no magic bytes, the reader resynchronises on the frame that follows and reads it.
pub proof fn lemma_poll_resyncs_after_garbage(garbage: Seq<u8>, f: FrameView, tail: Seq<u8>)
    requires
        garbage.len() > 0,
        frame_wf(f),
        frame_chunks_wf(f),
        spec_encode_frame(f) is Some,
        spec_encode_frame(f)->0.len() <= FRAME_HEADER_SIZE + MAX_FRAME_SIZE,
        spec_decode_frame(garbage + spec_encode_frame(f)->0 + tail) is Invalid,
        forall|j: int|
            1 <= j < garbage.len() ==> !#[trigger] magic_at(
                garbage + spec_encode_frame(f)->0 + tail,
                j,
            ),
    ensures
        spec_poll(garbage + spec_encode_frame(f)->0 + tail).0 == PollView::Frame(
            f,
            spec_encode_frame(f)->0.len(),
        ),
{
    let b = spec_encode_frame(f)->0;
    lemma_encoded_type_byte(f);
    lemma_poll_reads_written_frame(f, tail);
    lemma_magic_after_garbage(garbage, b, tail);
    let s = garbage + b + tail;
    lemma_poll_skip(s, garbage.len());
}

/// The buffer's limit is never reached by a stream of frames: while a frame is still
/// incomplete the buffer holds less than a whole frame of the largest size, which is
/// under the limit.
pub proof fn lemma_poll_never_overflows(s: Seq<u8>)
    ensures
        !(spec_poll(s).0 is Overflow),
    decreases s.len(),
{
    if s.len() >= FRAME_HEADER_SIZE && spec_decode_frame(s) is Invalid {
        let k = spec_scan_for_magic(s);
        if k != 0 && k <= s.len() {
            lemma_poll_never_overflows(s.subrange(k as int, s.len() as int));
        }
    }
}

/// The buffer stays bounded: whenever a poll asks for more bytes, it holds at most
/// `MAX_READ_BUF` of them.
pub proof fn lemma_poll_bounds_buffer(s: Seq<u8>)
    ensures
        spec_poll(s).0 is NeedMore ==> spec_poll(s).1.len() <= MAX_READ_BUF,
    decreases s.len(),
{
    if s.len() >= FRAME_HEADER_SIZE && spec_decode_frame(s) is Invalid {
        let k = spec_scan_for_magic(s);
        if k != 0 && k <= s.len() {
            lemma_poll_bounds_buffer(s.subrange(k as int, s.len() as int));
        }
    }
}

} // verus!
