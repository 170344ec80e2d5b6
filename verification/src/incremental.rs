//! Incremental updates: new data for a connection sent as the chunks in which it differs
//! from the data sent before.

use std::collections::HashMap;

use vstd::prelude::*;

use crate::protocol::payload::{chunk_wf, chunks_wf, ChunkView, IncrementalView};
use crate::protocol::{IncrementalChunk, IncrementalX11DataMessage};
use crate::types::ConnectionId;

verus! {

broadcast use vstd::std_specs::hash::group_hash_axioms;

pub const DEFAULT_CHUNK_SIZE: usize = 4096;
pub const MIN_BLOCK_SIZE_FOR_DIFF: usize = 1024;

/// The last data sent or received on each connection, with its sequence number.
pub struct ConnectionDataCache {
    last_data: HashMap<u32, CachedData>,
    chunk_size: usize,
}

struct CachedData {
    sequence_id: u32,
    data: Vec<u8>,
}

pub struct CacheView {
    /// For each connection, the sequence number and the bytes last cached.
    pub entries: Map<u32, (u32, Seq<u8>)>,
    pub chunk_size: usize,
}

impl View for ConnectionDataCache {
    type V = CacheView;

    closed spec fn view(&self) -> CacheView {
        CacheView {
            entries: self.last_data@.map_values(|c: CachedData| (c.sequence_id, c.data@)),
            chunk_size: self.chunk_size,
        }
    }
}

impl Default for ConnectionDataCache {
    fn default() -> (c: ConnectionDataCache)
        ensures
            c@.entries == Map::<u32, (u32, Seq<u8>)>::empty(),
            c@.chunk_size == DEFAULT_CHUNK_SIZE,
    {
        ConnectionDataCache::new()
    }
}

// ----- the diff -----

pub open spec fn min(a: int, b: int) -> int {
    if a < b { a } else { b }
}

/// The bytes of `s` in the chunk of `cs` bytes that starts at `offset`, cut at its end.
pub open spec fn chunk_at(s: Seq<u8>, offset: int, cs: int) -> Seq<u8> {
    if offset < s.len() {
        s.subrange(offset, min(offset + cs, s.len() as int))
    } else {
        Seq::empty()
    }
}

/// The chunks, from `offset` on, in which `new` differs from `old`: `new` is cut into
/// chunks of `cs` bytes, and each one that is not the same as the bytes of `old` at the
/// same place is kept.
pub open spec fn diff_from(old: Seq<u8>, new: Seq<u8>, cs: int, offset: int) -> Seq<ChunkView>
    decreases new.len() - offset,
{
    if cs <= 0 || offset < 0 || offset >= new.len() {
        Seq::empty()
    } else {
        let end = min(offset + cs, new.len() as int);
        let nc = new.subrange(offset, end);
        let rest = diff_from(old, new, cs, end);
        if nc != chunk_at(old, offset, cs) {
            seq![ChunkView { offset: offset as usize, length: (end - offset) as usize, data: nc }] + rest
        } else {
            rest
        }
    }
}

pub open spec fn spec_diff_chunks(old: Seq<u8>, new: Seq<u8>, cs: int) -> Seq<ChunkView> {
    diff_from(old, new, cs, 0)
}

/// The total number of data bytes in a run of chunks.
pub open spec fn chunks_data_len(cs: Seq<ChunkView>) -> nat
    decreases cs.len(),
{
    if cs.len() == 0 {
        0
    } else {
        cs[0].data.len() + chunks_data_len(cs.drop_first())
    }
}

/// Every chunk lies within `[0, total)` and is well formed.
pub open spec fn chunks_within(cs: Seq<ChunkView>, total: int) -> bool {
    forall|i: int| 0 <= i < cs.len() ==> #[trigger] chunk_wf(cs[i]) && cs[i].offset + cs[i].length <= total
}

/// The diff's chunks lie within the new data, their data totals at most its length, and
/// they start no earlier than `offset`.
pub proof fn lemma_diff_from_bounds(old: Seq<u8>, new: Seq<u8>, cs: int, offset: int)
    requires
        0 <= offset,
        new.len() <= usize::MAX,
    ensures
        chunks_within(diff_from(old, new, cs, offset), new.len() as int),
        chunks_data_len(diff_from(old, new, cs, offset)) <= if offset < new.len() { new.len() - offset } else { 0 },
        forall|i: int| 0 <= i < diff_from(old, new, cs, offset).len() ==> (#[trigger] diff_from(old, new, cs, offset)[i]).offset >= offset,
    decreases new.len() - offset,
{
    if cs <= 0 || offset >= new.len() {
    } else {
        let end = min(offset + cs, new.len() as int);
        lemma_diff_from_bounds(old, new, cs, end);
        let rest = diff_from(old, new, cs, end);
        let d = diff_from(old, new, cs, offset);
        let nc = new.subrange(offset, end);
        if nc != chunk_at(old, offset, cs) {
            let c = ChunkView { offset: offset as usize, length: (end - offset) as usize, data: nc };
            assert(d == seq![c] + rest);
            assert(chunk_wf(c));
            assert(d.drop_first() =~= rest);
            assert forall|i: int| 0 <= i < d.len() implies #[trigger] chunk_wf(d[i]) && d[i].offset + d[i].length <= new.len() by {
                if i > 0 {
                    assert(d[i] == rest[i - 1]);
                }
            }
            assert forall|i: int| 0 <= i < d.len() implies (#[trigger] d[i]).offset >= offset by {
                if i > 0 {
                    assert(d[i] == rest[i - 1]);
                }
            }
        } else {
            assert(d == rest);
        }
    }
}

fn slices_equal(a: &[u8], b: &[u8]) -> (r: bool)
    ensures
        r == (a@ == b@),
{
    if a.len() != b.len() {
        return false;
    }
    let mut i: usize = 0;
    while i < a.len()
        invariant
            a@.len() == b@.len(),
            i <= a@.len(),
            forall|j: int| 0 <= j < i ==> a@[j] == b@[j],
        decreases a@.len() - i,
    {
        if a[i] != b[i] {
            return false;
        }
        i = i + 1;
    }
    assert(a@ =~= b@);
    true
}

impl ConnectionDataCache {
    pub fn new() -> (c: ConnectionDataCache)
        ensures
            c@.entries == Map::<u32, (u32, Seq<u8>)>::empty(),
            c@.chunk_size == DEFAULT_CHUNK_SIZE,
    {
        Self::with_chunk_size(DEFAULT_CHUNK_SIZE)
    }

    pub fn with_chunk_size(chunk_size: usize) -> (c: ConnectionDataCache)
        ensures
            c@.entries == Map::<u32, (u32, Seq<u8>)>::empty(),
            c@.chunk_size == chunk_size,
    {
        let c = ConnectionDataCache { last_data: HashMap::new(), chunk_size };
        assert(c@.entries =~= Map::<u32, (u32, Seq<u8>)>::empty());
        c
    }

    /// Remembers `data` as the last data of the connection, under `sequence_id`.
    pub fn update_cache(&mut self, connection_id: ConnectionId, sequence_id: u32, data: &[u8])
        ensures
            final(self)@.entries == old(self)@.entries.insert(connection_id.0, (sequence_id, data@)),
            final(self)@.chunk_size == old(self)@.chunk_size,
    {
        let copy = crate::codec::copy_range(data, 0, data.len());
        assert(copy@ =~= data@);
        let ghost before = self.last_data@;
        self.last_data.insert(connection_id.get(), CachedData { sequence_id, data: copy });
        assert(self@.entries =~= old(self)@.entries.insert(connection_id.0, (sequence_id, data@)));
    }

    /// The sequence number and data last cached for the connection.
    pub fn get_cached(&self, connection_id: ConnectionId) -> (r: Option<(u32, &[u8])>)
        ensures
            match r {
                Some((seq, data)) => self@.entries.contains_key(connection_id.0)
                    && self@.entries[connection_id.0] == (seq, data@),
                None => !self@.entries.contains_key(connection_id.0),
            },
    {
        match self.last_data.get(&connection_id.get()) {
            Some(cached) => Some((cached.sequence_id, cached.data.as_slice())),
            None => None,
        }
    }

    fn compute_diff_chunks(&self, old_data: &[u8], new_data: &[u8]) -> (r: Vec<IncrementalChunk>)
        requires
            self.chunk_size > 0,
        ensures
            crate::protocol::payload::chunk_views(r@) == spec_diff_chunks(old_data@, new_data@, self.chunk_size as int),
    {
        let cs = self.chunk_size;
        let ghost old = old_data@;
        let ghost new = new_data@;
        let mut chunks: Vec<IncrementalChunk> = Vec::new();
        let mut offset: usize = 0;
        while offset < new_data.len()
            invariant
                cs == self.chunk_size,
                cs > 0,
                old == old_data@,
                new == new_data@,
                offset <= new.len(),
                spec_diff_chunks(old, new, cs as int) == crate::protocol::payload::chunk_views(chunks@) + diff_from(old, new, cs as int, offset as int),
            decreases new.len() - offset,
        {
            let chunk_end = if new_data.len() - offset < cs { new_data.len() } else { offset + cs };
            let new_chunk = &new_data[offset..chunk_end];
            let empty: &[u8] = &[];
            let old_chunk: &[u8] = if offset < old_data.len() {
                let old_end = if old_data.len() - offset < cs { old_data.len() } else { offset + cs };
                &old_data[offset..old_end]
            } else {
                empty
            };
            assert(old_chunk@ =~= chunk_at(old, offset as int, cs as int));
            let ghost views_before = crate::protocol::payload::chunk_views(chunks@);
            if !slices_equal(new_chunk, old_chunk) {
                let data = crate::codec::copy_range(new_data, offset, chunk_end);
                let chunk = IncrementalChunk { offset, length: chunk_end - offset, data };
                chunks.push(chunk);
                proof {
                    assert(crate::protocol::payload::chunk_views(chunks@) =~= views_before.push(chunk@));
                    let rest = diff_from(old, new, cs as int, chunk_end as int);
                    assert(views_before + (seq![chunk@] + rest) =~= views_before.push(chunk@) + rest);
                }
            }
            offset = chunk_end;
        }
        assert(crate::protocol::payload::chunk_views(chunks@) + Seq::<ChunkView>::empty() =~= crate::protocol::payload::chunk_views(chunks@));
        chunks
    }
}

// ----- computing and applying updates -----

/// The saving of a diff: how many fewer bytes its chunks carry than the old data,
/// and zero where they carry more.
pub open spec fn diff_saving(old: Seq<u8>, chunks: Seq<ChunkView>) -> nat {
    if old.len() >= chunks_data_len(chunks) {
        (old.len() - chunks_data_len(chunks)) as nat
    } else {
        0
    }
}

/// The incremental update for `new`, if the cache holds earlier data for the connection,
/// `new` is long enough to be worth a diff, some chunk differs, and the diff saves at
/// least a tenth of the earlier data's length.
pub open spec fn spec_compute_incremental(c: CacheView, cid: u32, seq: u32, new: Seq<u8>) -> Option<IncrementalView> {
    if !c.entries.contains_key(cid) || new.len() < MIN_BLOCK_SIZE_FOR_DIFF {
        None
    } else {
        let base = c.entries[cid].0;
        let old = c.entries[cid].1;
        let chunks = spec_diff_chunks(old, new, c.chunk_size as int);
        if chunks.len() == 0 || diff_saving(old, chunks) < old.len() / 10 {
            None
        } else {
            Some(IncrementalView {
                connection_id: cid,
                sequence_id: seq,
                base_sequence_id: base,
                total_len: new.len() as usize,
                chunks,
            })
        }
    }
}

/// `old` cut or padded with zeros to `total` bytes.
pub open spec fn initial_buffer(old: Seq<u8>, total: int) -> Seq<u8> {
    if old.len() <= total {
        old + Seq::new((total - old.len()) as nat, |i: int| 0u8)
    } else {
        old.subrange(0, total)
    }
}

/// `buf` with the chunk's data written at its offset, where the chunk fits.
pub open spec fn apply_chunk(buf: Seq<u8>, c: ChunkView) -> Seq<u8> {
    if c.offset + c.length <= buf.len() {
        buf.subrange(0, c.offset as int) + c.data + buf.subrange(c.offset + c.length, buf.len() as int)
    } else {
        buf
    }
}

/// `buf` with the chunks written in order.
pub open spec fn apply_chunks(buf: Seq<u8>, cs: Seq<ChunkView>) -> Seq<u8>
    decreases cs.len(),
{
    if cs.len() == 0 {
        buf
    } else {
        apply_chunks(apply_chunk(buf, cs[0]), cs.drop_first())
    }
}

/// The data an incremental update stands for, given the cache it is applied to: `None`
/// unless the cache holds the connection's data under the update's base sequence number.
pub open spec fn spec_apply_incremental(c: CacheView, m: IncrementalView) -> Option<Seq<u8>> {
    if !c.entries.contains_key(m.connection_id) || c.entries[m.connection_id].0 != m.base_sequence_id {
        None
    } else {
        Some(apply_chunks(initial_buffer(c.entries[m.connection_id].1, m.total_len as int), m.chunks))
    }
}

/// The chunks can be written without overflow, and each chunk that fits carries as many
/// bytes as its `length` says.
pub open spec fn apply_safe(m: IncrementalView) -> bool {
    forall|i: int| 0 <= i < m.chunks.len() ==> (#[trigger] m.chunks[i]).offset + m.chunks[i].length <= usize::MAX
        && (m.chunks[i].offset + m.chunks[i].length <= m.total_len ==> chunk_wf(m.chunks[i]))
}

/// Whether an update received from a peer can be applied safely: its chunks' ends fit in
/// a `usize`, and each chunk that lies within the data carries as many bytes as it says.
pub fn is_apply_safe(msg: &IncrementalX11DataMessage) -> (r: bool)
    ensures
        r == apply_safe(msg@),
{
    let ghost m = msg@;
    let mut i: usize = 0;
    while i < msg.chunks.len()
        invariant
            i <= msg.chunks@.len(),
            m == msg@,
            m.chunks.len() == msg.chunks@.len(),
            forall|j: int| 0 <= j < i ==> (#[trigger] m.chunks[j]).offset + m.chunks[j].length <= usize::MAX
                && (m.chunks[j].offset + m.chunks[j].length <= m.total_len ==> chunk_wf(m.chunks[j])),
        decreases msg.chunks@.len() - i,
    {
        let c = &msg.chunks[i];
        assert(m.chunks[i as int] == c@);
        if c.offset > usize::MAX - c.length {
            return false;
        }
        if c.offset + c.length <= msg.total_len && c.data.len() != c.length {
            return false;
        }
        i = i + 1;
    }
    true
}

pub proof fn lemma_chunks_data_len_snoc(a: Seq<ChunkView>, c: ChunkView)
    ensures
        chunks_data_len(a.push(c)) == chunks_data_len(a) + c.data.len(),
    decreases a.len(),
{
    if a.len() == 0 {
        assert(a.push(c).drop_first() =~= a);
    } else {
        assert(a.push(c).drop_first() =~= a.drop_first().push(c));
        lemma_chunks_data_len_snoc(a.drop_first(), c);
    }
}

pub proof fn lemma_apply_chunks_snoc(b: Seq<u8>, a: Seq<ChunkView>, c: ChunkView)
    ensures
        apply_chunks(b, a.push(c)) == apply_chunk(apply_chunks(b, a), c),
    decreases a.len(),
{
    if a.len() == 0 {
        assert(a.push(c)[0] == c);
        assert(a.push(c).drop_first() =~= a);
        assert(apply_chunks(apply_chunk(b, c), a) == apply_chunk(b, c));
        assert(apply_chunks(b, a) == b);
    } else {
        assert(a.push(c)[0] == a[0]);
        assert(a.push(c).drop_first() =~= a.drop_first().push(c));
        lemma_apply_chunks_snoc(apply_chunk(b, a[0]), a.drop_first(), c);
    }
}

/// Writing the diff's chunks from `offset` on, over a buffer that already agrees with
/// `new` before `offset` and with the initial buffer from there, gives `new`.
proof fn lemma_apply_diff_from(old: Seq<u8>, new: Seq<u8>, cs: int, offset: int, b: Seq<u8>)
    requires
        cs > 0,
        0 <= offset <= new.len(),
        new.len() <= usize::MAX,
        b.len() == new.len(),
        forall|i: int| 0 <= i < offset ==> b[i] == new[i],
        forall|i: int| offset <= i < new.len() ==> b[i] == initial_buffer(old, new.len() as int)[i],
    ensures
        apply_chunks(b, diff_from(old, new, cs, offset)) == new,
    decreases new.len() - offset,
{
    let n = new.len() as int;
    let init = initial_buffer(old, n);
    if offset >= n {
        assert(b =~= new);
    } else {
        let end = min(offset + cs, n);
        let nc = new.subrange(offset, end);
        let oc = chunk_at(old, offset, cs);
        let rest = diff_from(old, new, cs, end);
        if nc != oc {
            let c = ChunkView { offset: offset as usize, length: (end - offset) as usize, data: nc };
            let d = diff_from(old, new, cs, offset);
            assert(d == seq![c] + rest);
            assert(d[0] == c);
            assert(d.drop_first() =~= rest);
            let b2 = apply_chunk(b, c);
            assert(b2 == b.subrange(0, offset) + nc + b.subrange(end, n));
            assert forall|i: int| 0 <= i < end implies b2[i] == new[i] by {
                if i < offset {
                } else {
                    assert(b2[i] == nc[i - offset]);
                }
            }
            assert forall|i: int| end <= i < n implies b2[i] == init[i] by {
                assert(b2[i] == b.subrange(end, n)[i - end]);
            }
            lemma_apply_diff_from(old, new, cs, end, b2);
        } else {
            assert(diff_from(old, new, cs, offset) == rest);
            assert forall|i: int| offset <= i < end implies init[i] == new[i] by {
                assert(nc[i - offset] == oc[i - offset]);
                assert(offset < old.len());
                assert(oc == old.subrange(offset, min(offset + cs, old.len() as int)));
                assert(oc[i - offset] == old[i]);
                if old.len() <= n {
                    assert(init[i] == old[i]);
                } else {
                    assert(init[i] == old.subrange(0, n)[i]);
                }
            }
            lemma_apply_diff_from(old, new, cs, end, b);
        }
    }
}

/// Applying the diff of `new` against `old` to `old` gives `new`.
pub proof fn lemma_diff_reconstructs(old: Seq<u8>, new: Seq<u8>, cs: int)
    requires
        cs > 0,
        new.len() <= usize::MAX,
    ensures
        apply_chunks(initial_buffer(old, new.len() as int), spec_diff_chunks(old, new, cs)) == new,
{
    let init = initial_buffer(old, new.len() as int);
    if old.len() <= new.len() {
        assert(init.len() == new.len());
    }
    lemma_apply_diff_from(old, new, cs, 0, init);
}

/// An incremental update computed against a cache entry, applied to a cache that holds the
/// same entry for the connection, gives back the new data; and it is safe to apply.
pub proof fn lemma_apply_after_compute(sender: CacheView, receiver: CacheView, cid: u32, seq: u32, new: Seq<u8>)
    requires
        sender.chunk_size > 0,
        new.len() <= usize::MAX,
        sender.entries.contains_key(cid),
        receiver.entries.contains_key(cid),
        sender.entries[cid] == receiver.entries[cid],
        spec_compute_incremental(sender, cid, seq, new) is Some,
    ensures
        apply_safe(spec_compute_incremental(sender, cid, seq, new)->0),
        spec_apply_incremental(receiver, spec_compute_incremental(sender, cid, seq, new)->0) == Some(new),
{
    let m = spec_compute_incremental(sender, cid, seq, new)->0;
    let old = sender.entries[cid].1;
    lemma_diff_from_bounds(old, new, sender.chunk_size as int, 0);
    lemma_diff_reconstructs(old, new, sender.chunk_size as int);
    assert forall|i: int| 0 <= i < m.chunks.len() implies (#[trigger] m.chunks[i]).offset + m.chunks[i].length <= usize::MAX
        && (m.chunks[i].offset + m.chunks[i].length <= m.total_len ==> chunk_wf(m.chunks[i])) by {
        assert(chunk_wf(m.chunks[i]));
    }
}

/// An incremental update is sent only where it pays: it is computed against the data
/// cached for the connection, names that data's sequence number as its base, stands for
/// the whole new data, and its chunks carry no more than the cached data's length less a
/// tenth of it. Where the chunks would carry more (for instance when every chunk differs
/// and the new data is no shorter than the cached data), there is no update. (A cached
/// entry shorter than ten bytes has a tenth of zero, so nothing needs to be saved there.)
pub proof fn lemma_incremental_saves_a_tenth(c: CacheView, cid: u32, seq: u32, new: Seq<u8>)
    requires
        new.len() <= usize::MAX,
    ensures
        spec_compute_incremental(c, cid, seq, new) matches Some(m) ==> {
            &&& c.entries.contains_key(cid)
            &&& m.connection_id == cid
            &&& m.sequence_id == seq
            &&& m.base_sequence_id == c.entries[cid].0
            &&& m.total_len == new.len()
            &&& m.chunks.len() > 0
            &&& (c.entries[cid].1.len() >= 10 ==> chunks_data_len(m.chunks) + c.entries[cid].1.len() / 10
                <= c.entries[cid].1.len())
        },
        c.entries.contains_key(cid) && c.entries[cid].1.len() >= 10 && chunks_data_len(
            spec_diff_chunks(c.entries[cid].1, new, c.chunk_size as int),
        ) + c.entries[cid].1.len() / 10 > c.entries[cid].1.len() ==> spec_compute_incremental(c, cid, seq, new)
            is None,
{
}

fn overwrite(buf: &mut Vec<u8>, offset: usize, data: &[u8])
    requires
        offset + data@.len() <= old(buf)@.len(),
    ensures
        final(buf)@ == old(buf)@.subrange(0, offset as int) + data@
            + old(buf)@.subrange(offset + data@.len(), old(buf)@.len() as int),
{
    let n = buf.len();
    let mut k: usize = 0;
    while k < data.len()
        invariant
            n == old(buf)@.len(),
            offset + data@.len() <= old(buf)@.len(),
            buf@.len() == old(buf)@.len(),
            k <= data@.len(),
            forall|i: int| 0 <= i < offset ==> buf@[i] == old(buf)@[i],
            forall|i: int| 0 <= i < k ==> buf@[offset + i] == data@[i],
            forall|i: int| offset + k <= i < buf@.len() ==> buf@[i] == old(buf)@[i],
        decreases data@.len() - k,
    {
        buf.set(offset + k, data[k]);
        k = k + 1;
    }
    assert(buf@ =~= old(buf)@.subrange(0, offset as int) + data@
        + old(buf)@.subrange(offset + data@.len(), old(buf)@.len() as int));
}

impl ConnectionDataCache {
    /// The incremental update that sends `new_data` on the connection, if one is worth it:
    /// where data was cached for the connection, the new data is at least
    /// `MIN_BLOCK_SIZE_FOR_DIFF` long, some chunk of it differs, and the chunks that differ
    /// save at least a tenth of the cached data.
    pub fn compute_incremental(&self, connection_id: ConnectionId, new_sequence_id: u32, new_data: &[u8])
        -> (r: Option<IncrementalX11DataMessage>)
        requires
            self@.chunk_size > 0 || !self@.entries.contains_key(connection_id.0)
                || new_data@.len() < MIN_BLOCK_SIZE_FOR_DIFF,
        ensures
            match spec_compute_incremental(self@, connection_id.0, new_sequence_id, new_data@) {
                Some(m) => r matches Some(v) && v@ == m,
                None => r is None,
            },
    {
        let (base_sequence_id, old_data) = match self.get_cached(connection_id) {
            Some(x) => x,
            None => return None,
        };
        if new_data.len() < MIN_BLOCK_SIZE_FOR_DIFF {
            return None;
        }
        let chunks = self.compute_diff_chunks(old_data, new_data);
        if chunks.len() == 0 {
            return None;
        }
        let ghost views = crate::protocol::payload::chunk_views(chunks@);
        proof {
            lemma_diff_from_bounds(old_data@, new_data@, self.chunk_size as int, 0);
        }
        let new_len = new_data.len();
        let mut total: usize = 0;
        let mut i: usize = 0;
        while i < chunks.len()
            invariant
                new_len == new_data@.len(),
                views == crate::protocol::payload::chunk_views(chunks@),
                chunks_data_len(views) <= new_data@.len(),
                i <= chunks@.len(),
                total == chunks_data_len(views.take(i as int)),
            decreases chunks@.len() - i,
        {
            proof {
                lemma_chunks_data_len_snoc(views.take(i as int), views[i as int]);
                assert(views.take(i + 1) =~= views.take(i as int).push(views[i as int]));
                lemma_chunks_data_len_prefix(views, i as int + 1);
            }
            total = total + chunks[i].data.len();
            i = i + 1;
        }
        assert(views.take(i as int) =~= views);
        let saved = if old_data.len() >= total { old_data.len() - total } else { 0 };
        if saved < old_data.len() / 10 {
            return None;
        }
        Some(IncrementalX11DataMessage {
            connection_id,
            sequence_id: new_sequence_id,
            base_sequence_id,
            total_len: new_data.len(),
            chunks,
        })
    }

    /// Rebuilds the data an incremental update stands for, from the cached data of its
    /// connection, and caches the result under the update's sequence number.
    pub fn apply_incremental(&mut self, msg: &IncrementalX11DataMessage) -> (r: Option<Vec<u8>>)
        requires
            (old(self)@.entries.contains_key(msg.connection_id.0)
                && old(self)@.entries[msg.connection_id.0].0 == msg.base_sequence_id) ==> apply_safe(msg@),
        ensures
            match spec_apply_incremental(old(self)@, msg@) {
                Some(d) => r matches Some(v) && v@ == d
                    && final(self)@.entries == old(self)@.entries.insert(msg.connection_id.0, (msg.sequence_id, d)),
                None => r is None && final(self)@.entries == old(self)@.entries,
            },
            final(self)@.chunk_size == old(self)@.chunk_size,
    {
        let ghost m = msg@;
        let total = msg.total_len;
        let mut result: Vec<u8> = Vec::new();
        {
            let (cached_seq, cached_data) = match self.get_cached(msg.connection_id) {
                Some(x) => x,
                None => return None,
            };
            if cached_seq != msg.base_sequence_id {
                return None;
            }
            let keep = if cached_data.len() <= total { cached_data.len() } else { total };
            crate::codec::push_bytes(&mut result, &cached_data[0..keep]);
            let mut z: usize = keep;
            while z < total
                invariant
                    keep <= z <= total,
                    result@.len() == z,
                    forall|i: int| 0 <= i < keep ==> result@[i] == cached_data@[i],
                    forall|i: int| keep <= i < z ==> result@[i] == 0u8,
                decreases total - z,
            {
                result.push(0u8);
                z = z + 1;
            }
            assert(result@ =~= initial_buffer(cached_data@, total as int));
        }
        let ghost init = result@;
        let mut i: usize = 0;
        while i < msg.chunks.len()
            invariant
                m == msg@,
                total == m.total_len,
                apply_safe(m),
                i <= msg.chunks@.len(),
                m.chunks.len() == msg.chunks@.len(),
                result@ == apply_chunks(init, m.chunks.take(i as int)),
                result@.len() == total,
            decreases msg.chunks@.len() - i,
        {
            let chunk = &msg.chunks[i];
            assert(m.chunks[i as int] == chunk@);
            let end = chunk.offset + chunk.length;
            let ghost before = result@;
            if end <= total {
                assert(chunk_wf(m.chunks[i as int]));
                overwrite(&mut result, chunk.offset, chunk.data.as_slice());
            }
            proof {
                lemma_apply_chunks_snoc(init, m.chunks.take(i as int), chunk@);
                assert(m.chunks.take(i + 1) =~= m.chunks.take(i as int).push(chunk@));
            }
            i = i + 1;
        }
        assert(m.chunks.take(i as int) =~= m.chunks);
        self.update_cache(msg.connection_id, msg.sequence_id, result.as_slice());
        Some(result)
    }

    /// Forgets the connection's cached data.
    pub fn clear_connection(&mut self, connection_id: ConnectionId)
        ensures
            final(self)@.entries == old(self)@.entries.remove(connection_id.0),
            final(self)@.chunk_size == old(self)@.chunk_size,
    {
        self.last_data.remove(&connection_id.get());
        assert(self@.entries =~= old(self)@.entries.remove(connection_id.0));
    }

    /// Forgets all cached data.
    pub fn clear_all(&mut self)
        ensures
            final(self)@.entries == Map::<u32, (u32, Seq<u8>)>::empty(),
            final(self)@.chunk_size == old(self)@.chunk_size,
    {
        self.last_data.clear();
        assert(self@.entries =~= Map::<u32, (u32, Seq<u8>)>::empty());
    }
}

/// A prefix's data is no longer than the whole run's.
pub proof fn lemma_chunks_data_len_prefix(cs: Seq<ChunkView>, k: int)
    requires
        0 <= k <= cs.len(),
    ensures
        chunks_data_len(cs.take(k)) <= chunks_data_len(cs),
    decreases cs.len() - k,
{
    if k < cs.len() {
        lemma_chunks_data_len_prefix(cs, k + 1);
        lemma_chunks_data_len_snoc(cs.take(k), cs[k]);
        assert(cs.take(k + 1) =~= cs.take(k).push(cs[k]));
    } else {
        assert(cs.take(k) =~= cs);
    }
}

} // verus!
