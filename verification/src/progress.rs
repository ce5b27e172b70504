//! Accounting for a streamed response body: the byte counter behind the
//! progress display, and the model of what has been written to the file.

use vstd::prelude::*;

verus! {

/// The concatenation of a sequence of chunks, in arrival order.
pub open spec fn flatten_chunks(chunks: Seq<Seq<u8>>) -> Seq<u8>
    decreases chunks.len(),
{
    if chunks.len() == 0 {
        Seq::empty()
    } else {
        flatten_chunks(chunks.drop_last()) + chunks.last()
    }
}

/// The number of bytes a sequence of chunks holds together.
pub open spec fn total_len(chunks: Seq<Seq<u8>>) -> nat
    decreases chunks.len(),
{
    if chunks.len() == 0 {
        0
    } else {
        total_len(chunks.drop_last()) + chunks.last().len()
    }
}

/// Flattening a chunk sequence yields exactly as many bytes as the chunks
/// hold together.
pub proof fn lemma_flatten_len(chunks: Seq<Seq<u8>>)
    ensures
        flatten_chunks(chunks).len() == total_len(chunks),
    decreases chunks.len(),
{
    if chunks.len() == 0 {
    } else {
        lemma_flatten_len(chunks.drop_last());
    }
}

/// The hint taken from an optional content-length header: its value, or 0
/// when the server omitted it.
pub open spec fn hint_of(content_length: Option<u64>) -> u64 {
    match content_length {
        Some(n) => n,
        None => 0,
    }
}

/// Transfer progress for one download: the byte counter shown to the user,
/// the content-length hint, and (as ghost state) the chunks recorded so far.
///
/// The caller writes each chunk to the destination file and then records it
/// here, so `content()` is exactly what the file holds — also after a dropped
/// connection, when the chunks recorded are only a prefix of the body.
pub struct Progress {
    written: u64,
    total_hint: u64,
    chunks: Ghost<Seq<Seq<u8>>>,
}

impl Progress {
    /// The chunks recorded so far, in arrival order.
    pub closed spec fn chunks(&self) -> Seq<Seq<u8>> {
        self.chunks@
    }

    /// The bytes accumulated so far: the concatenation of every recorded
    /// chunk.
    pub open spec fn content(&self) -> Seq<u8> {
        flatten_chunks(self.chunks())
    }

    /// The progress counter.
    pub closed spec fn written(&self) -> u64 {
        self.written
    }

    /// The content-length hint, 0 when the server omitted the header.
    pub closed spec fn total_hint(&self) -> u64 {
        self.total_hint
    }

    /// The counter agrees with the accumulated content.
    pub open spec fn wf(&self) -> bool {
        self.written() == self.content().len()
    }

    /// Fresh progress for a response advertising `content_length` body bytes.
    pub fn new(content_length: Option<u64>) -> (p: Progress)
        ensures
            p.wf(),
            p.written() == 0,
            p.chunks() == Seq::<Seq<u8>>::empty(),
            p.content() == Seq::<u8>::empty(),
            p.total_hint() == hint_of(content_length),
    {
        let hint = match content_length {
            Some(n) => n,
            None => 0,
        };
        Progress { written: 0, total_hint: hint, chunks: Ghost(Seq::empty()) }
    }

    /// Whether a chunk of `len` bytes can still be recorded without the
    /// counter overflowing its 64 bits.
    pub fn can_record(&self, len: usize) -> (r: bool)
        ensures
            r == (self.written() + len <= u64::MAX),
    {
        len as u64 <= u64::MAX - self.written
    }

    /// Records one body chunk that the caller has just appended to the
    /// destination file: the counter advances by exactly the chunk's length.
    pub fn record_chunk(&mut self, chunk: &[u8])
        requires
            old(self).wf(),
            old(self).written() + chunk@.len() <= u64::MAX,
        ensures
            final(self).wf(),
            final(self).written() == old(self).written() + chunk@.len(),
            final(self).chunks() == old(self).chunks().push(chunk@),
            final(self).content() == old(self).content() + chunk@,
            final(self).total_hint() == old(self).total_hint(),
    {
        proof {
            assert(self.chunks@.push(chunk@).drop_last() =~= self.chunks@);
        }
        self.written = self.written + chunk.len() as u64;
        self.chunks = Ghost(self.chunks@.push(chunk@));
    }

    /// The progress counter, for the display.
    pub fn bytes_written(&self) -> (r: u64)
        ensures
            r == self.written(),
    {
        self.written
    }

    /// The content-length hint, for sizing the display.
    pub fn total(&self) -> (r: u64)
        ensures
            r == self.total_hint(),
    {
        self.total_hint
    }
}

/// The progress counter never exceeds the number of bytes accumulated; it
/// equals that number — the total length of the recorded chunks — after every
/// recorded chunk, so it reaches a transfer's total exactly when the last
/// chunk is recorded.
pub proof fn lemma_counter_exact(p: Progress)
    requires
        p.wf(),
    ensures
        p.written() == p.content().len(),
        p.written() == total_len(p.chunks()),
{
    lemma_flatten_len(p.chunks());
}

/// The counter is monotone along a run: after any prefix of the chunks it is
/// at most what it is once every chunk is recorded. Together with
/// `lemma_counter_exact` this says the counter never exceeds the bytes the
/// whole transfer writes, and reaches that total exactly when the last chunk
/// is recorded.
pub proof fn lemma_counter_monotone(chunks: Seq<Seq<u8>>, k: int)
    requires
        0 <= k <= chunks.len(),
    ensures
        total_len(chunks.take(k)) <= total_len(chunks),
    decreases chunks.len() - k,
{
    if k == chunks.len() {
        assert(chunks.take(k) =~= chunks);
    } else {
        lemma_counter_monotone(chunks, k + 1);
        assert(chunks.take(k + 1).drop_last() =~= chunks.take(k));
    }
}

/// However a body was split into chunks on the wire, the accumulated content
/// and the counter depend only on the concatenation of the chunks: two
/// transfers whose chunks flatten to the same bytes agree on both.
pub proof fn lemma_chunking_immaterial(p1: Progress, p2: Progress)
    requires
        p1.wf(),
        p2.wf(),
        flatten_chunks(p1.chunks()) == flatten_chunks(p2.chunks()),
    ensures
        p1.content() == p2.content(),
        p1.written() == p2.written(),
{
}

} // verus!
