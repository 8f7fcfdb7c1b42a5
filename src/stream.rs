//! A single-pass stream of byte chunks held in memory.
use std::collections::VecDeque;
use vstd::prelude::*;

verus! {

/// The bytes of a sequence of chunks, read one after the other.
pub open spec fn bytes_of(chunks: Seq<Seq<u8>>) -> Seq<u8> {
    chunks.flatten()
}

/// A payload as a finite sequence of chunks, each consumed once, in order.
pub struct ByteStream {
    chunks: VecDeque<Vec<u8>>,
}

impl View for ByteStream {
    /// The chunks that have not been read yet.
    type V = Seq<Seq<u8>>;

    closed spec fn view(&self) -> Seq<Seq<u8>> {
        self.chunks@.map_values(|c: Vec<u8>| c@)
    }
}

impl ByteStream {
    /// A stream with no chunk at all.
    pub fn empty() -> (r: Self)
        ensures
            r@ == Seq::<Seq<u8>>::empty(),
    {
        let r = ByteStream { chunks: VecDeque::new() };
        assert(r@ =~= Seq::<Seq<u8>>::empty());
        r
    }

    /// A stream whose one chunk is the whole of `content`.
    pub fn once(content: Vec<u8>) -> (r: Self)
        ensures
            r@ == seq![content@],
    {
        let ghost c = content@;
        let mut chunks: VecDeque<Vec<u8>> = VecDeque::new();
        chunks.push_back(content);
        let r = ByteStream { chunks };
        assert(r@ =~= seq![c]);
        r
    }

    /// Reads the next chunk; `None` once the stream is exhausted.
    pub fn next_chunk(&mut self) -> (r: Option<Vec<u8>>)
        ensures
            old(self)@.len() == 0 ==> r is None && final(self)@ == old(self)@,
            old(self)@.len() > 0 ==> (r matches Some(c) && c@ == old(self)@[0]
                && final(self)@ == old(self)@.drop_first()),
    {
        let r = self.chunks.pop_front();
        assert(self@ =~= old(self)@.subrange(1, old(self)@.len() as int) || r is None);
        r
    }

    /// Reads the stream to its end and returns all its bytes in order.
    pub fn read_all(self) -> (r: Vec<u8>)
        ensures
            r@ == bytes_of(self@),
    {
        let ghost all = self@;
        let mut s = self;
        let mut out: Vec<u8> = Vec::new();
        loop
            invariant
                all == self@,
                out@ + bytes_of(s@) == bytes_of(all),
            decreases s@.len(),
        {
            let ghost before = s@;
            match s.next_chunk() {
                None => {
                    assert(s@.len() == 0);
                    assert(bytes_of(s@) == Seq::<u8>::empty());
                    assert(out@ =~= out@ + bytes_of(s@));
                    return out;
                },
                Some(c) => {
                    let ghost prev = out@;
                    let mut c = c;
                    out.append(&mut c);
                    assert(bytes_of(before) == before[0] + bytes_of(s@));
                    assert(out@ + bytes_of(s@) =~= prev + bytes_of(before));
                },
            }
        }
    }
}

/// The bytes of a single chunk are that chunk.
pub proof fn lemma_bytes_of_one(c: Seq<u8>)
    ensures
        bytes_of(seq![c]) == c,
{
    seq![c].lemma_flatten_one_element();
}

/// A stream with no chunk left is exhausted: it holds no byte, and the next
/// read finds nothing (see `next_chunk`).
pub proof fn law_empty_stream_is_exhausted(s: ByteStream)
    requires
        s@.len() == 0,
    ensures
        bytes_of(s@) == Seq::<u8>::empty(),
        bytes_of(s@).len() == 0,
{
}

} // verus!
