//! A provider that keeps its blobs in memory, with the semantics that every
//! provider shares: absence is a result, not an error, and deletion is
//! idempotent.
use crate::blob::Blob;
use crate::error::Error;
use crate::stream::{bytes_of, lemma_bytes_of_one, ByteStream};
use vstd::prelude::*;

verus! {

/// What is kept of a stored blob: its declared size and its bytes.
pub type Stored = (usize, Seq<u8>);

/// What a fetch of `k` finds in the stored blobs `m`.
pub open spec fn fetched(m: Map<Seq<char>, Stored>, k: Seq<char>) -> Option<Stored> {
    if m.contains_key(k) {
        Some(m[k])
    } else {
        None
    }
}

/// The stored blobs once `b` is stored: its payload read to the end, under
/// its key, in place of whatever was there.
pub open spec fn after_store(m: Map<Seq<char>, Stored>, b: Blob<ByteStream>) -> Map<Seq<char>, Stored> {
    m.insert(b.key_spec(), (b.size_spec(), bytes_of(b.content_spec()@)))
}

/// The stored blobs once `k` is deleted.
pub open spec fn after_delete(m: Map<Seq<char>, Stored>, k: Seq<char>) -> Map<Seq<char>, Stored> {
    m.remove(k)
}

struct Entry {
    key: String,
    size: usize,
    content: Vec<u8>,
}

/// A provider over a table of blobs held in memory, one per key.
pub struct MemoryProvider {
    entries: Vec<Entry>,
}

impl View for MemoryProvider {
    /// The stored blobs, by key.
    type V = Map<Seq<char>, Stored>;

    closed spec fn view(&self) -> Map<Seq<char>, Stored> {
        Map::new(
            |k: Seq<char>| exists|i: int| 0 <= i < self.entries@.len() && #[trigger] self.entries@[i].key@ == k,
            |k: Seq<char>|
                {
                    let i = choose|i: int| 0 <= i < self.entries@.len() && #[trigger] self.entries@[i].key@ == k;
                    (self.entries@[i].size, self.entries@[i].content@)
                },
        )
    }
}

impl MemoryProvider {
    /// No key is held twice.
    pub closed spec fn wf(&self) -> bool {
        forall|i: int, j: int|
            0 <= i < j < self.entries@.len() ==> #[trigger] self.entries@[i].key@
                != #[trigger] self.entries@[j].key@
    }

    proof fn lemma_entry(&self, i: int)
        requires
            self.wf(),
            0 <= i < self.entries@.len(),
        ensures
            self@.contains_key(self.entries@[i].key@),
            self@[self.entries@[i].key@] == (self.entries@[i].size, self.entries@[i].content@),
    {
        let k = self.entries@[i].key@;
        assert(self.entries@[i].key@ == k);
        let j = choose|j: int| 0 <= j < self.entries@.len() && #[trigger] self.entries@[j].key@ == k;
        if j < i {
            assert(self.entries@[j].key@ != self.entries@[i].key@);
        } else if i < j {
            assert(self.entries@[i].key@ != self.entries@[j].key@);
        }
    }

    /// An empty store.
    pub fn new() -> (r: Self)
        ensures
            r.wf(),
            r@ == Map::<Seq<char>, Stored>::empty(),
    {
        let r = MemoryProvider { entries: Vec::new() };
        assert(r@ =~= Map::<Seq<char>, Stored>::empty());
        r
    }

    fn find(&self, key: &String) -> (r: Option<usize>)
        requires
            self.wf(),
        ensures
            r is None <==> !self@.contains_key(key@),
            r matches Some(i) ==> i < self.entries@.len() && self.entries@[i as int].key@ == key@,
    {
        let mut i: usize = 0;
        while i < self.entries.len()
            invariant
                self.wf(),
                i <= self.entries@.len(),
                forall|j: int| 0 <= j < i ==> #[trigger] self.entries@[j].key@ != key@,
            decreases self.entries@.len() - i,
        {
            if self.entries[i].key == *key {
                proof {
                    self.lemma_entry(i as int);
                }
                return Some(i);
            }
            i = i + 1;
        }
        None
    }

    /// Fetches the blob under `key`: its declared size and its bytes as one
    /// chunk, or `None` where no blob has that key. Never an error.
    pub fn get_blob(&self, key: &str) -> (r: Result<Option<Blob<ByteStream>>, Error>)
        requires
            self.wf(),
        ensures
            match fetched(self@, key@) {
                None => r matches Ok(None),
                Some(found) => r matches Ok(Some(b)) && b.key_spec() == key@ && b.size_spec()
                    == found.0 && b.content_spec()@ == seq![found.1],
            },
    {
        let k = key.to_owned();
        match self.find(&k) {
            None => Ok(None),
            Some(i) => {
                proof {
                    self.lemma_entry(i as int);
                }
                let entry = &self.entries[i];
                let content = copy_bytes(&entry.content);
                Ok(Some(Blob::new(k, entry.size, ByteStream::once(content))))
            },
        }
    }

    /// Whether a blob is stored under `key`. Never an error.
    pub fn is_blob_present(&self, key: &str) -> (r: Result<bool, Error>)
        requires
            self.wf(),
        ensures
            r matches Ok(present) && present == self@.contains_key(key@),
    {
        let k = key.to_owned();
        Ok(self.find(&k).is_some())
    }

    /// Stores `blob` under its key, in place of any blob held there, reading
    /// its payload to the end, and echoes it back.
    pub fn store_blob(&mut self, blob: Blob<ByteStream>) -> (r: Result<Blob<ByteStream>, Error>)
        requires
            old(self).wf(),
        ensures
            final(self).wf(),
            final(self)@ == after_store(old(self)@, blob),
            r matches Ok(b) && b.key_spec() == blob.key_spec() && b.size_spec() == blob.size_spec()
                && b.content_spec()@ == seq![bytes_of(blob.content_spec()@)],
    {
        let key = blob.key().to_owned();
        let size = blob.size();
        let content = blob.into_byte_stream().read_all();
        let echo = copy_bytes(&content);
        let ghost k = key@;
        let ghost v: Stored = (size, content@);
        let ghost before = self@;
        let entry = Entry { key: key.clone(), size, content };
        match self.find(&key) {
            Some(i) => {
                let ghost old_entries = self.entries@;
                self.entries.set(i, entry);
                assert(self.wf()) by {
                    assert forall|a: int, b: int| 0 <= a < b < self.entries@.len() implies
                        #[trigger] self.entries@[a].key@ != #[trigger] self.entries@[b].key@ by {
                        assert(old_entries[a].key@ != old_entries[b].key@);
                    }
                }
                assert forall|q: Seq<char>| #[trigger] self@.contains_key(q) == before.insert(k, v).contains_key(q)
                    && (self@.contains_key(q) ==> self@[q] == before.insert(k, v)[q]) by {
                    if q == k {
                        self.lemma_entry(i as int);
                    } else if self@.contains_key(q) {
                        let j = choose|j: int| 0 <= j < self.entries@.len() && #[trigger] self.entries@[j].key@ == q;
                        self.lemma_entry(j);
                        assert(old_entries[j].key@ == q);
                        assert(old(self).entries@[j].key@ == q);
                        old(self).lemma_entry(j);
                    } else if before.contains_key(q) {
                        let j = choose|j: int| 0 <= j < old_entries.len() && #[trigger] old_entries[j].key@ == q;
                        assert(self.entries@[j].key@ == q);
                    }
                }
            },
            None => {
                self.entries.push(entry);
                let n = self.entries.len() - 1;
                assert(self.wf()) by {
                    assert forall|a: int, b: int| 0 <= a < b < self.entries@.len() implies
                        #[trigger] self.entries@[a].key@ != #[trigger] self.entries@[b].key@ by {
                        if b == n {
                            assert(old(self).entries@[a].key@ != k);
                        } else {
                            assert(old(self).entries@[a].key@ != old(self).entries@[b].key@);
                        }
                    }
                }
                assert forall|q: Seq<char>| #[trigger] self@.contains_key(q) == before.insert(k, v).contains_key(q)
                    && (self@.contains_key(q) ==> self@[q] == before.insert(k, v)[q]) by {
                    if q == k {
                        self.lemma_entry(n as int);
                    } else if self@.contains_key(q) {
                        let j = choose|j: int| 0 <= j < self.entries@.len() && #[trigger] self.entries@[j].key@ == q;
                        self.lemma_entry(j);
                        assert(old(self).entries@[j].key@ == q);
                        old(self).lemma_entry(j);
                    } else if before.contains_key(q) {
                        let j = choose|j: int| 0 <= j < old(self).entries@.len() && #[trigger] old(self).entries@[j].key@ == q;
                        assert(self.entries@[j].key@ == q);
                    }
                }
            },
        }
        assert(self@ =~= before.insert(k, v));
        Ok(Blob::new(key, size, ByteStream::once(echo)))
    }

    /// Removes the blob under `key`, if there is one. Removing an absent key
    /// succeeds and changes nothing.
    pub fn delete_blob(&mut self, key: &str) -> (r: Result<(), Error>)
        requires
            old(self).wf(),
        ensures
            final(self).wf(),
            final(self)@ == after_delete(old(self)@, key@),
            r is Ok,
    {
        let k = key.to_owned();
        let ghost before = self@;
        match self.find(&k) {
            None => {
                assert(before.remove(k@) =~= before);
            },
            Some(i) => {
                let ghost old_entries = self.entries@;
                self.entries.remove(i);
                let ghost shift = |j: int| if j < i { j } else { j + 1 };
                assert(self.wf()) by {
                    assert forall|a: int, b: int| 0 <= a < b < self.entries@.len() implies
                        #[trigger] self.entries@[a].key@ != #[trigger] self.entries@[b].key@ by {
                        assert(self.entries@[a] == old_entries[shift(a)]);
                        assert(self.entries@[b] == old_entries[shift(b)]);
                        assert(old_entries[shift(a)].key@ != old_entries[shift(b)].key@);
                    }
                }
                assert forall|q: Seq<char>| #[trigger] self@.contains_key(q) == before.remove(k@).contains_key(q)
                    && (self@.contains_key(q) ==> self@[q] == before.remove(k@)[q]) by {
                    if self@.contains_key(q) {
                        let j = choose|j: int| 0 <= j < self.entries@.len() && #[trigger] self.entries@[j].key@ == q;
                        self.lemma_entry(j);
                        assert(self.entries@[j] == old_entries[shift(j)]);
                        assert(old(self).entries@[shift(j)].key@ == q);
                        old(self).lemma_entry(shift(j));
                        assert(shift(j) != i);
                    } else if before.contains_key(q) && q != k@ {
                        let j = choose|j: int| 0 <= j < old_entries.len() && #[trigger] old_entries[j].key@ == q;
                        assert(j != i);
                        let jj = if j < i { j } else { j - 1 };
                        assert(self.entries@[jj] == old_entries[j]);
                        assert(self.entries@[jj].key@ == q);
                    } else if q == k@ {
                        if self@.contains_key(q) {
                            let j = choose|j: int| 0 <= j < self.entries@.len() && #[trigger] self.entries@[j].key@ == q;
                            assert(self.entries@[j] == old_entries[shift(j)]);
                        }
                    }
                }
                assert(self@ =~= before.remove(k@));
            },
        }
        Ok(())
    }
}

/// Once a blob is stored, a fetch of its key finds its declared size and
/// the bytes of its payload.
pub proof fn law_store_then_get(p: MemoryProvider, b: Blob<ByteStream>)
    ensures
        fetched(after_store(p@, b), b.key_spec()) == Some(
            (b.size_spec(), bytes_of(b.content_spec()@)),
        ),
{
}

/// Once a key is deleted, a fetch of it finds nothing.
pub proof fn law_delete_then_get(p: MemoryProvider, k: Seq<char>)
    ensures
        fetched(after_delete(p@, k), k) is None,
{
}

/// Deleting a key that is absent leaves the store as it was.
pub proof fn law_delete_absent(p: MemoryProvider, k: Seq<char>)
    requires
        !p@.contains_key(k),
    ensures
        after_delete(p@, k) == p@,
{
    assert(p@.remove(k) =~= p@);
}

/// Storing a buffer as one chunk and fetching it back gives a stream whose
/// bytes, read to the end, are the buffer itself, as many as it holds.
pub proof fn law_round_trip(p: MemoryProvider, b: Blob<ByteStream>, buf: Seq<u8>)
    requires
        b.content_spec()@ == seq![buf],
    ensures
        fetched(after_store(p@, b), b.key_spec()) matches Some(found) && bytes_of(seq![found.1])
            == buf && bytes_of(seq![found.1]).len() == buf.len(),
{
    lemma_bytes_of_one(buf);
}

/// A copy of `b`, byte for byte.
fn copy_bytes(b: &Vec<u8>) -> (r: Vec<u8>)
    ensures
        r@ == b@,
{
    let mut r: Vec<u8> = Vec::with_capacity(b.len());
    let mut i: usize = 0;
    while i < b.len()
        invariant
            i <= b@.len(),
            r@ == b@.subrange(0, i as int),
        decreases b@.len() - i,
    {
        r.push(b[i]);
        i = i + 1;
        assert(r@ =~= b@.subrange(0, i as int));
    }
    assert(b@.subrange(0, b@.len() as int) =~= b@);
    r
}

} // verus!
