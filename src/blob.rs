//! A blob: a key, a declared size, and a payload stream.
use crate::stream::ByteStream;
use vstd::prelude::*;

verus! {

/// An object that can be stored onto a provider. The key plays the part of
/// a file path; the size is declared up front and is never changed; the
/// payload `S` is handed out once, by `into_byte_stream`.
pub struct Blob<S> {
    key: String,
    size: usize,
    content: S,
}

impl<S> Blob<S> {
    /// The key of the blob.
    pub closed spec fn key_spec(&self) -> Seq<char> {
        self.key@
    }

    /// The declared size of the blob, in bytes.
    pub closed spec fn size_spec(&self) -> usize {
        self.size
    }

    /// The payload of the blob.
    pub closed spec fn content_spec(&self) -> S {
        self.content
    }

    /// Binds `key` and the declared `size` to a payload; the size is not
    /// checked against the payload.
    pub fn new(key: String, size: usize, stream: S) -> (r: Self)
        ensures
            r.key_spec() == key@,
            r.size_spec() == size,
            r.content_spec() == stream,
    {
        Blob { key, size, content: stream }
    }

    pub fn key(&self) -> (r: &str)
        ensures
            r@ == self.key_spec(),
    {
        self.key.as_str()
    }

    pub fn size(&self) -> (r: usize)
        ensures
            r == self.size_spec(),
    {
        self.size
    }

    /// Gives up the blob for its payload.
    pub fn into_byte_stream(self) -> (r: S)
        ensures
            r == self.content_spec(),
    {
        self.content
    }
}

impl Blob<ByteStream> {
    /// A blob whose payload is `content` as one chunk and whose size is its length.
    pub fn from_bytes(key: String, content: Vec<u8>) -> (r: Self)
        ensures
            r.key_spec() == key@,
            r.size_spec() == content@.len(),
            r.content_spec()@ == seq![content@],
    {
        let size = content.len();
        Blob::new(key, size, ByteStream::once(content))
    }

    /// A blob that declares `size` bytes but carries no payload, for results
    /// that need not echo the bytes back.
    pub fn empty(key: String, size: usize) -> (r: Self)
        ensures
            r.key_spec() == key@,
            r.size_spec() == size,
            r.content_spec()@ == Seq::<Seq<u8>>::empty(),
    {
        Blob::new(key, size, ByteStream::empty())
    }
}

} // verus!
