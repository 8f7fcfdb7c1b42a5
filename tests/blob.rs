use hold::blob::Blob;
use hold::stream::ByteStream;
use rand::Rng;

#[test]
fn it_builds_a_new_blob() {
    let bytes = rand::thread_rng().gen::<[u8; 32]>().to_vec();
    let blob = Blob::from_bytes(String::from("key"), bytes.clone());

    assert_eq!(blob.key(), "key");
    assert_eq!(blob.size(), bytes.len());
}

#[test]
fn from_bytes_yields_the_bytes_as_one_chunk() {
    let blob = Blob::from_bytes(String::from("k"), b"hello".to_vec());
    let mut stream = blob.into_byte_stream();
    assert_eq!(stream.next_chunk(), Some(b"hello".to_vec()));
    assert_eq!(stream.next_chunk(), None);
}

#[test]
fn empty_blob_keeps_its_declared_size() {
    let blob = Blob::empty(String::from("a/b"), 42);
    assert_eq!(blob.key(), "a/b");
    assert_eq!(blob.size(), 42);
    assert_eq!(blob.into_byte_stream().read_all(), Vec::<u8>::new());
}

#[test]
fn new_does_not_check_size_against_payload() {
    let blob = Blob::new(String::from("x"), 7, ByteStream::once(vec![1, 2]));
    assert_eq!(blob.size(), 7);
    assert_eq!(blob.into_byte_stream().read_all(), vec![1, 2]);
}

#[test]
fn blob_carries_any_payload_type() {
    let blob = Blob::new(String::from("n"), 3, vec![9u8, 8, 7]);
    assert_eq!(blob.key(), "n");
    assert_eq!(blob.into_byte_stream(), vec![9u8, 8, 7]);
}

#[test]
fn empty_stream_is_exhausted_at_once() {
    let mut stream = ByteStream::empty();
    assert_eq!(stream.next_chunk(), None);
    assert_eq!(ByteStream::empty().read_all().len(), 0);
}

#[test]
fn stream_of_empty_buffer_reads_zero_bytes() {
    let stream = ByteStream::once(Vec::new());
    assert_eq!(stream.read_all().len(), 0);
}
