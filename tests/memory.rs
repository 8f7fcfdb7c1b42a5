use hold::blob::Blob;
use hold::memory::MemoryProvider;

#[test]
fn store_get_present_delete_scenario() {
    let mut p = MemoryProvider::new();
    let stored = p
        .store_blob(Blob::from_bytes(String::from("a/b.txt"), b"hello".to_vec()))
        .unwrap();
    assert_eq!(stored.key(), "a/b.txt");
    assert_eq!(stored.size(), 5);

    let got = p.get_blob("a/b.txt").unwrap().unwrap();
    assert_eq!(got.key(), "a/b.txt");
    assert_eq!(got.size(), 5);
    assert_eq!(got.into_byte_stream().read_all(), b"hello".to_vec());

    assert!(p.is_blob_present("a/b.txt").unwrap());
    p.delete_blob("a/b.txt").unwrap();
    assert!(p.get_blob("a/b.txt").unwrap().is_none());
    assert!(!p.is_blob_present("a/b.txt").unwrap());
}

#[test]
fn get_missing_on_empty_backend_is_none() {
    let p = MemoryProvider::new();
    assert!(matches!(p.get_blob("missing"), Ok(None)));
    assert!(matches!(p.is_blob_present("missing"), Ok(false)));
}

#[test]
fn delete_absent_key_succeeds() {
    let mut p = MemoryProvider::new();
    assert!(p.delete_blob("nothing").is_ok());
    assert!(p.delete_blob("nothing").is_ok());
}

#[test]
fn stored_size_is_the_declared_size() {
    let mut p = MemoryProvider::new();
    p.store_blob(Blob::empty(String::from("k"), 1000)).unwrap();
    let got = p.get_blob("k").unwrap().unwrap();
    assert_eq!(got.size(), 1000);
    assert_eq!(got.into_byte_stream().read_all().len(), 0);
}

#[test]
fn round_trip_of_a_buffer() {
    let buf: Vec<u8> = (0..=255u8).cycle().take(4096).collect();
    let mut p = MemoryProvider::new();
    p.store_blob(Blob::from_bytes(String::from("big"), buf.clone())).unwrap();
    let got = p.get_blob("big").unwrap().unwrap();
    assert_eq!(got.size(), 4096);
    let bytes = got.into_byte_stream().read_all();
    assert_eq!(bytes.len(), 4096);
    assert_eq!(bytes, buf);
}

#[test]
fn storing_again_replaces_the_blob() {
    let mut p = MemoryProvider::new();
    p.store_blob(Blob::from_bytes(String::from("k"), b"one".to_vec())).unwrap();
    p.store_blob(Blob::from_bytes(String::from("j"), b"other".to_vec())).unwrap();
    p.store_blob(Blob::from_bytes(String::from("k"), b"second".to_vec())).unwrap();
    let got = p.get_blob("k").unwrap().unwrap();
    assert_eq!(got.size(), 6);
    assert_eq!(got.into_byte_stream().read_all(), b"second".to_vec());
    let other = p.get_blob("j").unwrap().unwrap();
    assert_eq!(other.into_byte_stream().read_all(), b"other".to_vec());
}

#[test]
fn delete_leaves_other_keys() {
    let mut p = MemoryProvider::new();
    p.store_blob(Blob::from_bytes(String::from("a"), vec![1])).unwrap();
    p.store_blob(Blob::from_bytes(String::from("b"), vec![2])).unwrap();
    p.store_blob(Blob::from_bytes(String::from("c"), vec![3])).unwrap();
    p.delete_blob("b").unwrap();
    assert!(p.is_blob_present("a").unwrap());
    assert!(!p.is_blob_present("b").unwrap());
    assert_eq!(p.get_blob("c").unwrap().unwrap().into_byte_stream().read_all(), vec![3]);
}

#[test]
fn store_echoes_the_payload() {
    let mut p = MemoryProvider::new();
    let echo = p.store_blob(Blob::from_bytes(String::from("e"), b"xyz".to_vec())).unwrap();
    assert_eq!(echo.into_byte_stream().read_all(), b"xyz".to_vec());
}
