//! Provider-agnostic binary object storage: blobs addressed by string keys,
//! their payloads as single-pass chunk streams, and the small error taxonomy
//! into which every backend failure is classified.
pub mod blob;
pub mod error;
pub mod memory;
pub mod s3;
pub mod stream;
