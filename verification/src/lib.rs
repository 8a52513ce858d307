//! Content-addressing and chunk-packing engine for a distributed-storage
//! client.
//!
//! The library turns an arbitrary byte payload into one or more immutable,
//! size-bounded chunk records, optionally protecting the innermost
//! reassembly descriptor with a symmetric key, and reverses the process on
//! read.  Chunk-store traffic and the content-chunking primitive are
//! external capabilities: the engines here hand out the bytes that must be
//! chunked or reassembled and take the capability's answers as arguments,
//! so every decision the engines make is verified.

pub mod chunk_map;
pub mod codec;
pub mod crypt;
pub mod errors;
pub mod file_helper;
pub mod laws;
pub mod pack;
pub mod record;
pub mod unpack;
