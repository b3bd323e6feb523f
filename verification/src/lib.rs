//! Registry-backed package source: shard-path computation, metadata line
//! decoding, checksum-verified downloading, and idempotent unpacking.
mod bytes;
pub mod version;
pub mod shard;
pub mod checksum;
pub mod codec;
pub mod registry;

pub use bytes::bytes_eq;
