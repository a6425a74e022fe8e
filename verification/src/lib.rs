//! Host-side execution core for content-addressed WASM "live objects".
//!
//! The crate provides the transactional storage overlay, the guest memory
//! descriptor codec, the content-addressed live-object records, the host
//! storage imports with per-object key prefixing, and the message batch
//! driver. Everything that decides or computes is specified and verified;
//! the embedding (a WASM engine, a persistent store, an RPC surface) is
//! expected to live around this crate and call into it.

pub mod cache;
pub mod constants;
pub mod context;
pub mod imports;
pub mod kv;
pub mod live_object_info;
pub mod memory;
pub mod order;
pub mod processor;
pub mod runtime;
pub mod storage;
