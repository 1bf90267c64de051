//! A local, content-addressed backup store for application configuration
//! files.
//!
//! The library is the storage engine: content-addressed blobs, the manifest
//! with its canonical hash and snapshot chain, the per-snapshot blob chain
//! with its encrypted sidecar, the deduplicating ingest pipeline and the
//! restore pipeline.  File and process input/output stay outside; the
//! engine works on plain values handed in and out by its caller.

pub mod archive;
pub mod apps;
pub mod blob;
pub mod canon;
pub mod blob_table;
pub mod chain;
pub mod clock;
pub mod compress;
pub mod digest;
pub mod encoding;
pub mod engine;
pub mod entry;
pub mod errors;
pub mod manifest;
pub mod performance;
pub mod pipeline;
pub mod seal;
pub mod sidecar;
pub mod snapshots;
pub mod text;
