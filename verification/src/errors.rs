//! The error kinds the storage engine reports.

use vstd::prelude::*;

verus! {

/// Everything that can go wrong inside the storage engine.  Input/output
/// failures are reported by the caller that performs the input/output;
/// the engine itself reports only these kinds.
#[derive(Debug, Clone, Copy, PartialEq, Eq, Structural)]
pub enum StoreError {
    /// A required environment or user directory could not be resolved.
    Resolve,
    /// A source path could not be read or archived.
    Pack,
    /// Compression failed.
    Compression,
    /// Decompression failed.
    Decompression,
    /// A base64 payload could not be decoded.
    Decode,
    /// An entry references a blob id that is not in the manifest.
    MissingBlob,
    /// A blob format outside `tar` and `tar.zst`.
    UnknownFormat,
    /// The tar member named in an entry is absent from the archive.
    MemberNotFound,
    /// An estimated operation exceeds the configured memory budget.
    MemoryLimit,
    /// A chain or blob hash recomputation mismatches storage.
    IntegrityViolation,
    /// A snapshot-chain reference could not be resolved.
    BrokenChain,
    /// The snapshot-chain walk revisited a snapshot.
    Cycle,
    /// The external installer reported failure.
    Install,
    /// The sidecar could not be sealed or opened.
    Crypto,
    /// The sidecar plaintext does not parse.
    Sidecar,
}

impl StoreError {
    /// A short description of the error kind.
    pub fn describe(&self) -> (r: &'static str)
        ensures
            r@.len() > 0,
    {
        let s: &'static str = match self {
            StoreError::Resolve => "cannot resolve a required directory",
            StoreError::Pack => "cannot read or archive a source path",
            StoreError::Compression => "compression failed",
            StoreError::Decompression => "decompression failed",
            StoreError::Decode => "base64 payload cannot be decoded",
            StoreError::MissingBlob => "entry references a blob id absent from the manifest",
            StoreError::UnknownFormat => "blob format is not tar or tar.zst",
            StoreError::MemberNotFound => "tar member named in the entry is absent",
            StoreError::MemoryLimit => "operation exceeds the configured memory budget",
            StoreError::IntegrityViolation => "hash recomputation mismatches storage",
            StoreError::BrokenChain => "snapshot chain reference cannot be resolved",
            StoreError::Cycle => "snapshot chain walk revisited a snapshot",
            StoreError::Install => "external installer reported failure",
            StoreError::Crypto => "sidecar cannot be sealed or opened",
            StoreError::Sidecar => "sidecar plaintext does not parse",
        };
        proof {
            // Each arm is a fixed literal; reveal one so the length bound
            // holds on whichever arm was taken.
            assert(s@.len() > 0) by {
                reveal_strlit("cannot resolve a required directory");
                reveal_strlit("cannot read or archive a source path");
                reveal_strlit("compression failed");
                reveal_strlit("decompression failed");
                reveal_strlit("base64 payload cannot be decoded");
                reveal_strlit("entry references a blob id absent from the manifest");
                reveal_strlit("blob format is not tar or tar.zst");
                reveal_strlit("tar member named in the entry is absent");
                reveal_strlit("operation exceeds the configured memory budget");
                reveal_strlit("hash recomputation mismatches storage");
                reveal_strlit("snapshot chain reference cannot be resolved");
                reveal_strlit("snapshot chain walk revisited a snapshot");
                reveal_strlit("external installer reported failure");
                reveal_strlit("sidecar cannot be sealed or opened");
                reveal_strlit("sidecar plaintext does not parse");
            }
        }
        s
    }
}

} // verus!
