//! A manifest entry: one logical artifact bound to the blob that holds it.

use vstd::prelude::*;

verus! {

/// A record inside a manifest binding a logical location to a blob.
#[derive(Debug, Clone)]
pub struct Entry {
    /// Opaque tag the engine forwards to the application adapter to
    /// resolve destination paths, such as `app:zed`.
    pub target_hint: String,
    /// Origin path on the source host, informational.
    pub logical_path: String,
    /// The hex content hash of the referenced blob.
    pub blob_id: String,
    /// When present, the single tar member to extract on restore; when
    /// absent, the blob holds a whole directory tree.
    pub tar_member: Option<String>,
}

} // verus!
