//! The one clock read the engine makes: a timestamp for sidecar updates.

use vstd::prelude::*;

verus! {

/// Relies on `chrono::Utc::now` and `to_rfc3339`: the current time as an
/// RFC 3339 string.  The time is the machine's; no contract constrains it.
#[verifier::external_body]
pub(crate) fn current_timestamp() -> (r: String) {
    chrono::Utc::now().to_rfc3339()
}

} // verus!
