//! The wall clock, as the one thing the task rules cannot compute.

use vstd::prelude::*;

verus! {

/// The present moment in UTC, written as RFC 3339 text.
///
/// Trusted: the body calls `chrono::Utc::now` and renders the instant with
/// `chrono::DateTime::to_rfc3339`. Nothing is claimed of the text, since it
/// differs from call to call; callers are verified for every string. chrono
/// stops the program if the system clock reads a time before 1970.
#[verifier::external_body]
pub(crate) fn utc_now_rfc3339() -> (stamp: String) {
    chrono::Utc::now().to_rfc3339()
}

} // verus!
