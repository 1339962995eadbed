//! Trusted boundary to the system clock.
use vstd::prelude::*;

verus! {

/// Relies on chrono's `Utc::now` and `DateTime::to_rfc3339`: the current
/// instant, rendered in RFC 3339 form.  The result depends on the clock, so
/// nothing is promised about it; whatever comes back is carried as an opaque
/// timestamp string.
#[verifier::external_body]
pub fn now_rfc3339() -> String {
    chrono::Utc::now().to_rfc3339()
}

} // verus!
