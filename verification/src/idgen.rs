//! Trusted boundary to the random message-id generator.
use vstd::prelude::*;

verus! {

/// Relies on uuid's `Uuid::new_v4` and its `Display` form: a fresh random
/// identifier rendered hyphenated, which is exactly 36 characters.  The value
/// itself is random, so no more is promised.
#[verifier::external_body]
pub fn new_message_id() -> (r: String)
    ensures
        r@.len() == 36,
{
    uuid::Uuid::new_v4().to_string()
}

} // verus!
