//! Fresh-identifier generation. Every row is keyed by a random UUID drawn
//! here; nothing is promised about the draw beyond its written shape, so the
//! store operations check freshness themselves before inserting.

use vstd::prelude::*;

verus! {

/// Relies on `uuid::Uuid::new_v4` and its `Display` impl: a random
/// version-4 UUID written in the 36-character hyphenated form.
/// The value is random, so nothing is stated beyond its length.
#[verifier::external_body]
pub(crate) fn random_uuid() -> (r: String)
    ensures
        r@.len() == 36,
{
    uuid::Uuid::new_v4().to_string()
}

} // verus!
