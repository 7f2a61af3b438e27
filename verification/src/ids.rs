//! Fresh identifiers for rows the server creates.
use vstd::prelude::*;

verus! {

/// Relies on uuid's `Uuid::new_v4` and its `Display` (the hyphenated
/// form): 36 characters of hex digits and hyphens. The value is random,
/// so nothing more is promised of it.
#[verifier::external_body]
pub fn fresh_uuid() -> (r: String)
    ensures
        r@.len() == 36,
{
    uuid::Uuid::new_v4().to_string()
}

} // verus!
