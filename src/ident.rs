//! Fresh random identifiers for license keys and download tokens.
use vstd::prelude::*;

verus! {

/// Relies on uuid's `Uuid::new_v4` and its `Display` (lower-case hyphenated
/// form): a random identifier of 36 characters.
#[verifier::external_body]
pub(crate) fn fresh_key() -> (r: String)
    ensures
        r@.len() == 36,
{
    uuid::Uuid::new_v4().to_string()
}

} // verus!
