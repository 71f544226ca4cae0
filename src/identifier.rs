//! Fresh identifiers for the objects the engine creates.
use vstd::prelude::*;

verus! {

/// Relies on `uuid::Uuid::new_v4`, written in its hyphenated form of 36
/// characters by `Display`. The value is random: nothing else is stated.
#[verifier::external_body]
pub(crate) fn new_identifier() -> (r: String)
    ensures
        r@.len() == 36,
{
    uuid::Uuid::new_v4().to_string()
}

} // verus!
