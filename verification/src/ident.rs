use vstd::prelude::*;

verus! {

/// Relies on uuid::Uuid::new_v4: a random identifier whose hyphenated text
/// form is always 36 characters. Nothing more can be promised of a random
/// value; in particular, freshness across calls is not assumed anywhere.
#[verifier::external_body]
pub(crate) fn fresh_uuid() -> (r: String)
    ensures
        r@.len() == 36,
{
    uuid::Uuid::new_v4().to_string()
}

} // verus!
