use vstd::prelude::*;

use argon2::{Argon2, PasswordHasher, PasswordVerifier};

verus! {

/// Whether argon2's verifier accepts `password` against the encoded hash
/// string `hash`. The hash string carries its own salt and parameters, so
/// the outcome is a fixed function of these two arguments alone.
pub uninterp spec fn password_matches(password: Seq<char>, hash: Seq<char>) -> bool;

/// Relies on argon2::Argon2::hash_password with a freshly drawn random
/// salt. Whatever salt is drawn, the encoded hash it returns verifies
/// against the same password, and the encoded form is never empty.
#[verifier::external_body]
pub(crate) fn hash_password(password: &String) -> (r: Option<String>)
    ensures
        r matches Some(h) ==> password_matches(password@, h@) && h@.len() > 0,
{
    Argon2::default().hash_password(password.as_bytes()).ok().map(|h| h.to_string())
}

/// Relies on argon2::Argon2::verify_password, which compares in constant
/// time and depends on the password and the encoded hash alone.
#[verifier::external_body]
pub(crate) fn verify_password(password: &String, hash: &String) -> (r: bool)
    ensures
        r == password_matches(password@, hash@),
{
    Argon2::default().verify_password(password.as_bytes(), hash.as_str()).is_ok()
}

} // verus!
