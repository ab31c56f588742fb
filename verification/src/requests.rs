use vstd::prelude::*;

use crate::errors::FieldError;

verus! {

/// The fewest characters a password may have.
pub const MIN_PASSWORD_CHARS: usize = 8;

/// Whether the well-formed-email check accepts the string; a fixed
/// function of the characters alone.
pub uninterp spec fn valid_email(s: Seq<char>) -> bool;

/// Relies on validator::ValidateEmail::validate_email for strings, the
/// HTML5 well-formed-email check: deterministic in the string, and an
/// empty string is never accepted.
#[verifier::external_body]
fn check_email(s: &String) -> (r: bool)
    ensures
        r == valid_email(s@),
        s@.len() == 0 ==> !r,
{
    validator::ValidateEmail::validate_email(s)
}

/// Counts the characters of a string.
fn char_len(s: &String) -> (r: usize)
    ensures
        r == s@.len(),
{
    s.as_str().unicode_len()
}

/// A sign-up request, as handed to the library once the transport has
/// decoded it into plain values.
pub struct SignUpRequestDto {
    pub email: String,
    pub password: String,
    pub first_name: String,
    pub last_name: String,
}

/// Every violation in a sign-up request, in field order: email well-formed,
/// password of at least `MIN_PASSWORD_CHARS` characters, names non-empty.
pub open spec fn sign_up_violations(
    email: Seq<char>,
    password: Seq<char>,
    first_name: Seq<char>,
    last_name: Seq<char>,
) -> Seq<FieldError> {
    (if !valid_email(email) {
        seq![FieldError::EmailMalformed]
    } else {
        Seq::empty()
    }) + (if password.len() < MIN_PASSWORD_CHARS {
        seq![FieldError::PasswordTooShort]
    } else {
        Seq::empty()
    }) + (if first_name.len() == 0 {
        seq![FieldError::FirstNameEmpty]
    } else {
        Seq::empty()
    }) + (if last_name.len() == 0 {
        seq![FieldError::LastNameEmpty]
    } else {
        Seq::empty()
    })
}

impl SignUpRequestDto {
    /// Collects every violation, not only the first.
    pub fn violations(&self) -> (r: Vec<FieldError>)
        ensures
            r@ == sign_up_violations(self.email@, self.password@, self.first_name@, self.last_name@),
    {
        let mut v: Vec<FieldError> = Vec::new();
        if !check_email(&self.email) {
            v.push(FieldError::EmailMalformed);
        }
        if char_len(&self.password) < MIN_PASSWORD_CHARS {
            v.push(FieldError::PasswordTooShort);
        }
        if char_len(&self.first_name) == 0 {
            v.push(FieldError::FirstNameEmpty);
        }
        if char_len(&self.last_name) == 0 {
            v.push(FieldError::LastNameEmpty);
        }
        proof {
            assert(v@ =~= sign_up_violations(
                self.email@,
                self.password@,
                self.first_name@,
                self.last_name@,
            ));
        }
        v
    }
}

/// A login request.
pub struct LoginRequestDto {
    pub email: String,
    pub password: String,
}

/// Every violation in a login request: email well-formed, password present.
pub open spec fn login_violations(email: Seq<char>, password: Seq<char>) -> Seq<FieldError> {
    (if !valid_email(email) {
        seq![FieldError::EmailMalformed]
    } else {
        Seq::empty()
    }) + (if password.len() == 0 {
        seq![FieldError::PasswordEmpty]
    } else {
        Seq::empty()
    })
}

impl LoginRequestDto {
    /// Collects every violation, not only the first.
    pub fn violations(&self) -> (r: Vec<FieldError>)
        ensures
            r@ == login_violations(self.email@, self.password@),
    {
        let mut v: Vec<FieldError> = Vec::new();
        if !check_email(&self.email) {
            v.push(FieldError::EmailMalformed);
        }
        if char_len(&self.password) == 0 {
            v.push(FieldError::PasswordEmpty);
        }
        proof {
            assert(v@ =~= login_violations(self.email@, self.password@));
        }
        v
    }
}

/// A forgot-password request.
pub struct ForgotPasswordRequestDto {
    pub email: String,
}

/// Every violation in a forgot-password request: email well-formed.
pub open spec fn forgot_password_violations(email: Seq<char>) -> Seq<FieldError> {
    if !valid_email(email) {
        seq![FieldError::EmailMalformed]
    } else {
        Seq::empty()
    }
}

impl ForgotPasswordRequestDto {
    pub fn violations(&self) -> (r: Vec<FieldError>)
        ensures
            r@ == forgot_password_violations(self.email@),
    {
        let mut v: Vec<FieldError> = Vec::new();
        if !check_email(&self.email) {
            v.push(FieldError::EmailMalformed);
        }
        proof {
            assert(v@ =~= forgot_password_violations(self.email@));
        }
        v
    }
}

/// A reset-password request.
pub struct ResetPasswordRequestDto {
    pub token: String,
    pub new_password: String,
}

/// Every violation in a reset-password request: token present, new
/// password of at least `MIN_PASSWORD_CHARS` characters.
pub open spec fn reset_password_violations(token: Seq<char>, new_password: Seq<char>) -> Seq<
    FieldError,
> {
    (if token.len() == 0 {
        seq![FieldError::TokenEmpty]
    } else {
        Seq::empty()
    }) + (if new_password.len() < MIN_PASSWORD_CHARS {
        seq![FieldError::PasswordTooShort]
    } else {
        Seq::empty()
    })
}

impl ResetPasswordRequestDto {
    pub fn violations(&self) -> (r: Vec<FieldError>)
        ensures
            r@ == reset_password_violations(self.token@, self.new_password@),
    {
        let mut v: Vec<FieldError> = Vec::new();
        if char_len(&self.token) == 0 {
            v.push(FieldError::TokenEmpty);
        }
        if char_len(&self.new_password) < MIN_PASSWORD_CHARS {
            v.push(FieldError::PasswordTooShort);
        }
        proof {
            assert(v@ =~= reset_password_violations(self.token@, self.new_password@));
        }
        v
    }
}

/// A token-validation request.
pub struct ValidateTokenRequestDto {
    pub access_token: String,
}

/// Every violation in a token-validation request: token present.
pub open spec fn validate_token_violations(access_token: Seq<char>) -> Seq<FieldError> {
    if access_token.len() == 0 {
        seq![FieldError::TokenEmpty]
    } else {
        Seq::empty()
    }
}

impl ValidateTokenRequestDto {
    pub fn violations(&self) -> (r: Vec<FieldError>)
        ensures
            r@ == validate_token_violations(self.access_token@),
    {
        let mut v: Vec<FieldError> = Vec::new();
        if char_len(&self.access_token) == 0 {
            v.push(FieldError::TokenEmpty);
        }
        proof {
            assert(v@ =~= validate_token_violations(self.access_token@));
        }
        v
    }
}

} // verus!
