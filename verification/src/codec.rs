use vstd::prelude::*;

use jsonwebtoken::errors::ErrorKind;
use jsonwebtoken::{decode, encode, DecodingKey, EncodingKey, Header, Validation};
use serde_json::Value;

use crate::clock::unix_now;
use crate::errors::TokenError;

verus! {

/// Clock-skew tolerance granted when checking expiry, in seconds.
pub const EXPIRY_LEEWAY_SECS: u64 = 60;

/// Lifetime of an access token, in seconds (one hour).
pub const ACCESS_TOKEN_LIFETIME_SECS: u64 = 3600;

/// Lifetime of a refresh token, in seconds (seven days).
pub const REFRESH_TOKEN_LIFETIME_SECS: u64 = 604800;

/// The payload carried by a signed bearer token: subject identity and the
/// two timestamps, in unix seconds. Constructed at issuance, reconstructed
/// at verification, never persisted.
#[derive(Debug)]
pub struct Claims {
    /// Subject: the user id this token was issued for.
    pub sub: String,
    /// Expiry time, unix seconds.
    pub exp: u64,
    /// Issuance time, unix seconds.
    pub iat: u64,
}

/// The compact signed token that jsonwebtoken's `encode` produces, under the
/// default HMAC-SHA-256 header, for the given secret and claims. The result
/// is a fixed function of these arguments alone.
pub uninterp spec fn token_of(secret: Seq<char>, sub: Seq<char>, iat: u64, exp: u64) -> Seq<char>;

/// Relies on jsonwebtoken::encode with `Header::default()` (HMAC-SHA-256):
/// the compact token it returns depends only on the secret and the claims.
/// On these inputs the call cannot fail: the key family matches the
/// header's algorithm, HMAC accepts a key of any length, and serializing
/// the default header and a JSON value is infallible.
#[verifier::external_body]
fn jwt_encode(secret: &String, claims: &Claims) -> (r: Option<String>)
    ensures
        r is Some,
        r matches Some(t) ==> t@ == token_of(secret@, claims.sub@, claims.iat, claims.exp),
{
    let mut m = serde_json::Map::new();
    m.insert("sub".to_string(), Value::from(claims.sub.as_str()));
    m.insert("iat".to_string(), Value::from(claims.iat));
    m.insert("exp".to_string(), Value::from(claims.exp));
    encode(&Header::default(), &Value::Object(m), &EncodingKey::from_secret(secret.as_bytes())).ok()
}

/// Holds when `r` accepts every reading of `token` as a token signed with
/// `secret`: whenever the token is exactly what signing some claims with
/// this secret produces, decoding returns those claims.
pub open spec fn decode_is_complete(
    secret: Seq<char>,
    token: Seq<char>,
    r: Result<Claims, TokenError>,
) -> bool {
    forall|sub: Seq<char>, iat: u64, exp: u64|
        token == #[trigger] token_of(secret, sub, iat, exp)
            ==> (r matches Ok(c) && c.sub@ == sub && c.iat == iat && c.exp == exp)
}

/// Relies on jsonwebtoken::decode: a token in the canonical form that
/// signing claims with `secret` produces is returned as exactly those
/// claims. No converse is claimed: decode verifies the signature over the
/// token's bytes as given, so other byte forms of the same signed claims
/// may be accepted too. Expiry is deliberately not checked here (the
/// caller checks it in verified code), so the result depends on the
/// secret and token alone.
#[verifier::external_body]
fn jwt_decode(secret: &String, token: &String) -> (r: Result<Claims, TokenError>)
    ensures
        r matches Err(e) ==> (e == TokenError::InvalidSignature || e == TokenError::Malformed),
        decode_is_complete(secret@, token@, r),
{
    let mut v = Validation::default();
    v.validate_exp = false;
    let d = match decode::<Value>(token, &DecodingKey::from_secret(secret.as_bytes()), &v) {
        Ok(d) => d,
        Err(e) => return Err(if matches!(e.kind(), ErrorKind::InvalidSignature) { TokenError::InvalidSignature } else { TokenError::Malformed }),
    };
    let sub = d.claims.get("sub").and_then(Value::as_str);
    let iat = d.claims.get("iat").and_then(Value::as_u64);
    let exp = d.claims.get("exp").and_then(Value::as_u64);
    match (sub, iat, exp) {
        (Some(s), Some(i), Some(e)) => Ok(Claims { sub: s.to_string(), exp: e, iat: i }),
        _ => Err(TokenError::Malformed),
    }
}

/// Holds when the verification outcome `r`, taken at wall-clock time
/// `now`, treats every reading of `token` as a signed token exactly:
/// whenever the token is what signing `(sub, iat, exp)` with `secret`
/// produces, it is accepted with those very claims while
/// `now <= exp + EXPIRY_LEEWAY_SECS` and rejected as expired after.
pub open spec fn verify_is_exact(
    secret: Seq<char>,
    token: Seq<char>,
    now: u64,
    r: Result<Claims, TokenError>,
) -> bool {
    forall|sub: Seq<char>, iat: u64, exp: u64|
        token == #[trigger] token_of(secret, sub, iat, exp) ==> if now <= exp
            + EXPIRY_LEEWAY_SECS {
            (r matches Ok(c) && c.sub@ == sub && c.iat == iat && c.exp == exp)
        } else {
            r == Err::<Claims, TokenError>(TokenError::Expired)
        }
}

/// Law: issuing then verifying round-trips. A token issued for subject
/// `sub` at time `iat` with lifetime `lifetime` — that is, the token
/// `token_of(secret, sub, iat, iat + lifetime)` that `issue_at` returns —
/// is accepted by any verification taken at or before the expiry plus the
/// documented leeway, and yields exactly the subject and timestamps it was
/// issued with.
pub proof fn lemma_issue_then_verify(
    secret: Seq<char>,
    sub: Seq<char>,
    iat: u64,
    lifetime: u64,
    check: u64,
    r: Result<Claims, TokenError>,
)
    requires
        iat + lifetime <= u64::MAX,
        check <= iat + lifetime + EXPIRY_LEEWAY_SECS,
        verify_is_exact(secret, token_of(secret, sub, iat, (iat + lifetime) as u64), check, r),
    ensures
        r matches Ok(c) && c.sub@ == sub && c.iat == iat && c.exp == iat + lifetime,
{
}

/// Law: once the wall clock passes the expiry by more than the documented
/// leeway, verification of the same token fails as `Expired`.
pub proof fn lemma_verify_after_expiry(
    secret: Seq<char>,
    sub: Seq<char>,
    iat: u64,
    exp: u64,
    check: u64,
    r: Result<Claims, TokenError>,
)
    requires
        check > exp + EXPIRY_LEEWAY_SECS,
        verify_is_exact(secret, token_of(secret, sub, iat, exp), check, r),
    ensures
        r == Err::<Claims, TokenError>(TokenError::Expired),
{
}

/// Stateless signing and verification of compact bearer tokens, built
/// around a single process-wide secret that is injected at construction
/// and immutable thereafter.
pub struct TokenManager {
    secret: String,
}

impl TokenManager {
    /// The signing secret, as contracts speak of it.
    pub closed spec fn secret_view(&self) -> Seq<char> {
        self.secret@
    }

    pub fn new(secret: String) -> (r: TokenManager)
        ensures
            r.secret_view() == secret@,
    {
        TokenManager { secret }
    }

    /// Issues a token for `user_id` whose claims carry `issued_at == now`
    /// and `expires_at == now + lifetime`, signed with the manager's secret.
    pub fn issue_at(&self, user_id: &String, lifetime: u64, now: u64) -> (r: Result<
        (String, u64),
        (),
    >)
        requires
            now + lifetime <= u64::MAX,
        ensures
            r is Ok,
            r matches Ok(p) ==> p.0@ == token_of(
                self.secret_view(),
                user_id@,
                now,
                (now + lifetime) as u64,
            ) && p.1 == now + lifetime,
    {
        let exp = now + lifetime;
        let claims = Claims { sub: user_id.clone(), exp, iat: now };
        match jwt_encode(&self.secret, &claims) {
            Some(t) => Ok((t, exp)),
            None => Err(()),
        }
    }

    /// Verifies `token` at wall-clock time `now`: the signature is checked
    /// first, and only then the expiry, with a tolerance of
    /// `EXPIRY_LEEWAY_SECS` for clock skew. A token this manager issued for
    /// `(sub, iat, exp)` is accepted with exactly those claims while
    /// `now <= exp + EXPIRY_LEEWAY_SECS`, and rejected as `Expired` after.
    pub fn verify_at(&self, token: &String, now: u64) -> (r: Result<Claims, TokenError>)
        ensures
            r matches Ok(c) ==> now <= c.exp + EXPIRY_LEEWAY_SECS,
            verify_is_exact(self.secret_view(), token@, now, r),
            r matches Err(e) ==> (e == TokenError::InvalidSignature || e == TokenError::Expired
                || e == TokenError::Malformed),
    {
        match jwt_decode(&self.secret, token) {
            Ok(c) => {
                if now > EXPIRY_LEEWAY_SECS && now - EXPIRY_LEEWAY_SECS > c.exp {
                    Err(TokenError::Expired)
                } else {
                    Ok(c)
                }
            },
            Err(e) => Err(e),
        }
    }

    /// Issues an access token (one-hour lifetime) at the current wall clock.
    pub fn generate_access_token(&self, user_id: &String) -> (r: Result<(String, u64), ()>)
        ensures
            r is Ok,
            r matches Ok(p) ==> exists|now: u64|
                now + ACCESS_TOKEN_LIFETIME_SECS <= u64::MAX && p.0@ == #[trigger] token_of(
                    self.secret_view(),
                    user_id@,
                    now,
                    (now + ACCESS_TOKEN_LIFETIME_SECS) as u64,
                ) && p.1 == now + ACCESS_TOKEN_LIFETIME_SECS,
    {
        let now = unix_now();
        self.issue_at(user_id, ACCESS_TOKEN_LIFETIME_SECS, now)
    }

    /// Issues a refresh token (seven-day lifetime) at the current wall clock.
    pub fn generate_refresh_token(&self, user_id: &String) -> (r: Result<(String, u64), ()>)
        ensures
            r is Ok,
            r matches Ok(p) ==> exists|now: u64|
                now + REFRESH_TOKEN_LIFETIME_SECS <= u64::MAX && p.0@ == #[trigger] token_of(
                    self.secret_view(),
                    user_id@,
                    now,
                    (now + REFRESH_TOKEN_LIFETIME_SECS) as u64,
                ) && p.1 == now + REFRESH_TOKEN_LIFETIME_SECS,
    {
        let now = unix_now();
        self.issue_at(user_id, REFRESH_TOKEN_LIFETIME_SECS, now)
    }

    /// Verifies `token` against the current wall clock: for some reading
    /// of the clock, the outcome is exact, so a token this manager issued
    /// is either accepted with its own claims or rejected as `Expired`,
    /// never anything else.
    pub fn validate_token(&self, token: &String) -> (r: Result<Claims, TokenError>)
        ensures
            exists|now: u64| #[trigger] verify_is_exact(self.secret_view(), token@, now, r),
            r matches Err(e) ==> (e == TokenError::InvalidSignature || e == TokenError::Expired
                || e == TokenError::Malformed),
    {
        let now = unix_now();
        self.verify_at(token, now)
    }
}

} // verus!
