use auth_core::codec::{TokenManager, ACCESS_TOKEN_LIFETIME_SECS, EXPIRY_LEEWAY_SECS};
use auth_core::errors::TokenError;

fn manager() -> TokenManager {
    TokenManager::new(String::from("a-test-signing-secret"))
}

#[test]
fn issue_then_verify_round_trips() {
    let tm = manager();
    let user_id = String::from("user-42");
    let (token, expires_at) = tm.issue_at(&user_id, ACCESS_TOKEN_LIFETIME_SECS, 1000).unwrap();
    assert_eq!(expires_at, 1000 + ACCESS_TOKEN_LIFETIME_SECS);
    let claims = tm.verify_at(&token, 1000).unwrap();
    assert_eq!(claims.sub, "user-42");
    assert_eq!(claims.iat, 1000);
    assert_eq!(claims.exp, 1000 + ACCESS_TOKEN_LIFETIME_SECS);
}

#[test]
fn verify_honours_leeway_then_expires() {
    let tm = manager();
    let user_id = String::from("user-42");
    let (token, expires_at) = tm.issue_at(&user_id, 3600, 1000).unwrap();
    // Exactly at the expiry plus the documented leeway: still accepted.
    let at_edge = tm.verify_at(&token, expires_at + EXPIRY_LEEWAY_SECS);
    assert!(at_edge.is_ok());
    // One second past the leeway: rejected as expired.
    let too_late = tm.verify_at(&token, expires_at + EXPIRY_LEEWAY_SECS + 1);
    assert_eq!(too_late.unwrap_err(), TokenError::Expired);
}

#[test]
fn verify_rejects_tampered_token() {
    let tm = manager();
    let user_id = String::from("user-42");
    let (token, _) = tm.issue_at(&user_id, 3600, 1000).unwrap();
    // Flip one character of the payload segment: the signature no longer
    // covers what the token now says.
    let dot = token.find('.').unwrap();
    let mut bytes = token.into_bytes();
    let pos = dot + 1;
    bytes[pos] = if bytes[pos] == b'e' { b'f' } else { b'e' };
    let tampered = String::from_utf8(bytes).unwrap();
    let r = tm.verify_at(&tampered, 1000);
    assert_eq!(r.unwrap_err(), TokenError::InvalidSignature);
}

#[test]
fn verify_rejects_wrong_secret() {
    let tm = manager();
    let other = TokenManager::new(String::from("a-different-secret"));
    let user_id = String::from("user-42");
    let (token, _) = tm.issue_at(&user_id, 3600, 1000).unwrap();
    let r = other.verify_at(&token, 1000);
    assert_eq!(r.unwrap_err(), TokenError::InvalidSignature);
}

#[test]
fn verify_rejects_garbage() {
    let tm = manager();
    let r = tm.verify_at(&String::from("not-a-token"), 1000);
    assert_eq!(r.unwrap_err(), TokenError::Malformed);
    let r2 = tm.verify_at(&String::new(), 1000);
    assert!(r2.is_err());
}

#[test]
fn clock_based_issuance_and_validation() {
    let tm = manager();
    let user_id = String::from("user-7");
    let (access, _exp) = tm.generate_access_token(&user_id).unwrap();
    let claims = tm.validate_token(&access).unwrap();
    assert_eq!(claims.sub, "user-7");
    let (refresh, refresh_exp) = tm.generate_refresh_token(&user_id).unwrap();
    let refresh_claims = tm.validate_token(&refresh).unwrap();
    assert_eq!(refresh_claims.exp, refresh_exp);
    assert_eq!(refresh_exp - refresh_claims.iat, 604800);
}
