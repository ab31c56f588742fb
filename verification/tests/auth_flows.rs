use auth_core::errors::{AuthError, FieldError};
use auth_core::orchestrator::AuthOrchestrator;
use auth_core::requests::{
    ForgotPasswordRequestDto, LoginRequestDto, ResetPasswordRequestDto, SignUpRequestDto,
    ValidateTokenRequestDto,
};
use auth_core::Settings;

fn orchestrator() -> AuthOrchestrator {
    AuthOrchestrator::new(String::from("flow-test-secret"))
}

fn alice_sign_up() -> SignUpRequestDto {
    SignUpRequestDto {
        email: String::from("alice@example.com"),
        password: String::from("CorrectHorse9"),
        first_name: String::from("Alice"),
        last_name: String::from("Smith"),
    }
}

fn login_req(email: &str, password: &str) -> LoginRequestDto {
    LoginRequestDto { email: String::from(email), password: String::from(password) }
}

#[test]
fn sign_up_returns_profile_without_hash() {
    let mut auth = orchestrator();
    let user = auth.sign_up(&alice_sign_up(), 1000).unwrap();
    assert_eq!(user.email, "alice@example.com");
    assert_eq!(user.first_name, "Alice");
    assert_eq!(user.last_name, "Smith");
    assert_eq!(user.password_hash, "");
    assert_eq!(user.created_at, 1000);
    assert!(user.is_active);
    assert!(!user.is_verified);
}

#[test]
fn sign_up_rejects_duplicate_email_without_mutation() {
    let mut auth = orchestrator();
    auth.sign_up(&alice_sign_up(), 1000).unwrap();
    let again = SignUpRequestDto { password: String::from("OtherPass123"), ..alice_sign_up() };
    let r = auth.sign_up(&again, 2000);
    assert_eq!(r.unwrap_err(), AuthError::AlreadyExists);
    // The stored record still carries the original password.
    let ok = auth.login(&login_req("alice@example.com", "CorrectHorse9"), 3000);
    assert!(ok.is_ok());
    let bad = auth.login(&login_req("alice@example.com", "OtherPass123"), 3000);
    assert_eq!(bad.unwrap_err(), AuthError::Unauthorized);
}

#[test]
fn sign_up_reports_every_violation() {
    let mut auth = orchestrator();
    let req = SignUpRequestDto {
        email: String::from("not-an-email"),
        password: String::from("short"),
        first_name: String::new(),
        last_name: String::from("Smith"),
    };
    let r = auth.sign_up(&req, 1000);
    match r.unwrap_err() {
        AuthError::ValidationFailed(violations) => {
            assert_eq!(
                violations,
                vec![
                    FieldError::EmailMalformed,
                    FieldError::PasswordTooShort,
                    FieldError::FirstNameEmpty,
                ],
            );
        },
        other => panic!("expected a validation failure, got {:?}", other.message()),
    }
}

#[test]
fn login_does_not_reveal_whether_email_exists() {
    let mut auth = orchestrator();
    auth.sign_up(&alice_sign_up(), 1000).unwrap();
    let wrong_password = auth.login(&login_req("alice@example.com", "WrongPass123"), 2000);
    let unknown_email = auth.login(&login_req("nobody@example.com", "WrongPass123"), 2000);
    let e1 = wrong_password.unwrap_err();
    let e2 = unknown_email.unwrap_err();
    assert_eq!(e1, AuthError::Unauthorized);
    assert_eq!(e2, AuthError::Unauthorized);
    assert_eq!(e1.message(), e2.message());
}

#[test]
fn login_issues_tokens_and_records_refresh() {
    let mut auth = orchestrator();
    let created = auth.sign_up(&alice_sign_up(), 1000).unwrap();
    let out = auth.login(&login_req("alice@example.com", "CorrectHorse9"), 2000).unwrap();
    assert_eq!(out.expires_at, 2000 + 3600);
    assert_eq!(out.user.id, created.id);
    assert_eq!(out.user.last_login_at, Some(2000));
    let held = auth.sessions.refresh_token_for(&created.id, 2500);
    assert_eq!(held.as_deref(), Some(out.refresh_token.as_str()));
}

#[test]
fn end_to_end_sign_up_login_validate() {
    let mut auth = orchestrator();
    let created = auth.sign_up(&alice_sign_up(), 1000).unwrap();
    let out = auth.login(&login_req("alice@example.com", "CorrectHorse9"), 2000).unwrap();
    let req = ValidateTokenRequestDto { access_token: out.access_token };
    let fresh = auth.validate_token(&req, 2010);
    assert!(fresh.valid);
    assert_eq!(fresh.user.unwrap().id, created.id);
    // Past the one-hour lifetime (and the leeway), the same token is
    // rejected, with the same non-specific message as any other failure.
    let stale = auth.validate_token(&req, 2000 + 3600 + 61);
    assert!(!stale.valid);
    assert!(stale.user.is_none());
    let garbage = auth.validate_token(
        &ValidateTokenRequestDto { access_token: String::from("junk") },
        2010,
    );
    assert_eq!(stale.message, garbage.message);
}

#[test]
fn end_to_end_password_reset_is_single_use() {
    let mut auth = orchestrator();
    auth.sign_up(&alice_sign_up(), 1000).unwrap();
    let forgot = ForgotPasswordRequestDto { email: String::from("alice@example.com") };
    let outcome = auth.forgot_password(&forgot, 2000).unwrap();
    let (sent_to, reset_token) = outcome.dispatch.unwrap();
    assert_eq!(sent_to, "alice@example.com");
    let reset = ResetPasswordRequestDto {
        token: reset_token.clone(),
        new_password: String::from("NewPass123"),
    };
    assert!(auth.reset_password(&reset, 2100).is_ok());
    // The same token cannot be redeemed twice.
    let replay = auth.reset_password(&reset, 2200);
    assert_eq!(replay.unwrap_err(), AuthError::InvalidOrExpiredToken);
    // The old password no longer works and the new one does.
    let old = auth.login(&login_req("alice@example.com", "CorrectHorse9"), 2300);
    assert_eq!(old.unwrap_err(), AuthError::Unauthorized);
    assert!(auth.login(&login_req("alice@example.com", "NewPass123"), 2300).is_ok());
}

#[test]
fn reset_password_drops_refresh_token() {
    let mut auth = orchestrator();
    let created = auth.sign_up(&alice_sign_up(), 1000).unwrap();
    auth.login(&login_req("alice@example.com", "CorrectHorse9"), 2000).unwrap();
    assert!(auth.sessions.refresh_token_for(&created.id, 2050).is_some());
    let forgot = ForgotPasswordRequestDto { email: String::from("alice@example.com") };
    let outcome = auth.forgot_password(&forgot, 2100).unwrap();
    let (_, reset_token) = outcome.dispatch.unwrap();
    let reset = ResetPasswordRequestDto { token: reset_token, new_password: String::from("NewPass123") };
    auth.reset_password(&reset, 2200).unwrap();
    assert!(auth.sessions.refresh_token_for(&created.id, 2250).is_none());
}

#[test]
fn reset_token_expires_after_its_ttl() {
    let mut auth = orchestrator();
    auth.sign_up(&alice_sign_up(), 1000).unwrap();
    let forgot = ForgotPasswordRequestDto { email: String::from("alice@example.com") };
    let outcome = auth.forgot_password(&forgot, 2000).unwrap();
    let (_, reset_token) = outcome.dispatch.unwrap();
    let reset = ResetPasswordRequestDto { token: reset_token, new_password: String::from("NewPass123") };
    let late = auth.reset_password(&reset, 2000 + 3600);
    assert_eq!(late.unwrap_err(), AuthError::InvalidOrExpiredToken);
}

#[test]
fn forgot_password_answers_alike_for_unknown_email() {
    let mut auth = orchestrator();
    auth.sign_up(&alice_sign_up(), 1000).unwrap();
    let known = auth
        .forgot_password(&ForgotPasswordRequestDto { email: String::from("alice@example.com") }, 2000)
        .unwrap();
    let unknown = auth
        .forgot_password(&ForgotPasswordRequestDto { email: String::from("nobody@example.com") }, 2000)
        .unwrap();
    assert_eq!(known.message, unknown.message);
    assert!(known.dispatch.is_some());
    assert!(unknown.dispatch.is_none());
}

#[test]
fn reset_password_not_found_when_user_is_gone() {
    let mut auth = orchestrator();
    // A reset token that maps to no stored account: the consume succeeds,
    // so the answer is NotFound rather than InvalidOrExpiredToken, and the
    // token is still burned.
    auth.sessions.store_reset_token(&String::from("tok-x"), &String::from("ghost-user"), 3600, 100);
    let reset = ResetPasswordRequestDto {
        token: String::from("tok-x"),
        new_password: String::from("NewPass123"),
    };
    assert_eq!(auth.reset_password(&reset, 200).unwrap_err(), AuthError::NotFound);
    assert_eq!(auth.reset_password(&reset, 300).unwrap_err(), AuthError::InvalidOrExpiredToken);
}

#[test]
fn reset_password_validates_input() {
    let mut auth = orchestrator();
    let reset = ResetPasswordRequestDto { token: String::new(), new_password: String::from("tiny") };
    match auth.reset_password(&reset, 1000).unwrap_err() {
        AuthError::ValidationFailed(violations) => {
            assert_eq!(violations, vec![FieldError::TokenEmpty, FieldError::PasswordTooShort]);
        },
        other => panic!("expected a validation failure, got {:?}", other.message()),
    }
}

#[test]
fn login_validates_input() {
    let mut auth = orchestrator();
    let req = login_req("not-an-email", "");
    match auth.login(&req, 1000).unwrap_err() {
        AuthError::ValidationFailed(violations) => {
            assert_eq!(violations, vec![FieldError::EmailMalformed, FieldError::PasswordEmpty]);
        },
        other => panic!("expected a validation failure, got {:?}", other.message()),
    }
}

#[test]
fn forgot_password_rejects_malformed_email() {
    let mut auth = orchestrator();
    let r = auth.forgot_password(&ForgotPasswordRequestDto { email: String::from("not-an-email") }, 1000);
    match r.unwrap_err() {
        AuthError::ValidationFailed(violations) => {
            assert_eq!(violations, vec![FieldError::EmailMalformed]);
        },
        other => panic!("expected a validation failure, got {:?}", other.message()),
    }
}

#[test]
fn validate_token_dto_reports_empty_token() {
    let dto = ValidateTokenRequestDto { access_token: String::new() };
    assert_eq!(dto.violations(), vec![FieldError::TokenEmpty]);
    let full = ValidateTokenRequestDto { access_token: String::from("x") };
    assert!(full.violations().is_empty());
}

#[test]
fn empty_access_token_is_invalid() {
    let auth = orchestrator();
    let outcome = auth.validate_token(&ValidateTokenRequestDto { access_token: String::new() }, 1000);
    assert!(!outcome.valid);
    assert!(outcome.user.is_none());
}

#[test]
fn user_store_not_found_on_unknown_id() {
    let mut auth = orchestrator();
    auth.sign_up(&alice_sign_up(), 1000).unwrap();
    let r = auth.users.update_password(&String::from("no-such-id"), &String::from("h"));
    assert_eq!(r.unwrap_err(), AuthError::NotFound);
    assert!(auth.users.find_by_id(&String::from("no-such-id")).is_none());
}

#[test]
fn error_messages_are_safe_and_fixed() {
    assert_eq!(AuthError::Unauthorized.message(), "unauthorized");
    assert_eq!(AuthError::AlreadyExists.message(), "already exists");
    assert_eq!(AuthError::InvalidOrExpiredToken.message(), "invalid or expired token");
    assert_eq!(AuthError::NotFound.message(), "not found");
    assert_eq!(AuthError::StoreUnavailable.message(), "service temporarily unavailable");
    assert_eq!(AuthError::Internal.message(), "internal error");
    assert_eq!(AuthError::ValidationFailed(vec![]).message(), "validation failed");
}

#[test]
fn settings_carry_their_values() {
    let s = Settings::new(
        String::from("postgres://localhost/auth"),
        String::from("redis://localhost"),
        String::from("secret"),
        String::from("127.0.0.1"),
        50051,
    );
    assert_eq!(s.server_port, 50051);
    assert_eq!(s.server_host, "127.0.0.1");
    assert_eq!(s.database_url, "postgres://localhost/auth");
    assert_eq!(s.redis_url, "redis://localhost");
    assert_eq!(s.jwt_secret, "secret");
}
