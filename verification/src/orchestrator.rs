use vstd::prelude::*;

use crate::codec::{
    token_of, TokenManager, ACCESS_TOKEN_LIFETIME_SECS, EXPIRY_LEEWAY_SECS,
    REFRESH_TOKEN_LIFETIME_SECS,
};
use crate::errors::AuthError;
use crate::ident::fresh_uuid;
use crate::password::{hash_password, password_matches, verify_password};
use crate::requests::{
    forgot_password_violations, login_violations, reset_password_violations, sign_up_violations,
    ForgotPasswordRequestDto, LoginRequestDto, ResetPasswordRequestDto, SignUpRequestDto,
    ValidateTokenRequestDto,
};
use crate::session::SessionStore;
use crate::users::{find_email, find_id, has_email, has_id, User, UserStore, UserView};

verus! {

/// Time-to-live of a password-reset token, in seconds (one hour).
pub const RESET_TOKEN_TTL_SECS: u64 = 3600;

/// What a successful login hands back: both tokens, the absolute expiry of
/// the access token in unix seconds, and the profile with the hash blanked.
#[derive(Debug)]
pub struct LoginSuccess {
    pub access_token: String,
    pub refresh_token: String,
    pub expires_at: u64,
    pub user: User,
}

/// The outcome of a forgot-password request. Only `message` may reach the
/// wire, and it is the same fixed text whether or not the account exists;
/// `dispatch` carries the address and reset token for the notification
/// sender and must never be echoed to the caller.
#[derive(Debug)]
pub struct ForgotPasswordOutcome {
    pub message: &'static str,
    pub dispatch: Option<(String, String)>,
}

/// The outcome of validating an access token. On any failure `valid` is
/// false with the same non-specific message, never the codec's own wording.
#[derive(Debug)]
pub struct ValidateTokenOutcome {
    pub valid: bool,
    pub user: Option<User>,
    pub message: &'static str,
}

/// Composes the token codec, the session store and the user store into the
/// five use cases. Every method takes the wall clock as an explicit `now`
/// in unix seconds, so each is a pure function of state, request and time.
pub struct AuthOrchestrator {
    pub users: UserStore,
    pub sessions: SessionStore,
    pub tokens: TokenManager,
}

impl AuthOrchestrator {
    pub open spec fn wf(&self) -> bool {
        self.users.wf() && self.sessions.wf()
    }

    pub fn new(secret: String) -> (r: AuthOrchestrator)
        ensures
            r.wf(),
            r.tokens.secret_view() == secret@,
            r.users.views() == Seq::<UserView>::empty(),
            forall|k: Seq<char>| #[trigger] r.sessions.refresh_at(k) is None,
            forall|k: Seq<char>| #[trigger] r.sessions.reset_at(k) is None,
            forall|k: Seq<char>| #[trigger] r.sessions.counter_at(k) is None,
    {
        AuthOrchestrator {
            users: UserStore::new(),
            sessions: SessionStore::new(),
            tokens: TokenManager::new(secret),
        }
    }

    /// Sign-up: validates the request, refuses a taken email without
    /// touching the stored record, otherwise hashes the password with a
    /// memory-hard algorithm and persists the new record, returning it with
    /// the hash blanked.
    pub fn sign_up(&mut self, req: &SignUpRequestDto, now: u64) -> (r: Result<User, AuthError>)
        requires
            old(self).wf(),
        ensures
            final(self).wf(),
            final(self).sessions == old(self).sessions,
            final(self).tokens == old(self).tokens,
            r matches Err(_) ==> *final(self) == *old(self),
            ({
                let vv = sign_up_violations(
                    req.email@,
                    req.password@,
                    req.first_name@,
                    req.last_name@,
                );
                &&& vv.len() > 0 ==> (r matches Err(e) && e matches AuthError::ValidationFailed(fs)
                    && fs@ == vv)
                &&& (vv.len() == 0 && has_email(old(self).users.views(), req.email@)) ==> r == Err::<
                    User,
                    AuthError,
                >(AuthError::AlreadyExists)
                &&& (vv.len() == 0 && !has_email(old(self).users.views(), req.email@)) ==> (
                r matches Ok(_) || r == Err::<User, AuthError>(AuthError::Internal))
            }),
            r matches Ok(u) ==> !has_email(old(self).users.views(), req.email@)
                && u@.password_hash == Seq::<char>::empty() && u@.email == req.email@
                && u@.first_name == req.first_name@ && u@.last_name == req.last_name@
                && u@.created_at == now && u@.is_active && !u@.is_verified && (find_email(
                final(self).users.views(),
                req.email@,
            ) matches Some(su) && su.id == u@.id && password_matches(
                req.password@,
                su.password_hash,
            ) && su == (UserView { password_hash: su.password_hash, ..u@ })) && (
            forall|e2: Seq<char>|
                e2 != req.email@ ==> #[trigger] find_email(final(self).users.views(), e2)
                    == find_email(old(self).users.views(), e2)),
    {
        let v = req.violations();
        if v.len() > 0 {
            return Err(AuthError::ValidationFailed(v));
        }
        if let Some(_) = self.users.find_by_email(&req.email) {
            return Err(AuthError::AlreadyExists);
        }
        let hash = match hash_password(&req.password) {
            Some(h) => h,
            None => {
                return Err(AuthError::Internal);
            },
        };
        let created = match self.users.create(
            &req.email,
            &hash,
            &req.first_name,
            &req.last_name,
            now,
        ) {
            Ok(u) => u,
            Err(e) => {
                return Err(e);
            },
        };
        Ok(created.without_hash())
    }

    /// Login: validates the request, and answers `Unauthorized` alike for
    /// an unknown email, a wrong password and a deactivated account, so the
    /// caller cannot tell whether the email exists. On success it issues an
    /// access token (one hour) and a refresh token (seven days), records
    /// the refresh token as the user's single active one, and stamps the
    /// login time.
    pub fn login(&mut self, req: &LoginRequestDto, now: u64) -> (r: Result<LoginSuccess, AuthError>)
        requires
            old(self).wf(),
            now + REFRESH_TOKEN_LIFETIME_SECS <= u64::MAX,
        ensures
            final(self).wf(),
            final(self).tokens == old(self).tokens,
            ({
                let vv = login_violations(req.email@, req.password@);
                &&& vv.len() > 0 ==> *final(self) == *old(self) && (r matches Err(e)
                    && e matches AuthError::ValidationFailed(fs) && fs@ == vv)
                &&& vv.len() == 0 ==> match find_email(old(self).users.views(), req.email@) {
                    None => *final(self) == *old(self) && r == Err::<LoginSuccess, AuthError>(
                        AuthError::Unauthorized,
                    ),
                    Some(u) => {
                        &&& !(password_matches(req.password@, u.password_hash) && u.is_active)
                            ==> *final(self) == *old(self) && r == Err::<LoginSuccess, AuthError>(
                            AuthError::Unauthorized,
                        )
                        &&& (password_matches(req.password@, u.password_hash) && u.is_active)
                            ==> r matches Ok(_)
                    },
                }
            }),
            r matches Ok(out) ==> ({
                let u = find_email(old(self).users.views(), req.email@)->Some_0;
                &&& find_email(old(self).users.views(), req.email@) is Some
                &&& password_matches(req.password@, u.password_hash) && u.is_active
                &&& out.access_token@ == token_of(
                    old(self).tokens.secret_view(),
                    u.id,
                    now,
                    (now + ACCESS_TOKEN_LIFETIME_SECS) as u64,
                )
                &&& out.refresh_token@ == token_of(
                    old(self).tokens.secret_view(),
                    u.id,
                    now,
                    (now + REFRESH_TOKEN_LIFETIME_SECS) as u64,
                )
                &&& out.expires_at == now + ACCESS_TOKEN_LIFETIME_SECS
                &&& out.user@.id == u.id && out.user@.email == u.email && out.user@.password_hash
                    == Seq::<char>::empty() && out.user@.last_login_at == Some(now)
                &&& final(self).sessions.refresh_at(u.id) == Some(
                    (out.refresh_token@, (now + REFRESH_TOKEN_LIFETIME_SECS) as u64),
                )
                &&& (find_id(final(self).users.views(), u.id) matches Some(v) && v.last_login_at
                    == Some(now))
            }),
    {
        let v = req.violations();
        if v.len() > 0 {
            return Err(AuthError::ValidationFailed(v));
        }
        let user = match self.users.find_by_email(&req.email) {
            Some(u) => u,
            None => {
                return Err(AuthError::Unauthorized);
            },
        };
        if !verify_password(&req.password, &user.password_hash) {
            return Err(AuthError::Unauthorized);
        }
        if !user.is_active {
            return Err(AuthError::Unauthorized);
        }
        let (access_token, expires_at) = match self.tokens.issue_at(
            &user.id,
            ACCESS_TOKEN_LIFETIME_SECS,
            now,
        ) {
            Ok(p) => p,
            Err(_) => {
                return Err(AuthError::Internal);
            },
        };
        let (refresh_token, _refresh_expires_at) = match self.tokens.issue_at(
            &user.id,
            REFRESH_TOKEN_LIFETIME_SECS,
            now,
        ) {
            Ok(p) => p,
            Err(_) => {
                return Err(AuthError::Internal);
            },
        };
        self.sessions.store_refresh_token(&user.id, &refresh_token, REFRESH_TOKEN_LIFETIME_SECS, now);
        proof {
            // The record found by email stands in the store, so the stamp
            // by id below cannot miss.
            let s = self.users.views();
            let i = choose|i: int| 0 <= i < s.len() && (#[trigger] s[i]).email == req.email@;
            assert(0 <= i < s.len() && s[i].id == user@.id);
            assert(has_id(s, user@.id));
        }
        match self.users.update_last_login(&user.id, now) {
            Ok(()) => {},
            Err(_) => {
                return Err(AuthError::Internal);
            },
        }
        let profile = User { last_login_at: Some(now), ..user.without_hash() };
        let out = LoginSuccess { access_token, refresh_token, expires_at, user: profile };
        Ok(out)
    }

    /// Forgot-password: the caller always receives the same fixed message,
    /// whether or not the account exists, and a reset token is drawn either
    /// way; only when the account exists is the token stored, for one hour,
    /// and handed to the notification sender through `dispatch`.
    pub fn forgot_password(&mut self, req: &ForgotPasswordRequestDto, now: u64) -> (r: Result<
        ForgotPasswordOutcome,
        AuthError,
    >)
        requires
            old(self).wf(),
            now + RESET_TOKEN_TTL_SECS <= u64::MAX,
        ensures
            final(self).wf(),
            final(self).users == old(self).users,
            final(self).tokens == old(self).tokens,
            ({
                let vv = forgot_password_violations(req.email@);
                &&& vv.len() > 0 ==> *final(self) == *old(self) && (r matches Err(e)
                    && e matches AuthError::ValidationFailed(fs) && fs@ == vv)
                &&& vv.len() == 0 ==> (r matches Ok(out) && out.message@
                    == "If the account exists, a password reset message has been sent."@ && match find_email(
                    old(self).users.views(),
                    req.email@,
                ) {
                    None => out.dispatch is None && *final(self) == *old(self),
                    Some(u) => {
                        &&& (out.dispatch matches Some(d) && d.0@ == req.email@
                            && final(self).sessions.reset_at(d.1@)
                                == Some((u.id, (now + RESET_TOKEN_TTL_SECS) as u64)))
                        &&& (forall|k2: Seq<char>|
                            k2 != out.dispatch->Some_0.1@
                                ==> #[trigger] final(self).sessions.reset_at(k2)
                                == old(self).sessions.reset_at(k2))
                        &&& (forall|k2: Seq<char>| #[trigger]
                            final(self).sessions.refresh_at(k2) == old(self).sessions.refresh_at(
                                k2,
                            ))
                    },
                })
            }),
    {
        let v = req.violations();
        if v.len() > 0 {
            return Err(AuthError::ValidationFailed(v));
        }
        let token = fresh_uuid();
        match self.users.find_by_email(&req.email) {
            None => Ok(
                ForgotPasswordOutcome {
                    message: "If the account exists, a password reset message has been sent.",
                    dispatch: None,
                },
            ),
            Some(u) => {
                self.sessions.store_reset_token(&token, &u.id, RESET_TOKEN_TTL_SECS, now);
                Ok(
                    ForgotPasswordOutcome {
                        message: "If the account exists, a password reset message has been sent.",
                        dispatch: Some((req.email.clone(), token)),
                    },
                )
            },
        }
    }

    /// Reset-password: consumes the reset token first, so that whatever
    /// else happens the same token can never be redeemed twice; then hashes
    /// the new password, stores it for the resolved user (`NotFound` if
    /// that account no longer exists), and drops the user's refresh token
    /// so any other session must log in again.
    pub fn reset_password(&mut self, req: &ResetPasswordRequestDto, now: u64) -> (r: Result<
        (),
        AuthError,
    >)
        requires
            old(self).wf(),
        ensures
            final(self).wf(),
            final(self).tokens == old(self).tokens,
            r matches Err(_) ==> final(self).users == old(self).users,
            ({
                let vv = reset_password_violations(req.token@, req.new_password@);
                &&& vv.len() > 0 ==> *final(self) == *old(self) && (r matches Err(e)
                    && e matches AuthError::ValidationFailed(fs) && fs@ == vv)
                &&& vv.len() == 0 ==> {
                    &&& (forall|now2: u64| #[trigger]
                        final(self).sessions.live_reset(req.token@, now2) is None)
                    &&& (r == Err::<(), AuthError>(AuthError::InvalidOrExpiredToken) <==> old(
                        self,
                    ).sessions.live_reset(req.token@, now) is None)
                    &&& match old(self).sessions.live_reset(req.token@, now) {
                        None => r == Err::<(), AuthError>(AuthError::InvalidOrExpiredToken),
                        Some(uid) => {
                            &&& has_id(old(self).users.views(), uid) ==> (r matches Ok(_) || r
                                == Err::<(), AuthError>(AuthError::Internal))
                            &&& !has_id(old(self).users.views(), uid) ==> (r == Err::<
                                (),
                                AuthError,
                            >(AuthError::NotFound) || r == Err::<(), AuthError>(
                                AuthError::Internal,
                            ))
                        },
                    }
                }
            }),
            r matches Ok(_) ==> ({
                let uid = old(self).sessions.live_reset(req.token@, now)->Some_0;
                &&& old(self).sessions.live_reset(req.token@, now) is Some
                &&& (find_id(final(self).users.views(), uid) matches Some(v) && password_matches(
                    req.new_password@,
                    v.password_hash,
                ))
                &&& (forall|now2: u64| #[trigger]
                    final(self).sessions.live_refresh(uid, now2) is None)
            }),
    {
        let v = req.violations();
        if v.len() > 0 {
            return Err(AuthError::ValidationFailed(v));
        }
        let uid = match self.sessions.consume_reset_token(&req.token, now) {
            Some(uid) => uid,
            None => {
                return Err(AuthError::InvalidOrExpiredToken);
            },
        };
        let hash = match hash_password(&req.new_password) {
            Some(h) => h,
            None => {
                return Err(AuthError::Internal);
            },
        };
        match self.users.update_password(&uid, &hash) {
            Ok(()) => {},
            Err(_) => {
                return Err(AuthError::NotFound);
            },
        }
        self.sessions.invalidate_refresh_token(&uid);
        Ok(())
    }

    /// Whether a token carrying subject `sub` and expiry `exp` is to be
    /// accepted at time `now`: not yet expired (with the documented leeway)
    /// and naming a stored, still-active user.
    pub open spec fn token_accepted(&self, sub: Seq<char>, exp: u64, now: u64) -> bool {
        &&& now <= exp + EXPIRY_LEEWAY_SECS
        &&& match find_id(self.users.views(), sub) {
            Some(su) => su.is_active,
            None => false,
        }
    }

    /// Validate-token: verifies the signature and expiry, then confirms the
    /// subject still names an active account. Every failure yields the same
    /// non-specific message, never the codec's own wording.
    pub fn validate_token(&self, req: &ValidateTokenRequestDto, now: u64) -> (r:
        ValidateTokenOutcome)
        requires
            self.wf(),
        ensures
            !r.valid ==> r.user is None && r.message@ == "invalid token"@,
            r.valid ==> r.message@ == "token is valid"@,
            r.valid ==> (r.user matches Some(u) && u@.password_hash == Seq::<char>::empty() && (
            find_id(self.users.views(), u@.id) matches Some(su) && su.is_active && u@ == (UserView {
                password_hash: Seq::<char>::empty(),
                ..su
            }))),
            (forall|sub: Seq<char>, iat: u64, exp: u64|
                req.access_token@ == #[trigger] token_of(self.tokens.secret_view(), sub, iat, exp)
                    ==> (r.valid == self.token_accepted(sub, exp, now) && (r.valid
                    ==> r.user->Some_0@.id == sub))),
    {
        let claims = match self.tokens.verify_at(&req.access_token, now) {
            Ok(c) => c,
            Err(_) => {
                return ValidateTokenOutcome { valid: false, user: None, message: "invalid token" };
            },
        };
        let user = match self.users.find_by_id(&claims.sub) {
            Some(u) => u,
            None => {
                return ValidateTokenOutcome { valid: false, user: None, message: "invalid token" };
            },
        };
        if !user.is_active {
            return ValidateTokenOutcome { valid: false, user: None, message: "invalid token" };
        }
        ValidateTokenOutcome {
            valid: true,
            user: Some(user.without_hash()),
            message: "token is valid",
        }
    }
}

} // verus!
