use auth_core::rate::RateLimiter;
use auth_core::session::SessionStore;

#[test]
fn reset_token_consumed_once() {
    let mut store = SessionStore::new();
    let token = String::from("reset-abc");
    let user = String::from("user-1");
    store.store_reset_token(&token, &user, 3600, 100);
    let first = store.consume_reset_token(&token, 200);
    assert_eq!(first.as_deref(), Some("user-1"));
    let second = store.consume_reset_token(&token, 200);
    assert!(second.is_none());
}

#[test]
fn reset_token_expires_with_ttl() {
    let mut store = SessionStore::new();
    let token = String::from("reset-abc");
    let user = String::from("user-1");
    store.store_reset_token(&token, &user, 3600, 100);
    // At the expiry instant the entry is gone.
    let r = store.consume_reset_token(&token, 100 + 3600);
    assert!(r.is_none());
}

#[test]
fn refresh_token_overwritten_by_latest() {
    let mut store = SessionStore::new();
    let user = String::from("user-1");
    store.store_refresh_token(&user, &String::from("first"), 1000, 100);
    store.store_refresh_token(&user, &String::from("second"), 1000, 200);
    let held = store.refresh_token_for(&user, 300);
    assert_eq!(held.as_deref(), Some("second"));
}

#[test]
fn refresh_token_invalidated() {
    let mut store = SessionStore::new();
    let user = String::from("user-1");
    store.store_refresh_token(&user, &String::from("tok"), 1000, 100);
    store.invalidate_refresh_token(&user);
    assert!(store.refresh_token_for(&user, 100).is_none());
}

#[test]
fn refresh_token_expires() {
    let mut store = SessionStore::new();
    let user = String::from("user-1");
    store.store_refresh_token(&user, &String::from("tok"), 1000, 100);
    assert_eq!(store.refresh_token_for(&user, 1099).as_deref(), Some("tok"));
    assert!(store.refresh_token_for(&user, 1100).is_none());
}

#[test]
fn rate_limiter_fixed_window() {
    let mut store = SessionStore::new();
    let key = String::from("203.0.113.9");
    assert!(RateLimiter::allow(&mut store, &key, 3, 60, 50));
    assert!(RateLimiter::allow(&mut store, &key, 3, 60, 50));
    assert!(RateLimiter::allow(&mut store, &key, 3, 60, 50));
    assert!(!RateLimiter::allow(&mut store, &key, 3, 60, 50));
    // Once the window has elapsed the counter starts over.
    assert!(RateLimiter::allow(&mut store, &key, 3, 60, 50 + 60));
}

#[test]
fn rate_limiter_keys_are_independent() {
    let mut store = SessionStore::new();
    let a = String::from("client-a");
    let b = String::from("client-b");
    assert!(RateLimiter::allow(&mut store, &a, 1, 60, 10));
    assert!(!RateLimiter::allow(&mut store, &a, 1, 60, 11));
    assert!(RateLimiter::allow(&mut store, &b, 1, 60, 11));
}

#[test]
fn counters_keep_their_window() {
    let mut store = SessionStore::new();
    let key = String::from("client-a");
    // The window is attached by the first increment only: later increments
    // do not push the expiry out.
    assert!(RateLimiter::allow(&mut store, &key, 10, 60, 0));
    assert!(RateLimiter::allow(&mut store, &key, 10, 60, 59));
    assert!(RateLimiter::allow(&mut store, &key, 10, 60, 60));
    // At 60 the first window had lapsed, so the count restarted at one:
    // two more stay within a limit of three for the new window.
    assert!(RateLimiter::allow(&mut store, &key, 3, 60, 61));
    assert!(RateLimiter::allow(&mut store, &key, 3, 60, 62));
    assert!(!RateLimiter::allow(&mut store, &key, 3, 60, 63));
}
