use vstd::prelude::*;

use crate::session::{increment_rel, next_count, SessionStore};

verus! {

/// Fixed-window rate limiting, built on the session store's atomic counter
/// increment. A burst straddling two windows is not smoothed: each window
/// counts on its own, an accepted approximation of this scheme.
pub struct RateLimiter;

impl RateLimiter {
    /// Bumps the counter for `client_key` and reports whether the
    /// post-increment count stays within `limit`. The window's time-to-live
    /// is attached only by the increment that creates the counter.
    pub fn allow(
        store: &mut SessionStore,
        client_key: &String,
        limit: u64,
        window: u64,
        now: u64,
    ) -> (r: bool)
        requires
            old(store).wf(),
            now + window <= u64::MAX,
        ensures
            final(store).wf(),
            r == (next_count(*old(store), client_key@, now) <= limit),
            increment_rel(*old(store), *final(store), client_key@, window, now),
            forall|k2: Seq<char>|
                k2 != client_key@ ==> #[trigger] final(store).counter_at(k2) == old(
                    store,
                ).counter_at(k2),
            forall|k2: Seq<char>| #[trigger] final(store).refresh_at(k2) == old(store).refresh_at(
                k2,
            ),
            forall|k2: Seq<char>| #[trigger] final(store).reset_at(k2) == old(store).reset_at(k2),
    {
        let count = store.increment_counter(client_key, window, now);
        count <= limit
    }
}

/// Law: fixed-window counting over one key. From a state with no live
/// counter for `key`, four increments in quick succession (all at time
/// `now`, within one window) count one, two, three and four, so with a
/// limit of three the first three are allowed and the fourth is denied;
/// and once the window has elapsed the counter is no longer live, so the
/// next call starts a fresh window and is allowed again.
pub proof fn lemma_fixed_window(
    s0: SessionStore,
    s1: SessionStore,
    s2: SessionStore,
    s3: SessionStore,
    s4: SessionStore,
    key: Seq<char>,
    window: u64,
    now: u64,
    now2: u64,
)
    requires
        0 < window,
        now + window <= u64::MAX,
        s0.live_counter(key, now) is None,
        increment_rel(s0, s1, key, window, now),
        increment_rel(s1, s2, key, window, now),
        increment_rel(s2, s3, key, window, now),
        increment_rel(s3, s4, key, window, now),
        now + window <= now2,
    ensures
        next_count(s0, key, now) == 1,
        next_count(s1, key, now) == 2,
        next_count(s2, key, now) == 3,
        next_count(s3, key, now) == 4,
        s4.live_counter(key, now2) is None,
        next_count(s4, key, now2) == 1,
{
    assert(s1.counter_at(key) == Some((1u64, (now + window) as u64)));
    assert(s1.live_counter(key, now) == Some(1u64));
    assert(s2.counter_at(key) == Some((2u64, (now + window) as u64)));
    assert(s2.live_counter(key, now) == Some(2u64));
    assert(s3.counter_at(key) == Some((3u64, (now + window) as u64)));
    assert(s3.live_counter(key, now) == Some(3u64));
    assert(s4.counter_at(key) == Some((4u64, (now + window) as u64)));
}

} // verus!
