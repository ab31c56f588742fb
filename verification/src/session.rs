use vstd::prelude::*;

verus! {

/// One keyed entry with a time-to-live: the entry counts as present only
/// while the wall clock is strictly before `expires_at`.
pub struct ValueEntry {
    pub key: String,
    pub value: String,
    pub expires_at: u64,
}

/// One rate-limit counter with the expiry of its fixed window.
pub struct CounterEntry {
    pub key: String,
    pub count: u64,
    pub expires_at: u64,
}

/// No two entries share a key.
pub open spec fn value_keys_unique(s: Seq<ValueEntry>) -> bool {
    forall|i: int, j: int| 0 <= i < j < s.len() ==> s[i].key@ != s[j].key@
}

pub open spec fn has_value_key(s: Seq<ValueEntry>, k: Seq<char>) -> bool {
    exists|i: int| 0 <= i < s.len() && (#[trigger] s[i]).key@ == k
}

/// The entry stored under `k`, dead or alive: its value and its expiry.
pub open spec fn lookup_value(s: Seq<ValueEntry>, k: Seq<char>) -> Option<(Seq<char>, u64)> {
    if has_value_key(s, k) {
        let i = choose|i: int| 0 <= i < s.len() && (#[trigger] s[i]).key@ == k;
        Some((s[i].value@, s[i].expires_at))
    } else {
        None
    }
}

pub open spec fn counter_keys_unique(s: Seq<CounterEntry>) -> bool {
    forall|i: int, j: int| 0 <= i < j < s.len() ==> s[i].key@ != s[j].key@
}

pub open spec fn has_counter_key(s: Seq<CounterEntry>, k: Seq<char>) -> bool {
    exists|i: int| 0 <= i < s.len() && (#[trigger] s[i]).key@ == k
}

/// The counter stored under `k`, dead or alive: its count and its expiry.
pub open spec fn lookup_counter(s: Seq<CounterEntry>, k: Seq<char>) -> Option<(u64, u64)> {
    if has_counter_key(s, k) {
        let i = choose|i: int| 0 <= i < s.len() && (#[trigger] s[i]).key@ == k;
        Some((s[i].count, s[i].expires_at))
    } else {
        None
    }
}

proof fn lemma_value_found(s: Seq<ValueEntry>, i: int)
    requires
        value_keys_unique(s),
        0 <= i < s.len(),
    ensures
        lookup_value(s, s[i].key@) == Some((s[i].value@, s[i].expires_at)),
{
    let k = s[i].key@;
    assert(has_value_key(s, k));
    let j = choose|j: int| 0 <= j < s.len() && (#[trigger] s[j]).key@ == k;
    assert(j == i);
}

proof fn lemma_value_update(s: Seq<ValueEntry>, i: int, e: ValueEntry)
    requires
        value_keys_unique(s),
        0 <= i < s.len(),
        s[i].key@ == e.key@,
    ensures
        value_keys_unique(s.update(i, e)),
        lookup_value(s.update(i, e), e.key@) == Some((e.value@, e.expires_at)),
        forall|k2: Seq<char>|
            k2 != e.key@ ==> #[trigger] lookup_value(s.update(i, e), k2) == lookup_value(s, k2),
{
    let t = s.update(i, e);
    assert(forall|m: int| 0 <= m < s.len() ==> (#[trigger] t[m]).key@ == s[m].key@);
    lemma_value_found(t, i);
    assert forall|k2: Seq<char>| k2 != e.key@ implies #[trigger] lookup_value(t, k2)
        == lookup_value(s, k2) by {
        if has_value_key(s, k2) {
            let m = choose|m: int| 0 <= m < s.len() && (#[trigger] s[m]).key@ == k2;
            assert(t[m].key@ == k2);
            assert(has_value_key(t, k2));
            let n = choose|n: int| 0 <= n < t.len() && (#[trigger] t[n]).key@ == k2;
            assert(n == m);
            assert(t[m] == s[m]);
        } else {
            assert(forall|m: int| 0 <= m < t.len() ==> (#[trigger] t[m]).key@ != k2);
        }
    }
}

proof fn lemma_value_push(s: Seq<ValueEntry>, e: ValueEntry)
    requires
        value_keys_unique(s),
        !has_value_key(s, e.key@),
    ensures
        value_keys_unique(s.push(e)),
        lookup_value(s.push(e), e.key@) == Some((e.value@, e.expires_at)),
        forall|k2: Seq<char>|
            k2 != e.key@ ==> #[trigger] lookup_value(s.push(e), k2) == lookup_value(s, k2),
{
    let t = s.push(e);
    assert(forall|m: int| 0 <= m < s.len() ==> (#[trigger] t[m]).key@ == s[m].key@);
    assert(t[s.len() as int] == e);
    assert(value_keys_unique(t));
    lemma_value_found(t, s.len() as int);
    assert forall|k2: Seq<char>| k2 != e.key@ implies #[trigger] lookup_value(t, k2)
        == lookup_value(s, k2) by {
        if has_value_key(s, k2) {
            let m = choose|m: int| 0 <= m < s.len() && (#[trigger] s[m]).key@ == k2;
            assert(t[m].key@ == k2);
            assert(has_value_key(t, k2));
            let n = choose|n: int| 0 <= n < t.len() && (#[trigger] t[n]).key@ == k2;
            assert(n == m);
        } else {
            assert(forall|m: int| 0 <= m < t.len() ==> (#[trigger] t[m]).key@ != k2);
        }
    }
}

proof fn lemma_counter_found(s: Seq<CounterEntry>, i: int)
    requires
        counter_keys_unique(s),
        0 <= i < s.len(),
    ensures
        lookup_counter(s, s[i].key@) == Some((s[i].count, s[i].expires_at)),
{
    let k = s[i].key@;
    assert(has_counter_key(s, k));
    let j = choose|j: int| 0 <= j < s.len() && (#[trigger] s[j]).key@ == k;
    assert(j == i);
}

proof fn lemma_counter_update(s: Seq<CounterEntry>, i: int, e: CounterEntry)
    requires
        counter_keys_unique(s),
        0 <= i < s.len(),
        s[i].key@ == e.key@,
    ensures
        counter_keys_unique(s.update(i, e)),
        lookup_counter(s.update(i, e), e.key@) == Some((e.count, e.expires_at)),
        forall|k2: Seq<char>|
            k2 != e.key@ ==> #[trigger] lookup_counter(s.update(i, e), k2) == lookup_counter(s, k2),
{
    let t = s.update(i, e);
    assert(forall|m: int| 0 <= m < s.len() ==> (#[trigger] t[m]).key@ == s[m].key@);
    lemma_counter_found(t, i);
    assert forall|k2: Seq<char>| k2 != e.key@ implies #[trigger] lookup_counter(t, k2)
        == lookup_counter(s, k2) by {
        if has_counter_key(s, k2) {
            let m = choose|m: int| 0 <= m < s.len() && (#[trigger] s[m]).key@ == k2;
            assert(t[m].key@ == k2);
            assert(has_counter_key(t, k2));
            let n = choose|n: int| 0 <= n < t.len() && (#[trigger] t[n]).key@ == k2;
            assert(n == m);
            assert(t[m] == s[m]);
        } else {
            assert(forall|m: int| 0 <= m < t.len() ==> (#[trigger] t[m]).key@ != k2);
        }
    }
}

proof fn lemma_counter_push(s: Seq<CounterEntry>, e: CounterEntry)
    requires
        counter_keys_unique(s),
        !has_counter_key(s, e.key@),
    ensures
        counter_keys_unique(s.push(e)),
        lookup_counter(s.push(e), e.key@) == Some((e.count, e.expires_at)),
        forall|k2: Seq<char>|
            k2 != e.key@ ==> #[trigger] lookup_counter(s.push(e), k2) == lookup_counter(s, k2),
{
    let t = s.push(e);
    assert(forall|m: int| 0 <= m < s.len() ==> (#[trigger] t[m]).key@ == s[m].key@);
    assert(t[s.len() as int] == e);
    assert(counter_keys_unique(t));
    lemma_counter_found(t, s.len() as int);
    assert forall|k2: Seq<char>| k2 != e.key@ implies #[trigger] lookup_counter(t, k2)
        == lookup_counter(s, k2) by {
        if has_counter_key(s, k2) {
            let m = choose|m: int| 0 <= m < s.len() && (#[trigger] s[m]).key@ == k2;
            assert(t[m].key@ == k2);
            assert(has_counter_key(t, k2));
            let n = choose|n: int| 0 <= n < t.len() && (#[trigger] t[n]).key@ == k2;
            assert(n == m);
        } else {
            assert(forall|m: int| 0 <= m < t.len() ==> (#[trigger] t[m]).key@ != k2);
        }
    }
}

/// Finds the index of the entry with this key, if any.
fn find_value_index(v: &Vec<ValueEntry>, key: &String) -> (r: Option<usize>)
    ensures
        r matches Some(i) ==> i < v@.len() && v@[i as int].key@ == key@,
        r is None ==> !has_value_key(v@, key@),
{
    let mut i: usize = 0;
    while i < v.len()
        invariant
            i <= v@.len(),
            forall|j: int| 0 <= j < i ==> (#[trigger] v@[j]).key@ != key@,
        decreases v@.len() - i,
    {
        if v[i].key == *key {
            return Some(i);
        }
        i = i + 1;
    }
    None
}

fn find_counter_index(v: &Vec<CounterEntry>, key: &String) -> (r: Option<usize>)
    ensures
        r matches Some(i) ==> i < v@.len() && v@[i as int].key@ == key@,
        r is None ==> !has_counter_key(v@, key@),
{
    let mut i: usize = 0;
    while i < v.len()
        invariant
            i <= v@.len(),
            forall|j: int| 0 <= j < i ==> (#[trigger] v@[j]).key@ != key@,
        decreases v@.len() - i,
    {
        if v[i].key == *key {
            return Some(i);
        }
        i = i + 1;
    }
    None
}

/// Key-value backed persistence for refresh tokens, password-reset tokens
/// and rate-limit counters, each entry carrying a time-to-live. Time is
/// passed in explicitly, in unix seconds, so every operation is a pure
/// function of the store and the clock reading it is given.
pub struct SessionStore {
    refresh: Vec<ValueEntry>,
    reset: Vec<ValueEntry>,
    counters: Vec<CounterEntry>,
}

impl SessionStore {
    /// The refresh-token entry recorded for a user id, dead or alive:
    /// the token and its expiry.
    pub closed spec fn refresh_at(&self, user_id: Seq<char>) -> Option<(Seq<char>, u64)> {
        lookup_value(self.refresh@, user_id)
    }

    /// The reset-token entry recorded for a token, dead or alive:
    /// the user id it maps to and its expiry.
    pub closed spec fn reset_at(&self, token: Seq<char>) -> Option<(Seq<char>, u64)> {
        lookup_value(self.reset@, token)
    }

    /// The rate-limit counter recorded for a client key, dead or alive.
    pub closed spec fn counter_at(&self, key: Seq<char>) -> Option<(u64, u64)> {
        lookup_counter(self.counters@, key)
    }

    /// The refresh token held for a user at wall-clock time `now`.
    pub open spec fn live_refresh(&self, user_id: Seq<char>, now: u64) -> Option<Seq<char>> {
        match self.refresh_at(user_id) {
            Some(p) => if now < p.1 {
                Some(p.0)
            } else {
                None
            },
            None => None,
        }
    }

    /// The user id a reset token resolves to at wall-clock time `now`.
    pub open spec fn live_reset(&self, token: Seq<char>, now: u64) -> Option<Seq<char>> {
        match self.reset_at(token) {
            Some(p) => if now < p.1 {
                Some(p.0)
            } else {
                None
            },
            None => None,
        }
    }

    /// The count standing against a client key at wall-clock time `now`.
    pub open spec fn live_counter(&self, key: Seq<char>, now: u64) -> Option<u64> {
        match self.counter_at(key) {
            Some(p) => if now < p.1 {
                Some(p.0)
            } else {
                None
            },
            None => None,
        }
    }

    /// Well-formed: no key is recorded twice in any of the three tables.
    pub closed spec fn wf(&self) -> bool {
        value_keys_unique(self.refresh@) && value_keys_unique(self.reset@) && counter_keys_unique(
            self.counters@,
        )
    }

    pub fn new() -> (r: SessionStore)
        ensures
            r.wf(),
            forall|k: Seq<char>| #[trigger] r.refresh_at(k) is None,
            forall|k: Seq<char>| #[trigger] r.reset_at(k) is None,
            forall|k: Seq<char>| #[trigger] r.counter_at(k) is None,
    {
        SessionStore { refresh: Vec::new(), reset: Vec::new(), counters: Vec::new() }
    }

    /// Records `token` as the single active refresh token for `user_id`
    /// until `now + ttl`, overwriting any token recorded before.
    pub fn store_refresh_token(&mut self, user_id: &String, token: &String, ttl: u64, now: u64)
        requires
            old(self).wf(),
            now + ttl <= u64::MAX,
        ensures
            final(self).wf(),
            final(self).refresh_at(user_id@) == Some((token@, (now + ttl) as u64)),
            forall|k2: Seq<char>|
                k2 != user_id@ ==> #[trigger] final(self).refresh_at(k2) == old(self).refresh_at(
                    k2,
                ),
            forall|k2: Seq<char>| #[trigger] final(self).reset_at(k2) == old(self).reset_at(k2),
            forall|k2: Seq<char>| #[trigger] final(self).counter_at(k2) == old(self).counter_at(k2),
    {
        let entry = ValueEntry { key: user_id.clone(), value: token.clone(), expires_at: now + ttl };
        match find_value_index(&self.refresh, user_id) {
            Some(i) => {
                proof {
                    lemma_value_update(self.refresh@, i as int, entry);
                }
                self.refresh.set(i, entry);
            },
            None => {
                proof {
                    lemma_value_push(self.refresh@, entry);
                }
                self.refresh.push(entry);
            },
        }
    }

    /// Drops any refresh token held for `user_id`: whatever the clock says
    /// afterwards, no refresh token stands for this user until a new one is
    /// stored.
    pub fn invalidate_refresh_token(&mut self, user_id: &String)
        requires
            old(self).wf(),
        ensures
            final(self).wf(),
            forall|now2: u64| #[trigger] final(self).live_refresh(user_id@, now2) is None,
            forall|k2: Seq<char>|
                k2 != user_id@ ==> #[trigger] final(self).refresh_at(k2) == old(self).refresh_at(
                    k2,
                ),
            forall|k2: Seq<char>| #[trigger] final(self).reset_at(k2) == old(self).reset_at(k2),
            forall|k2: Seq<char>| #[trigger] final(self).counter_at(k2) == old(self).counter_at(k2),
    {
        match find_value_index(&self.refresh, user_id) {
            Some(i) => {
                let entry = ValueEntry {
                    key: user_id.clone(),
                    value: self.refresh[i].value.clone(),
                    expires_at: 0,
                };
                proof {
                    lemma_value_update(self.refresh@, i as int, entry);
                }
                self.refresh.set(i, entry);
            },
            None => {},
        }
    }

    /// Creates the one-time mapping from `token` to `user_id`, held until
    /// `now + ttl`.
    pub fn store_reset_token(&mut self, token: &String, user_id: &String, ttl: u64, now: u64)
        requires
            old(self).wf(),
            now + ttl <= u64::MAX,
        ensures
            final(self).wf(),
            final(self).reset_at(token@) == Some((user_id@, (now + ttl) as u64)),
            forall|k2: Seq<char>|
                k2 != token@ ==> #[trigger] final(self).reset_at(k2) == old(self).reset_at(k2),
            forall|k2: Seq<char>| #[trigger] final(self).refresh_at(k2) == old(self).refresh_at(k2),
            forall|k2: Seq<char>| #[trigger] final(self).counter_at(k2) == old(self).counter_at(k2),
    {
        let entry = ValueEntry { key: token.clone(), value: user_id.clone(), expires_at: now + ttl };
        match find_value_index(&self.reset, token) {
            Some(i) => {
                proof {
                    lemma_value_update(self.reset@, i as int, entry);
                }
                self.reset.set(i, entry);
            },
            None => {
                proof {
                    lemma_value_push(self.reset@, entry);
                }
                self.reset.push(entry);
            },
        }
    }

    /// The refresh token standing for `user_id` at wall-clock time `now`,
    /// if one is held and not yet past its time-to-live. The store record
    /// is authoritative: a refresh token that is not (or no longer) here is
    /// not honoured, whatever its own signature says.
    pub fn refresh_token_for(&self, user_id: &String, now: u64) -> (r: Option<String>)
        requires
            self.wf(),
        ensures
            r matches Some(t) ==> self.live_refresh(user_id@, now) == Some(t@),
            r is None ==> self.live_refresh(user_id@, now) is None,
    {
        match find_value_index(&self.refresh, user_id) {
            Some(i) => {
                proof {
                    lemma_value_found(self.refresh@, i as int);
                }
                if now < self.refresh[i].expires_at {
                    Some(self.refresh[i].value.clone())
                } else {
                    None
                }
            },
            None => None,
        }
    }

    /// Resolves `token` to the user id it was stored for and atomically
    /// invalidates it: the first call within the time-to-live returns the
    /// user id, and afterwards no call can resolve the token again until a
    /// new mapping is stored for it.
    pub fn consume_reset_token(&mut self, token: &String, now: u64) -> (r: Option<String>)
        requires
            old(self).wf(),
        ensures
            final(self).wf(),
            r matches Some(uid) ==> old(self).live_reset(token@, now) == Some(uid@),
            r is None ==> old(self).live_reset(token@, now) is None,
            forall|now2: u64| #[trigger] final(self).live_reset(token@, now2) is None,
            final(self).reset_at(token@) matches Some(p) ==> p.1 == 0,
            forall|k2: Seq<char>|
                k2 != token@ ==> #[trigger] final(self).reset_at(k2) == old(self).reset_at(k2),
            forall|k2: Seq<char>| #[trigger] final(self).refresh_at(k2) == old(self).refresh_at(k2),
            forall|k2: Seq<char>| #[trigger] final(self).counter_at(k2) == old(self).counter_at(k2),
    {
        match find_value_index(&self.reset, token) {
            Some(i) => {
                proof {
                    lemma_value_found(self.reset@, i as int);
                }
                let live = now < self.reset[i].expires_at;
                let value = self.reset[i].value.clone();
                let entry = ValueEntry { key: token.clone(), value: value.clone(), expires_at: 0 };
                proof {
                    lemma_value_update(self.reset@, i as int, entry);
                }
                self.reset.set(i, entry);
                if live {
                    Some(value)
                } else {
                    None
                }
            },
            None => None,
        }
    }

    /// Atomically bumps the counter for `key`: if a live counter stands, its
    /// count rises by one and its window is left as it was; otherwise a new
    /// counter starts at one with a time-to-live of `window`. Returns the
    /// count after the increment.
    pub fn increment_counter(&mut self, key: &String, window: u64, now: u64) -> (r: u64)
        requires
            old(self).wf(),
            now + window <= u64::MAX,
        ensures
            final(self).wf(),
            r == next_count(*old(self), key@, now),
            increment_rel(*old(self), *final(self), key@, window, now),
            forall|k2: Seq<char>|
                k2 != key@ ==> #[trigger] final(self).counter_at(k2) == old(self).counter_at(k2),
            forall|k2: Seq<char>| #[trigger] final(self).refresh_at(k2) == old(self).refresh_at(k2),
            forall|k2: Seq<char>| #[trigger] final(self).reset_at(k2) == old(self).reset_at(k2),
    {
        match find_counter_index(&self.counters, key) {
            Some(i) => {
                proof {
                    lemma_counter_found(self.counters@, i as int);
                }
                if now < self.counters[i].expires_at {
                    let c = self.counters[i].count;
                    let bumped = if c < u64::MAX {
                        c + 1
                    } else {
                        c
                    };
                    let entry = CounterEntry {
                        key: key.clone(),
                        count: bumped,
                        expires_at: self.counters[i].expires_at,
                    };
                    proof {
                        lemma_counter_update(self.counters@, i as int, entry);
                    }
                    self.counters.set(i, entry);
                    bumped
                } else {
                    let entry = CounterEntry { key: key.clone(), count: 1, expires_at: now + window };
                    proof {
                        lemma_counter_update(self.counters@, i as int, entry);
                    }
                    self.counters.set(i, entry);
                    1
                }
            },
            None => {
                let entry = CounterEntry { key: key.clone(), count: 1, expires_at: now + window };
                proof {
                    lemma_counter_push(self.counters@, entry);
                }
                self.counters.push(entry);
                1
            },
        }
    }
}

/// Law: a reset token is single-use. The first consumption leaves a store
/// in which the token is resolvable at no time at all; a second
/// consumption, at any later clock reading, therefore finds nothing and
/// reports the token as unknown.
pub proof fn lemma_reset_token_single_use(
    after_first: SessionStore,
    token: Seq<char>,
    now2: u64,
    second: Option<Seq<char>>,
)
    requires
        forall|n: u64| #[trigger] after_first.live_reset(token, n) is None,
        second matches Some(uid) ==> after_first.live_reset(token, now2) == Some(uid),
    ensures
        second is None,
{
    assert(after_first.live_reset(token, now2) is None);
}

/// The count that an increment at time `now` yields: one more than the live
/// count, a fresh count of one when none is live, saturating at the top of
/// `u64`.
pub open spec fn next_count(store: SessionStore, key: Seq<char>, now: u64) -> u64 {
    match store.live_counter(key, now) {
        Some(c) => if c < u64::MAX {
            (c + 1) as u64
        } else {
            c
        },
        None => 1u64,
    }
}

/// How one increment at time `now` relates the store before it to the store
/// after it, on the counter for `key`.
pub open spec fn increment_rel(
    pre: SessionStore,
    post: SessionStore,
    key: Seq<char>,
    window: u64,
    now: u64,
) -> bool {
    match pre.live_counter(key, now) {
        Some(c) => post.counter_at(key) == Some(
            (next_count(pre, key, now), pre.counter_at(key)->Some_0.1),
        ),
        None => post.counter_at(key) == Some((1u64, (now + window) as u64)),
    }
}

} // verus!
