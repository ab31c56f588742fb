use vstd::prelude::*;

use crate::errors::AuthError;
use crate::ident::fresh_uuid;

verus! {

/// An identity record. Identifiers and timestamps are plain values: the id
/// is the text form of a universally unique identifier, times are unix
/// seconds.
#[derive(Debug)]
pub struct User {
    pub id: String,
    pub email: String,
    pub password_hash: String,
    pub first_name: String,
    pub last_name: String,
    pub created_at: u64,
    pub updated_at: u64,
    pub last_login_at: Option<u64>,
    pub is_active: bool,
    pub is_verified: bool,
}

/// The mathematical image of a `User`.
pub ghost struct UserView {
    pub id: Seq<char>,
    pub email: Seq<char>,
    pub password_hash: Seq<char>,
    pub first_name: Seq<char>,
    pub last_name: Seq<char>,
    pub created_at: u64,
    pub updated_at: u64,
    pub last_login_at: Option<u64>,
    pub is_active: bool,
    pub is_verified: bool,
}

impl View for User {
    type V = UserView;

    open spec fn view(&self) -> UserView {
        UserView {
            id: self.id@,
            email: self.email@,
            password_hash: self.password_hash@,
            first_name: self.first_name@,
            last_name: self.last_name@,
            created_at: self.created_at,
            updated_at: self.updated_at,
            last_login_at: self.last_login_at,
            is_active: self.is_active,
            is_verified: self.is_verified,
        }
    }
}

impl User {
    /// A field-for-field copy.
    pub fn duplicate(&self) -> (r: User)
        ensures
            r@ == self@,
    {
        User {
            id: self.id.clone(),
            email: self.email.clone(),
            password_hash: self.password_hash.clone(),
            first_name: self.first_name.clone(),
            last_name: self.last_name.clone(),
            created_at: self.created_at,
            updated_at: self.updated_at,
            last_login_at: self.last_login_at,
            is_active: self.is_active,
            is_verified: self.is_verified,
        }
    }

    /// The record as it is handed out to callers: every field as stored,
    /// with the password hash blanked.
    pub fn without_hash(&self) -> (r: User)
        ensures
            r@ == (UserView { password_hash: Seq::empty(), ..self@ }),
    {
        User {
            id: self.id.clone(),
            email: self.email.clone(),
            password_hash: String::new(),
            first_name: self.first_name.clone(),
            last_name: self.last_name.clone(),
            created_at: self.created_at,
            updated_at: self.updated_at,
            last_login_at: self.last_login_at,
            is_active: self.is_active,
            is_verified: self.is_verified,
        }
    }
}

pub open spec fn users_unique(s: Seq<UserView>) -> bool {
    forall|i: int, j: int|
        0 <= i < j < s.len() ==> s[i].email != s[j].email && s[i].id != s[j].id
}

pub open spec fn has_email(s: Seq<UserView>, email: Seq<char>) -> bool {
    exists|i: int| 0 <= i < s.len() && (#[trigger] s[i]).email == email
}

pub open spec fn find_email(s: Seq<UserView>, email: Seq<char>) -> Option<UserView> {
    if has_email(s, email) {
        Some(s[choose|i: int| 0 <= i < s.len() && (#[trigger] s[i]).email == email])
    } else {
        None
    }
}

pub open spec fn has_id(s: Seq<UserView>, id: Seq<char>) -> bool {
    exists|i: int| 0 <= i < s.len() && (#[trigger] s[i]).id == id
}

pub open spec fn find_id(s: Seq<UserView>, id: Seq<char>) -> Option<UserView> {
    if has_id(s, id) {
        Some(s[choose|i: int| 0 <= i < s.len() && (#[trigger] s[i]).id == id])
    } else {
        None
    }
}

proof fn lemma_user_found(s: Seq<UserView>, i: int)
    requires
        users_unique(s),
        0 <= i < s.len(),
    ensures
        find_email(s, s[i].email) == Some(s[i]),
        find_id(s, s[i].id) == Some(s[i]),
{
    assert(has_email(s, s[i].email));
    let j = choose|j: int| 0 <= j < s.len() && (#[trigger] s[j]).email == s[i].email;
    assert(j == i);
    assert(has_id(s, s[i].id));
    let m = choose|m: int| 0 <= m < s.len() && (#[trigger] s[m]).id == s[i].id;
    assert(m == i);
}

proof fn lemma_user_update(s: Seq<UserView>, i: int, u: UserView)
    requires
        users_unique(s),
        0 <= i < s.len(),
        s[i].email == u.email,
        s[i].id == u.id,
    ensures
        users_unique(s.update(i, u)),
        find_email(s.update(i, u), u.email) == Some(u),
        find_id(s.update(i, u), u.id) == Some(u),
        forall|e2: Seq<char>|
            e2 != u.email ==> #[trigger] find_email(s.update(i, u), e2) == find_email(s, e2),
        forall|i2: Seq<char>|
            i2 != u.id ==> #[trigger] find_id(s.update(i, u), i2) == find_id(s, i2),
{
    let t = s.update(i, u);
    assert(forall|m: int|
        0 <= m < s.len() ==> (#[trigger] t[m]).email == s[m].email && t[m].id == s[m].id);
    lemma_user_found(t, i);
    assert forall|e2: Seq<char>| e2 != u.email implies #[trigger] find_email(t, e2) == find_email(
        s,
        e2,
    ) by {
        if has_email(s, e2) {
            let m = choose|m: int| 0 <= m < s.len() && (#[trigger] s[m]).email == e2;
            assert(t[m].email == e2);
            assert(has_email(t, e2));
            let n = choose|n: int| 0 <= n < t.len() && (#[trigger] t[n]).email == e2;
            assert(n == m);
            assert(t[m] == s[m]);
        } else {
            assert(forall|m: int| 0 <= m < t.len() ==> (#[trigger] t[m]).email != e2);
        }
    }
    assert forall|i2: Seq<char>| i2 != u.id implies #[trigger] find_id(t, i2) == find_id(
        s,
        i2,
    ) by {
        if has_id(s, i2) {
            let m = choose|m: int| 0 <= m < s.len() && (#[trigger] s[m]).id == i2;
            assert(t[m].id == i2);
            assert(has_id(t, i2));
            let n = choose|n: int| 0 <= n < t.len() && (#[trigger] t[n]).id == i2;
            assert(n == m);
            assert(t[m] == s[m]);
        } else {
            assert(forall|m: int| 0 <= m < t.len() ==> (#[trigger] t[m]).id != i2);
        }
    }
}

proof fn lemma_user_push(s: Seq<UserView>, u: UserView)
    requires
        users_unique(s),
        !has_email(s, u.email),
        !has_id(s, u.id),
    ensures
        users_unique(s.push(u)),
        find_email(s.push(u), u.email) == Some(u),
        find_id(s.push(u), u.id) == Some(u),
        forall|e2: Seq<char>|
            e2 != u.email ==> #[trigger] find_email(s.push(u), e2) == find_email(s, e2),
        forall|i2: Seq<char>| i2 != u.id ==> #[trigger] find_id(s.push(u), i2) == find_id(s, i2),
{
    let t = s.push(u);
    assert(forall|m: int|
        0 <= m < s.len() ==> (#[trigger] t[m]).email == s[m].email && t[m].id == s[m].id);
    assert(t[s.len() as int] == u);
    assert(users_unique(t));
    lemma_user_found(t, s.len() as int);
    assert forall|e2: Seq<char>| e2 != u.email implies #[trigger] find_email(t, e2) == find_email(
        s,
        e2,
    ) by {
        if has_email(s, e2) {
            let m = choose|m: int| 0 <= m < s.len() && (#[trigger] s[m]).email == e2;
            assert(t[m].email == e2);
            assert(has_email(t, e2));
            let n = choose|n: int| 0 <= n < t.len() && (#[trigger] t[n]).email == e2;
            assert(n == m);
        } else {
            assert(forall|m: int| 0 <= m < t.len() ==> (#[trigger] t[m]).email != e2);
        }
    }
    assert forall|i2: Seq<char>| i2 != u.id implies #[trigger] find_id(t, i2) == find_id(
        s,
        i2,
    ) by {
        if has_id(s, i2) {
            let m = choose|m: int| 0 <= m < s.len() && (#[trigger] s[m]).id == i2;
            assert(t[m].id == i2);
            assert(has_id(t, i2));
            let n = choose|n: int| 0 <= n < t.len() && (#[trigger] t[n]).id == i2;
            assert(n == m);
        } else {
            assert(forall|m: int| 0 <= m < t.len() ==> (#[trigger] t[m]).id != i2);
        }
    }
}

/// The identity records, held in memory and addressed by unique email and
/// unique id.
pub struct UserStore {
    users: Vec<User>,
}

impl UserStore {
    /// The stored records, in insertion order.
    pub closed spec fn views(&self) -> Seq<UserView> {
        Seq::new(self.users@.len(), |i: int| self.users@[i]@)
    }

    /// Well-formed: no two records share an email or an id.
    pub open spec fn wf(&self) -> bool {
        users_unique(self.views())
    }

    pub fn new() -> (r: UserStore)
        ensures
            r.wf(),
            r.views() == Seq::<UserView>::empty(),
    {
        let r = UserStore { users: Vec::new() };
        proof {
            assert(r.views() =~= Seq::<UserView>::empty());
        }
        r
    }

    fn index_by_email(&self, email: &String) -> (r: Option<usize>)
        ensures
            r matches Some(i) ==> i < self.views().len() && self.views()[i as int].email == email@,
            r is None ==> !has_email(self.views(), email@),
    {
        let mut i: usize = 0;
        while i < self.users.len()
            invariant
                i <= self.views().len(),
                self.views().len() == self.users@.len(),
                forall|j: int| 0 <= j < i ==> (#[trigger] self.views()[j]).email != email@,
            decreases self.users@.len() - i,
        {
            assert(self.views()[i as int] == self.users@[i as int]@);
            if self.users[i].email == *email {
                return Some(i);
            }
            i = i + 1;
        }
        None
    }

    fn index_by_id(&self, id: &String) -> (r: Option<usize>)
        ensures
            r matches Some(i) ==> i < self.views().len() && self.views()[i as int].id == id@,
            r is None ==> !has_id(self.views(), id@),
    {
        let mut i: usize = 0;
        while i < self.users.len()
            invariant
                i <= self.views().len(),
                self.views().len() == self.users@.len(),
                forall|j: int| 0 <= j < i ==> (#[trigger] self.views()[j]).id != id@,
            decreases self.users@.len() - i,
        {
            assert(self.views()[i as int] == self.users@[i as int]@);
            if self.users[i].id == *id {
                return Some(i);
            }
            i = i + 1;
        }
        None
    }

    /// Creates a record under a fresh random id: active, unverified, with
    /// both timestamps set to `now`. Refused with `AlreadyExists` when the
    /// email is taken, and with `Internal` in the one case the store cannot
    /// rule out, the fresh random id colliding with a stored one.
    pub fn create(
        &mut self,
        email: &String,
        password_hash: &String,
        first_name: &String,
        last_name: &String,
        now: u64,
    ) -> (r: Result<User, AuthError>)
        requires
            old(self).wf(),
        ensures
            final(self).wf(),
            r matches Err(e) ==> *final(self) == *old(self) && (e == AuthError::AlreadyExists || e
                == AuthError::Internal) && (e == AuthError::AlreadyExists <==> has_email(
                old(self).views(),
                email@,
            )),
            r matches Ok(u) ==> !has_email(old(self).views(), email@) && u@ == (UserView {
                id: u@.id,
                email: email@,
                password_hash: password_hash@,
                first_name: first_name@,
                last_name: last_name@,
                created_at: now,
                updated_at: now,
                last_login_at: None,
                is_active: true,
                is_verified: false,
            }) && final(self).views() == old(self).views().push(u@) && find_email(
                final(self).views(),
                email@,
            ) == Some(u@) && find_id(final(self).views(), u@.id) == Some(u@) && (
            forall|e2: Seq<char>|
                e2 != email@ ==> #[trigger] find_email(final(self).views(), e2) == find_email(
                    old(self).views(),
                    e2,
                )) && (forall|i2: Seq<char>|
                i2 != u@.id ==> #[trigger] find_id(final(self).views(), i2) == find_id(
                    old(self).views(),
                    i2,
                )),
    {
        if let Some(_) = self.index_by_email(email) {
            return Err(AuthError::AlreadyExists);
        }
        let id = fresh_uuid();
        if let Some(_) = self.index_by_id(&id) {
            return Err(AuthError::Internal);
        }
        let user = User {
            id,
            email: email.clone(),
            password_hash: password_hash.clone(),
            first_name: first_name.clone(),
            last_name: last_name.clone(),
            created_at: now,
            updated_at: now,
            last_login_at: None,
            is_active: true,
            is_verified: false,
        };
        let out = user.duplicate();
        proof {
            lemma_user_push(self.views(), user@);
        }
        self.users.push(user);
        proof {
            assert(self.views() =~= old(self).views().push(out@));
        }
        Ok(out)
    }

    /// The record stored under this email, if any.
    pub fn find_by_email(&self, email: &String) -> (r: Option<User>)
        requires
            self.wf(),
        ensures
            r matches Some(u) ==> find_email(self.views(), email@) == Some(u@),
            r is None ==> !has_email(self.views(), email@),
    {
        match self.index_by_email(email) {
            Some(i) => {
                proof {
                    lemma_user_found(self.views(), i as int);
                }
                Some(self.users[i].duplicate())
            },
            None => None,
        }
    }

    /// The record stored under this id, if any.
    pub fn find_by_id(&self, id: &String) -> (r: Option<User>)
        requires
            self.wf(),
        ensures
            r matches Some(u) ==> find_id(self.views(), id@) == Some(u@),
            r is None ==> !has_id(self.views(), id@),
    {
        match self.index_by_id(id) {
            Some(i) => {
                proof {
                    lemma_user_found(self.views(), i as int);
                }
                Some(self.users[i].duplicate())
            },
            None => None,
        }
    }

    /// Replaces the stored password hash of the record with this id; every
    /// other field of the record is left as it was.
    pub fn update_password(&mut self, id: &String, new_password_hash: &String) -> (r: Result<
        (),
        AuthError,
    >)
        requires
            old(self).wf(),
        ensures
            final(self).wf(),
            r is Ok <==> has_id(old(self).views(), id@),
            r matches Err(e) ==> e == AuthError::NotFound && *final(self) == *old(self),
            r is Ok ==> ({
                let u = find_id(old(self).views(), id@)->Some_0;
                let v = (UserView { password_hash: new_password_hash@, ..u });
                find_id(final(self).views(), id@) == Some(v) && find_email(
                    final(self).views(),
                    u.email,
                ) == Some(v) && (forall|i2: Seq<char>|
                    i2 != id@ ==> #[trigger] find_id(final(self).views(), i2) == find_id(
                        old(self).views(),
                        i2,
                    )) && (forall|e2: Seq<char>|
                    e2 != u.email ==> #[trigger] find_email(final(self).views(), e2) == find_email(
                        old(self).views(),
                        e2,
                    ))
            }),
    {
        match self.index_by_id(id) {
            Some(i) => {
                proof {
                    lemma_user_found(self.views(), i as int);
                }
                let stored = self.users[i].duplicate();
                let updated = User { password_hash: new_password_hash.clone(), ..stored };
                proof {
                    lemma_user_update(self.views(), i as int, updated@);
                }
                self.users.set(i, updated);
                proof {
                    assert(self.views() =~= old(self).views().update(i as int, updated@));
                }
                Ok(())
            },
            None => Err(AuthError::NotFound),
        }
    }

    /// Stamps the record with this id as last logged in at `now`.
    pub fn update_last_login(&mut self, id: &String, now: u64) -> (r: Result<(), AuthError>)
        requires
            old(self).wf(),
        ensures
            final(self).wf(),
            r is Ok <==> has_id(old(self).views(), id@),
            r matches Err(e) ==> e == AuthError::NotFound && *final(self) == *old(self),
            r is Ok ==> ({
                let u = find_id(old(self).views(), id@)->Some_0;
                let v = (UserView { last_login_at: Some(now), ..u });
                find_id(final(self).views(), id@) == Some(v) && find_email(
                    final(self).views(),
                    u.email,
                ) == Some(v) && (forall|i2: Seq<char>|
                    i2 != id@ ==> #[trigger] find_id(final(self).views(), i2) == find_id(
                        old(self).views(),
                        i2,
                    )) && (forall|e2: Seq<char>|
                    e2 != u.email ==> #[trigger] find_email(final(self).views(), e2) == find_email(
                        old(self).views(),
                        e2,
                    ))
            }),
    {
        match self.index_by_id(id) {
            Some(i) => {
                proof {
                    lemma_user_found(self.views(), i as int);
                }
                let stored = self.users[i].duplicate();
                let updated = User { last_login_at: Some(now), ..stored };
                proof {
                    lemma_user_update(self.views(), i as int, updated@);
                }
                self.users.set(i, updated);
                proof {
                    assert(self.views() =~= old(self).views().update(i as int, updated@));
                }
                Ok(())
            },
            None => Err(AuthError::NotFound),
        }
    }
}

} // verus!
