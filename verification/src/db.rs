//! The two tables behind authentication, held in memory: accounts, unique
//! by id and by e-mail, and refresh sessions, at most one for each account.
//!
//! Each operation stands for one statement that the handlers issue against
//! durable storage, and says what that statement does to the tables.

use vstd::prelude::*;

use crate::auth::RefreshTokenRecord;
use crate::auth::User;
use crate::table::keys_distinct;
use crate::table::lemma_table_entry;
use crate::table::lemma_table_push;
use crate::table::lemma_table_remove;
use crate::table::lemma_table_row;
use crate::table::lemma_table_update;
use crate::table::table_of;

verus! {

/// What is stored of an account besides its id.
pub ghost struct Account {
    pub email: Seq<char>,
    pub password_hash: Seq<char>,
}

/// What is stored of a refresh session besides the account it belongs to.
pub ghost struct Session {
    /// Hexadecimal SHA-256 of the refresh token; the token itself is never
    /// stored.
    pub token_hash: Seq<char>,
    pub expires_at: int,
}

/// The content of the two tables.
pub ghost struct Tables {
    /// Accounts by id.
    pub accounts: Map<int, Account>,
    /// Refresh sessions by account id: a map, so one account has at most one.
    pub sessions: Map<int, Session>,
    /// The id that the next new account gets.
    pub next_user_id: int,
}

/// A row of the refresh-session table.
#[derive(Debug)]
pub struct RefreshSession {
    pub user_id: i64,
    pub token_hash: String,
    /// Expiry, in seconds since the Unix epoch.
    pub expires_at: i64,
}

/// The stored part of an account row.
pub open spec fn account_of(user: User) -> Account {
    Account { email: user.email@, password_hash: user.password_hash@ }
}

/// The stored part of a session row.
pub open spec fn session_of(row: RefreshSession) -> Session {
    Session { token_hash: row.token_hash@, expires_at: row.expires_at as int }
}

/// Some account is registered under `email`.
pub open spec fn email_taken(accounts: Map<int, Account>, email: Seq<char>) -> bool {
    exists|id: int| accounts.contains_key(id) && (#[trigger] accounts[id]).email == email
}

/// The id of an account registered under `email`.
pub open spec fn account_id_for(accounts: Map<int, Account>, email: Seq<char>) -> int {
    choose|id: int| accounts.contains_key(id) && (#[trigger] accounts[id]).email == email
}

/// No two accounts share an e-mail address.
pub open spec fn emails_unique(accounts: Map<int, Account>) -> bool {
    forall|a: int, b: int|
        accounts.contains_key(a) && accounts.contains_key(b) && (#[trigger] accounts[a]).email == (
        #[trigger] accounts[b]).email ==> a == b
}

/// The account `uid` has a session whose token hash is `hash`.
pub open spec fn holds_hash(sessions: Map<int, Session>, uid: int, hash: Seq<char>) -> bool {
    sessions.contains_key(uid) && sessions[uid].token_hash == hash
}

/// `uid` holds `hash`, and no account with a smaller id does.
pub open spec fn is_first_holder(sessions: Map<int, Session>, hash: Seq<char>, uid: int) -> bool {
    holds_hash(sessions, uid, hash) && forall|v: int| #[trigger]
        holds_hash(sessions, v, hash) ==> uid <= v
}

/// The account that a look-up by token hash finds: the holder with the
/// smallest id. Two holders of one hash can only come from a collision of
/// the hash or a repeated random token.
pub open spec fn first_holder(sessions: Map<int, Session>, hash: Seq<char>) -> Option<int> {
    if exists|u: int| is_first_holder(sessions, hash, u) {
        Some(choose|u: int| is_first_holder(sessions, hash, u))
    } else {
        None
    }
}

/// The sessions that are left when every one with token hash `hash` is
/// deleted.
pub open spec fn without_hash(sessions: Map<int, Session>, hash: Seq<char>) -> Map<int, Session> {
    Map::new(|uid: int| sessions.contains_key(uid) && sessions[uid].token_hash != hash, |uid: int| sessions[uid])
}

/// The sessions after one rotation: the rows with the old hash, if one is
/// given, are deleted, and the new session replaces whatever its account had.
pub open spec fn rotated(
    sessions: Map<int, Session>,
    old_hash: Option<Seq<char>>,
    uid: int,
    fresh: Session,
) -> Map<int, Session> {
    match old_hash {
        Some(hash) => without_hash(sessions, hash).insert(uid, fresh),
        None => sessions.insert(uid, fresh),
    }
}

/// The first holder is the only account that satisfies its definition.
pub proof fn lemma_first_holder_is(sessions: Map<int, Session>, hash: Seq<char>, uid: int)
    requires
        is_first_holder(sessions, hash, uid),
    ensures
        first_holder(sessions, hash) == Some(uid),
{
    let chosen = choose|u: int| is_first_holder(sessions, hash, u);
    assert(holds_hash(sessions, chosen, hash) && holds_hash(sessions, uid, hash));
}

/// A hash that no session carries finds nobody.
pub proof fn lemma_no_holder(sessions: Map<int, Session>, hash: Seq<char>)
    requires
        forall|v: int| !holds_hash(sessions, v, hash),
    ensures
        first_holder(sessions, hash) is None,
{
}

spec fn user_rows(users: Seq<User>) -> Seq<(int, Account)> {
    Seq::new(users.len(), |i: int| (users[i].id as int, account_of(users[i])))
}

spec fn session_rows(rows: Seq<RefreshSession>) -> Seq<(int, Session)> {
    Seq::new(rows.len(), |i: int| (rows[i].user_id as int, session_of(rows[i])))
}

/// The accounts and refresh sessions, in memory.
pub struct Database {
    users: Vec<User>,
    next_user_id: i64,
    sessions: Vec<RefreshSession>,
}

impl View for Database {
    type V = Tables;

    closed spec fn view(&self) -> Tables {
        Tables {
            accounts: table_of(user_rows(self.users@)),
            sessions: table_of(session_rows(self.sessions@)),
            next_user_id: self.next_user_id as int,
        }
    }
}

/// Compares two texts character by character.
pub fn text_eq(a: &str, b: &str) -> (same: bool)
    ensures
        same == (a@ == b@),
{
    let x = a.to_owned();
    let y = b.to_owned();
    x == y
}

impl Database {
    /// The representation is sound: ids and e-mail addresses are unique
    /// among the accounts, every id was handed out by the counter, and no
    /// account has two sessions.
    pub closed spec fn wf(&self) -> bool {
        &&& keys_distinct(user_rows(self.users@))
        &&& keys_distinct(session_rows(self.sessions@))
        &&& forall|i: int, j: int|
            0 <= i < j < self.users@.len() ==> (#[trigger] self.users@[i]).email@ != (
            #[trigger] self.users@[j]).email@
        &&& forall|i: int| 0 <= i < self.users@.len() ==> 1 <= (#[trigger] self.users@[i]).id < self.next_user_id
        &&& 1 <= self.next_user_id
    }

    /// What a sound representation means for the tables: e-mail addresses
    /// are unique, every account id is positive and below the counter, and
    /// every session belongs to an id of 64 signed bits.
    pub proof fn lemma_wf_tables(&self)
        requires
            self.wf(),
        ensures
            emails_unique(self@.accounts),
            forall|id: int| self@.accounts.contains_key(id) ==> 1 <= id < self@.next_user_id,
            forall|uid: int| self@.sessions.contains_key(uid) ==> i64::MIN <= uid <= i64::MAX,
            1 <= self@.next_user_id <= i64::MAX,
    {
        let rows = user_rows(self.users@);
        assert forall|uid: int| self@.sessions.contains_key(uid) implies i64::MIN <= uid <= i64::MAX by {
            let i = lemma_table_entry(session_rows(self.sessions@), uid);
        }
        assert forall|a: int, b: int|
            self@.accounts.contains_key(a) && self@.accounts.contains_key(b) && (
            #[trigger] self@.accounts[a]).email == (#[trigger] self@.accounts[b]).email implies a
            == b by {
            let i = lemma_table_entry(rows, a);
            let j = lemma_table_entry(rows, b);
            if i < j {
                assert(self.users@[i].email@ != self.users@[j].email@);
            } else if j < i {
                assert(self.users@[j].email@ != self.users@[i].email@);
            }
        }
        assert forall|id: int| self@.accounts.contains_key(id) implies 1 <= id < self@.next_user_id by {
            let i = lemma_table_entry(rows, id);
            assert(1 <= self.users@[i].id < self.next_user_id);
        }
    }

    /// Empty tables; the first account will get the id 1.
    pub fn new() -> (db: Database)
        ensures
            db.wf(),
            db@ == (Tables { accounts: Map::empty(), sessions: Map::empty(), next_user_id: 1 }),
    {
        let db = Database { users: Vec::new(), next_user_id: 1, sessions: Vec::new() };
        proof {
            assert(table_of(user_rows(db.users@)) =~= Map::<int, Account>::empty());
            assert(table_of(session_rows(db.sessions@)) =~= Map::<int, Session>::empty());
        }
        db
    }

    /// The account registered under `email`, if there is one.
    pub fn find_user_by_email(&self, email: &str) -> (found: Option<User>)
        requires
            self.wf(),
        ensures
            found is Some <==> email_taken(self@.accounts, email@),
            found matches Some(user) ==> {
                &&& user.email@ == email@
                &&& user.id as int == account_id_for(self@.accounts, email@)
                &&& self@.accounts.contains_key(user.id as int)
                &&& self@.accounts[user.id as int] == account_of(user)
            },
    {
        let ghost rows = user_rows(self.users@);
        let mut i: usize = 0;
        while i < self.users.len()
            invariant
                self.wf(),
                i <= self.users@.len(),
                rows == user_rows(self.users@),
                forall|j: int| 0 <= j < i ==> (#[trigger] self.users@[j]).email@ != email@,
            decreases self.users@.len() - i,
        {
            if text_eq(self.users[i].email.as_str(), email) {
                let row = &self.users[i];
                let user = User { id: row.id, email: row.email.clone(), password_hash: row.password_hash.clone() };
                proof {
                    lemma_table_row(rows, i as int);
                    self.lemma_wf_tables();
                    assert(self@.accounts[user.id as int].email == email@);
                }
                return Some(user);
            }
            i += 1;
        }
        proof {
            if email_taken(self@.accounts, email@) {
                let id = account_id_for(self@.accounts, email@);
                let j = lemma_table_entry(rows, id);
                assert(self.users@[j].email@ == email@);
            }
        }
        None
    }

    /// The account with the id `id`, if there is one.
    pub fn find_user_by_id(&self, id: i64) -> (found: Option<User>)
        requires
            self.wf(),
        ensures
            found is Some <==> self@.accounts.contains_key(id as int),
            found matches Some(user) ==> user.id == id && self@.accounts[id as int] == account_of(user),
    {
        let ghost rows = user_rows(self.users@);
        let mut i: usize = 0;
        while i < self.users.len()
            invariant
                self.wf(),
                i <= self.users@.len(),
                rows == user_rows(self.users@),
                forall|j: int| 0 <= j < i ==> (#[trigger] self.users@[j]).id != id,
            decreases self.users@.len() - i,
        {
            if self.users[i].id == id {
                let row = &self.users[i];
                let user = User { id: row.id, email: row.email.clone(), password_hash: row.password_hash.clone() };
                proof {
                    lemma_table_row(rows, i as int);
                }
                return Some(user);
            }
            i += 1;
        }
        proof {
            if self@.accounts.contains_key(id as int) {
                let j = lemma_table_entry(rows, id as int);
                assert(self.users@[j].id == id);
            }
        }
        None
    }

    /// Adds an account and hands out its id. The table is left as it was,
    /// and `None` comes back, where the e-mail address is taken or the ids
    /// have run out.
    pub fn insert_user(&mut self, email: String, password_hash: String) -> (id: Option<i64>)
        requires
            old(self).wf(),
        ensures
            final(self).wf(),
            id is Some <==> !email_taken(old(self)@.accounts, email@) && old(self)@.next_user_id < i64::MAX,
            id matches Some(n) ==> n as int == old(self)@.next_user_id && final(self)@ == (Tables {
                accounts: old(self)@.accounts.insert(
                    n as int,
                    Account { email: email@, password_hash: password_hash@ },
                ),
                sessions: old(self)@.sessions,
                next_user_id: n + 1,
            }),
            id is None ==> final(self)@ == old(self)@,
    {
        if self.find_user_by_email(email.as_str()).is_some() {
            return None;
        }
        if self.next_user_id == i64::MAX {
            return None;
        }
        let id = self.next_user_id;
        let ghost before = self.users@;
        let ghost account = Account { email: email@, password_hash: password_hash@ };
        proof {
            self.lemma_wf_tables();
            assert forall|j: int| 0 <= j < before.len() implies (#[trigger] before[j]).email@ != email@ by {
                lemma_table_row(user_rows(before), j);
            }
            lemma_table_push(user_rows(before), id as int, account);
        }
        self.users.push(User { id, email, password_hash });
        self.next_user_id = id + 1;
        proof {
            assert(user_rows(self.users@) =~= user_rows(before).push((id as int, account)));
        }
        Some(id)
    }

    /// The refresh session that carries `token_hash`, as a look-up by hash
    /// sees it: the holder with the smallest account id, and its expiry.
    pub fn find_session_by_hash(&self, token_hash: &str) -> (found: Option<RefreshTokenRecord>)
        requires
            self.wf(),
        ensures
            found is Some <==> first_holder(self@.sessions, token_hash@) is Some,
            found matches Some(record) ==> {
                &&& first_holder(self@.sessions, token_hash@) == Some(record.user_id as int)
                &&& self@.sessions[record.user_id as int].expires_at == record.expires_at
            },
            found is None ==> forall|uid: int| !holds_hash(self@.sessions, uid, token_hash@),
    {
        let ghost rows = session_rows(self.sessions@);
        let mut best: Option<RefreshTokenRecord> = None;
        let mut i: usize = 0;
        while i < self.sessions.len()
            invariant
                self.wf(),
                i <= self.sessions@.len(),
                rows == session_rows(self.sessions@),
                best is None ==> forall|j: int|
                    0 <= j < i ==> (#[trigger] self.sessions@[j]).token_hash@ != token_hash@,
                best matches Some(record) ==> {
                    &&& exists|k: int|
                        0 <= k < i && (#[trigger] self.sessions@[k]).user_id == record.user_id
                            && self.sessions@[k].token_hash@ == token_hash@ && self.sessions@[k].expires_at
                            == record.expires_at
                    &&& forall|j: int|
                        0 <= j < i && (#[trigger] self.sessions@[j]).token_hash@ == token_hash@
                            ==> record.user_id <= self.sessions@[j].user_id
                },
            decreases self.sessions@.len() - i,
        {
            let row = &self.sessions[i];
            if text_eq(row.token_hash.as_str(), token_hash) {
                let better = match &best {
                    Some(record) => row.user_id < record.user_id,
                    None => true,
                };
                if better {
                    best = Some(RefreshTokenRecord { user_id: row.user_id, expires_at: row.expires_at });
                }
            }
            i += 1;
        }
        proof {
            let sessions = self@.sessions;
            match best {
                Some(record) => {
                    let k = choose|k: int|
                        0 <= k < self.sessions@.len() && (#[trigger] self.sessions@[k]).user_id
                            == record.user_id && self.sessions@[k].token_hash@ == token_hash@
                            && self.sessions@[k].expires_at == record.expires_at;
                    lemma_table_row(rows, k);
                    assert forall|v: int| #[trigger]
                        holds_hash(sessions, v, token_hash@) implies record.user_id <= v by {
                        let j = lemma_table_entry(rows, v);
                        assert(self.sessions@[j].token_hash@ == token_hash@);
                    }
                    lemma_first_holder_is(sessions, token_hash@, record.user_id as int);
                },
                None => {
                    assert forall|v: int| !holds_hash(sessions, v, token_hash@) by {
                        if holds_hash(sessions, v, token_hash@) {
                            let j = lemma_table_entry(rows, v);
                            assert(self.sessions@[j].token_hash@ == token_hash@);
                        }
                    }
                },
            }
        }
        best
    }

    /// Deletes every refresh session that carries `token_hash`.
    pub fn delete_sessions_by_hash(&mut self, token_hash: &str)
        requires
            old(self).wf(),
        ensures
            final(self).wf(),
            final(self)@ == (Tables { sessions: without_hash(old(self)@.sessions, token_hash@), ..old(self)@ }),
    {
        let ghost start = self@.sessions;
        let mut i: usize = 0;
        while i < self.sessions.len()
            invariant
                self.wf(),
                i <= self.sessions@.len(),
                self.users == old(self).users,
                self.next_user_id == old(self).next_user_id,
                forall|j: int| 0 <= j < i ==> (#[trigger] self.sessions@[j]).token_hash@ != token_hash@,
                forall|uid: int| #[trigger]
                    self@.sessions.contains_key(uid) ==> start.contains_key(uid) && start[uid]
                        == self@.sessions[uid],
                forall|uid: int|
                    start.contains_key(uid) && (#[trigger] start[uid]).token_hash != token_hash@
                        ==> self@.sessions.contains_key(uid),
            decreases self.sessions@.len() - i,
        {
            if text_eq(self.sessions[i].token_hash.as_str(), token_hash) {
                let ghost before = self.sessions@;
                proof {
                    lemma_table_row(session_rows(before), i as int);
                    lemma_table_remove(session_rows(before), i as int);
                    assert(session_rows(before.remove(i as int)) =~= session_rows(before).remove(i as int));
                }
                let ghost table = self@.sessions;
                self.sessions.remove(i);
                proof {
                    assert forall|uid: int| #[trigger] self@.sessions.contains_key(uid) implies table.contains_key(
                        uid,
                    ) && table[uid] == self@.sessions[uid] by {}
                    assert forall|uid: int|
                        start.contains_key(uid) && (#[trigger] start[uid]).token_hash
                            != token_hash@ implies self@.sessions.contains_key(uid) by {
                        assert(table.contains_key(uid));
                    }
                }
            } else {
                i += 1;
            }
        }
        proof {
            let rows = session_rows(self.sessions@);
            assert forall|uid: int| #[trigger]
                self@.sessions.contains_key(uid) implies self@.sessions[uid].token_hash != token_hash@ by {
                let j = lemma_table_entry(rows, uid);
                assert(self.sessions@[j].token_hash@ != token_hash@);
            }
            assert(self@.sessions =~= without_hash(start, token_hash@));
        }
    }

    /// Deletes the refresh session of the account `user_id`, if it has one.
    pub fn delete_session_of(&mut self, user_id: i64)
        requires
            old(self).wf(),
        ensures
            final(self).wf(),
            final(self)@ == (Tables { sessions: old(self)@.sessions.remove(user_id as int), ..old(self)@ }),
    {
        let ghost rows = session_rows(self.sessions@);
        let mut i: usize = 0;
        while i < self.sessions.len()
            invariant
                self.wf(),
                i <= self.sessions@.len(),
                *self == *old(self),
                rows == session_rows(self.sessions@),
                forall|j: int| 0 <= j < i ==> (#[trigger] self.sessions@[j]).user_id != user_id,
            decreases self.sessions@.len() - i,
        {
            if self.sessions[i].user_id == user_id {
                proof {
                    lemma_table_remove(rows, i as int);
                    assert(session_rows(self.sessions@.remove(i as int)) =~= rows.remove(i as int));
                }
                self.sessions.remove(i);
                return ;
            }
            i += 1;
        }
        proof {
            if self@.sessions.contains_key(user_id as int) {
                let j = lemma_table_entry(rows, user_id as int);
                assert(self.sessions@[j].user_id == user_id);
            }
            assert(self@.sessions =~= self@.sessions.remove(user_id as int));
        }
    }

    /// Stores `session`, in place of the session that its account had, if it
    /// had one.
    pub fn upsert_session(&mut self, session: RefreshSession)
        requires
            old(self).wf(),
        ensures
            final(self).wf(),
            final(self)@ == (Tables {
                sessions: old(self)@.sessions.insert(session.user_id as int, session_of(session)),
                ..old(self)@
            }),
    {
        let ghost rows = session_rows(self.sessions@);
        let ghost fresh = session_of(session);
        let mut i: usize = 0;
        while i < self.sessions.len()
            invariant
                self.wf(),
                fresh == session_of(session),
                i <= self.sessions@.len(),
                *self == *old(self),
                rows == session_rows(self.sessions@),
                forall|j: int| 0 <= j < i ==> (#[trigger] self.sessions@[j]).user_id != session.user_id,
            decreases self.sessions@.len() - i,
        {
            if self.sessions[i].user_id == session.user_id {
                proof {
                    lemma_table_update(rows, i as int, fresh);
                    assert(session_rows(self.sessions@.update(i as int, session)) =~= rows.update(
                        i as int,
                        (rows[i as int].0, fresh),
                    ));
                }
                self.sessions.set(i, session);
                return ;
            }
            i += 1;
        }
        proof {
            if self@.sessions.contains_key(session.user_id as int) {
                let j = lemma_table_entry(rows, session.user_id as int);
                assert(self.sessions@[j].user_id == session.user_id);
            }
            lemma_table_push(rows, session.user_id as int, fresh);
            assert(session_rows(self.sessions@.push(session)) =~= rows.push((session.user_id as int, fresh)));
        }
        self.sessions.push(session);
    }

    /// One rotation, as a single step: the sessions that carry `old_hash`,
    /// if one is given, are deleted, and `session` is stored in place of
    /// whatever its account had. No state in between can be observed.
    pub fn rotate_session(&mut self, old_hash: Option<&str>, session: RefreshSession)
        requires
            old(self).wf(),
        ensures
            final(self).wf(),
            final(self)@ == (Tables {
                sessions: rotated(
                    old(self)@.sessions,
                    match old_hash {
                        Some(hash) => Some(hash@),
                        None => None,
                    },
                    session.user_id as int,
                    session_of(session),
                ),
                ..old(self)@
            }),
    {
        if let Some(hash) = old_hash {
            self.delete_sessions_by_hash(hash);
        }
        self.upsert_session(session);
    }
}

} // verus!
