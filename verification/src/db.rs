//! The store of linked users.

use crate::registry::{
    as_map, collected, distinct, lemma_as_map_at, lemma_as_map_push, lemma_as_map_remove,
    lemma_as_map_update, lemma_collected_distinct, lookup, names, place, Registry,
};
use crate::text::{same_text, slice_of};
use crate::vault::{age_decrypt, age_encrypt, age_payload};
use vstd::prelude::*;

verus! {

/// What authorizes the service to act for a user, or stands in for it.
#[derive(Debug, PartialEq, Eq)]
pub enum SlackToken {
    /// The user has authorized the service: the secret to act with.
    Oauth(String),
    /// The user has yet to authorize: the token that their answer will carry.
    Csrf(String),
}

/// A token as a value.
pub enum TokenView {
    Oauth(Seq<char>),
    Csrf(Seq<char>),
}

impl View for SlackToken {
    type V = TokenView;

    open spec fn view(&self) -> TokenView {
        match self {
            SlackToken::Oauth(secret) => TokenView::Oauth(secret@),
            SlackToken::Csrf(token) => TokenView::Csrf(token@),
        }
    }
}

impl Clone for SlackToken {
    fn clone(&self) -> (copy: Self)
        ensures
            copy@ == self@,
    {
        match self {
            SlackToken::Oauth(secret) => SlackToken::Oauth(secret.clone()),
            SlackToken::Csrf(token) => SlackToken::Csrf(token.clone()),
        }
    }
}

/// A linked user as a value.
pub struct UserView {
    pub lastfm_username: Seq<char>,
    pub slack_token: TokenView,
}

impl UserView {
    /// Whether the user has authorized the service.
    pub open spec fn authorized(self) -> bool {
        self.slack_token is Oauth
    }

    /// Whether the user is waiting to authorize with the token `state`.
    pub open spec fn awaits(self, state: Seq<char>) -> bool {
        self.slack_token == TokenView::Csrf(state)
    }
}

/// One linked user: the account whose tracks are mirrored, and the token.
#[derive(Debug, PartialEq, Eq)]
pub struct UserData {
    lastfm_username: String,
    slack_token: SlackToken,
}

impl View for UserData {
    type V = UserView;

    closed spec fn view(&self) -> UserView {
        UserView { lastfm_username: self.lastfm_username@, slack_token: self.slack_token@ }
    }
}

impl Clone for UserData {
    fn clone(&self) -> (copy: Self)
        ensures
            copy@ == self@,
    {
        UserData {
            lastfm_username: self.lastfm_username.clone(),
            slack_token: self.slack_token.clone(),
        }
    }
}

impl UserData {
    /// A user who has yet to authorize, with the token that their answer will carry.
    pub fn new(lastfm_username: String, csrf: String) -> (user: Self)
        ensures
            user@ == (UserView {
                lastfm_username: lastfm_username@,
                slack_token: TokenView::Csrf(csrf@),
            }),
    {
        UserData { lastfm_username, slack_token: SlackToken::Csrf(csrf) }
    }

    /// A user who has authorized the service with `token`.
    pub fn authorized(lastfm_username: String, token: String) -> (user: Self)
        ensures
            user@ == (UserView {
                lastfm_username: lastfm_username@,
                slack_token: TokenView::Oauth(token@),
            }),
    {
        UserData { lastfm_username, slack_token: SlackToken::Oauth(token) }
    }

    pub fn update_lastfm_username(&mut self, lastfm_username: String)
        ensures
            final(self)@ == (UserView { lastfm_username: lastfm_username@, ..old(self)@ }),
    {
        self.lastfm_username = lastfm_username;
    }

    /// The secret to act with, where the user has authorized.
    pub fn slack_token(&self) -> (secret: Option<&str>)
        ensures
            slice_of(secret) == match self@.slack_token {
                TokenView::Oauth(s) => Some(s),
                TokenView::Csrf(_) => None,
            },
    {
        match &self.slack_token {
            SlackToken::Oauth(token) => Some(token.as_str()),
            _ => None,
        }
    }

    /// The token awaited, where the user has yet to authorize.
    pub fn csrf_token(&self) -> (token: Option<&str>)
        ensures
            slice_of(token) == match self@.slack_token {
                TokenView::Csrf(t) => Some(t),
                TokenView::Oauth(_) => None,
            },
    {
        match &self.slack_token {
            SlackToken::Csrf(token) => Some(token.as_str()),
            _ => None,
        }
    }

    pub fn lastfm_username(&self) -> (name: &str)
        ensures
            name@ == self@.lastfm_username,
    {
        self.lastfm_username.as_str()
    }

    /// Records that the user has authorized the service with `token`.
    pub fn promote_token(&mut self, token: String)
        ensures
            final(self)@ == (UserView { slack_token: TokenView::Oauth(token@), ..old(self)@ }),
    {
        self.slack_token = SlackToken::Oauth(token);
    }
}

/// Why the store could not be read or written.
#[derive(Debug, Clone, Copy, PartialEq, Eq, Structural)]
pub enum DbError {
    EncryptionError,
    IoError,
    SerdeError,
}

impl DbError {
    pub open spec fn message_text(&self) -> Seq<char> {
        match self {
            DbError::EncryptionError => "Error encrypting or decrypting the database"@,
            DbError::IoError => "Error reading or writing the database file"@,
            DbError::SerdeError => "Error serializing or deserializing the database"@,
        }
    }

    /// The text shown for this error.
    pub fn message(&self) -> (text: String)
        ensures
            text@ == self.message_text(),
    {
        match self {
            DbError::EncryptionError => "Error encrypting or decrypting the database".to_owned(),
            DbError::IoError => "Error reading or writing the database file".to_owned(),
            DbError::SerdeError => "Error serializing or deserializing the database".to_owned(),
        }
    }
}

/// The records of `users` as values, in order.
pub open spec fn records_of(users: Seq<(Seq<char>, UserData)>) -> Seq<(Seq<char>, UserView)> {
    Seq::new(users.len(), |i: int| (users[i].0, users[i].1@))
}

/// The records of a list of users as values, in order.
pub open spec fn listed(users: Seq<(String, UserData)>) -> Seq<(Seq<char>, UserView)> {
    Seq::new(users.len(), |i: int| (users[i].0@, users[i].1@))
}

/// The first record among `records` that awaits the token `state`.
pub open spec fn csrf_holder(records: Seq<(Seq<char>, UserView)>, state: Seq<char>) -> Option<
    (Seq<char>, UserView),
>
    decreases records.len(),
{
    if records.len() == 0 {
        None
    } else if records[0].1.awaits(state) {
        Some(records[0])
    } else {
        csrf_holder(records.drop_first(), state)
    }
}

/// A user with their name, as a value; nothing where absent.
pub open spec fn named_user(found: Option<(String, UserData)>) -> Option<(Seq<char>, UserView)> {
    match found {
        Some((name, user)) => Some((name@, user@)),
        None => None,
    }
}

/// A user as a value; nothing where absent.
pub open spec fn user_of(found: Option<UserData>) -> Option<UserView> {
    match found {
        Some(user) => Some(user@),
        None => None,
    }
}

/// The store of linked users, each under the name that the chat platform
/// knows them by, with the place it is kept at and the passphrase it is
/// sealed with.
#[derive(Debug)]
pub struct Db {
    db: Registry<UserData>,
    location: String,
    key: String,
}

impl View for Db {
    type V = Map<Seq<char>, UserView>;

    /// The users of the store, each under their name.
    open spec fn view(&self) -> Map<Seq<char>, UserView> {
        as_map(self.records())
    }
}

impl Db {
    /// The records of the store, in the order in which their names arrived.
    pub closed spec fn records(&self) -> Seq<(Seq<char>, UserView)> {
        records_of(self.db.entries())
    }

    /// No name occurs twice among the records.
    pub open spec fn wf(&self) -> bool {
        distinct(self.records())
    }

    /// The place the store is kept at.
    pub closed spec fn path(&self) -> Seq<char> {
        self.location@
    }

    /// The passphrase the store is sealed with.
    pub closed spec fn passphrase(&self) -> Seq<char> {
        self.key@
    }

    proof fn lemma_wf(&self)
        ensures
            self.wf() == self.db.wf(),
    {
        let entries = self.db.entries();
        let records = self.records();
        if distinct(records) {
            assert forall|i: int, j: int|
                0 <= i < entries.len() && 0 <= j < entries.len() && i != j implies entries[i].0
                != entries[j].0 by {
                assert(records[i].0 == entries[i].0 && records[j].0 == entries[j].0);
            }
        }
        if distinct(entries) {
            assert forall|i: int, j: int|
                0 <= i < records.len() && 0 <= j < records.len() && i != j implies records[i].0
                != records[j].0 by {
                assert(records[i].0 == entries[i].0 && records[j].0 == entries[j].0);
            }
        }
    }

    /// An empty store.
    pub fn new(file_path: String, key: String) -> (db: Self)
        ensures
            db.wf(),
            db.records() == Seq::<(Seq<char>, UserView)>::empty(),
            db@ == Map::<Seq<char>, UserView>::empty(),
            db.path() == file_path@,
            db.passphrase() == key@,
    {
        let db = Db { db: Registry::new(), location: file_path, key };
        assert(db.records() =~= Seq::<(Seq<char>, UserView)>::empty());
        assert(db@ =~= Map::<Seq<char>, UserView>::empty());
        db
    }

    pub fn location(&self) -> (path: &str)
        ensures
            path@ == self.path(),
    {
        self.location.as_str()
    }

    pub fn key(&self) -> (key: &str)
        ensures
            key@ == self.passphrase(),
    {
        self.key.as_str()
    }

    /// The user under `username`.
    pub fn user(&self, username: &str) -> (found: Option<UserData>)
        requires
            self.wf(),
        ensures
            user_of(found) == lookup(self@, username@),
    {
        match self.db.position(username) {
            Some(i) => {
                proof {
                    assert(self.records()[i as int].0 == username@);
                    lemma_as_map_at(self.records(), i as int);
                }
                Some(self.db.value_at(i).clone())
            },
            None => {
                proof {
                    if names(self.records(), username@) {
                        let i = place(self.records(), username@);
                        assert(self.db.entries()[i].0 == username@);
                    }
                }
                None
            },
        }
    }

    /// All users with their names, in the order of the records.
    pub fn users(&self) -> (all: Vec<(String, UserData)>)
        ensures
            listed(all@) == self.records(),
    {
        let mut all: Vec<(String, UserData)> = Vec::new();
        let mut i: usize = 0;
        while i < self.db.len()
            invariant
                i <= self.db.entries().len(),
                all.len() == i,
                forall|j: int| 0 <= j < i ==> (all@[j].0@, all@[j].1@) == self.records()[j],
            decreases self.db.entries().len() - i,
        {
            let name = self.db.name_at(i).to_owned();
            let user = self.db.value_at(i).clone();
            all.push((name, user));
            i += 1;
        }
        assert(listed(all@) =~= self.records());
        all
    }

    /// Puts `data` under `username`, in place of what was there.
    pub fn add_user(&mut self, username: String, data: UserData)
        requires
            old(self).wf(),
        ensures
            final(self).wf(),
            final(self)@ == old(self)@.insert(username@, data@),
            final(self).records() == if old(self)@.contains_key(username@) {
                old(self).records().update(
                    place(old(self).records(), username@),
                    (username@, data@),
                )
            } else {
                old(self).records().push((username@, data@))
            },
            final(self).path() == old(self).path(),
            final(self).passphrase() == old(self).passphrase(),
    {
        let ghost before = self.records();
        let ghost entries = self.db.entries();
        proof {
            self.lemma_wf();
        }
        let displaced = self.db.insert(username, data);
        proof {
            if displaced.is_some() {
                assert(names(entries, username@));
                let i = place(entries, username@);
                assert(before[i].0 == username@);
                lemma_as_map_at(before, i);
                lemma_as_map_update(before, i, data@);
                assert(self.records() =~= before.update(i, (username@, data@)));
            } else {
                if names(before, username@) {
                    let i = place(before, username@);
                    assert(entries[i].0 == username@);
                }
                lemma_as_map_push(before, username@, data@);
                assert(self.records() =~= before.push((username@, data@)));
            }
        }
    }

    /// Takes the user under `username` out of the store.
    pub fn remove_user(&mut self, username: &str) -> (removed: Option<UserData>)
        requires
            old(self).wf(),
        ensures
            final(self).wf(),
            final(self)@ == old(self)@.remove(username@),
            user_of(removed) == lookup(old(self)@, username@),
            final(self).records() == if old(self)@.contains_key(username@) {
                old(self).records().remove(place(old(self).records(), username@))
            } else {
                old(self).records()
            },
            final(self).path() == old(self).path(),
            final(self).passphrase() == old(self).passphrase(),
    {
        let ghost before = self.records();
        let ghost entries = self.db.entries();
        proof {
            self.lemma_wf();
        }
        let removed = self.db.remove(username);
        proof {
            if removed.is_some() {
                assert(names(entries, username@));
                let i = place(entries, username@);
                lemma_as_map_at(entries, i);
                assert(before[i].0 == username@);
                lemma_as_map_at(before, i);
                lemma_as_map_remove(before, i);
                assert(self.records() =~= before.remove(i));
            } else {
                if names(before, username@) {
                    let i = place(before, username@);
                    assert(entries[i].0 == username@);
                }
                assert(as_map(before).remove(username@) =~= as_map(before));
            }
        }
        removed
    }

    /// The first user who awaits the token `state`, with their name.
    pub fn user_with_csrf(&self, state: &str) -> (found: Option<(String, UserData)>)
        ensures
            named_user(found) == csrf_holder(self.records(), state@),
    {
        let ghost records = self.records();
        let mut i: usize = 0;
        assert(records.skip(0) =~= records);
        while i < self.db.len()
            invariant
                i <= self.db.entries().len(),
                records == self.records(),
                csrf_holder(records, state@) == csrf_holder(records.skip(i as int), state@),
            decreases self.db.entries().len() - i,
        {
            proof {
                let rest = records.skip(i as int);
                assert(rest[0] == records[i as int]);
                assert(rest.drop_first() =~= records.skip(i + 1));
            }
            let user = self.db.value_at(i);
            let awaited = match user.csrf_token() {
                Some(token) => same_text(token, state),
                None => false,
            };
            if awaited {
                return Some((self.db.name_at(i).to_owned(), user.clone()));
            }
            i += 1;
        }
        assert(records.skip(i as int).len() == 0);
        None
    }

    /// Replaces the users of the store by `users`, taken in turn: of two with
    /// one name the later stays.
    pub fn map_db(&mut self, users: Vec<(String, UserData)>)
        ensures
            final(self).wf(),
            final(self)@ == collected(listed(users@)),
            final(self).path() == old(self).path(),
            final(self).passphrase() == old(self).passphrase(),
    {
        let ghost all = listed(users@);
        self.db = Registry::new();
        assert(self.records() =~= Seq::<(Seq<char>, UserView)>::empty());
        assert(self@ =~= Map::<Seq<char>, UserView>::empty());
        assert(all.take(0) =~= Seq::<(Seq<char>, UserView)>::empty());
        for user in iter: users.into_iter()
            invariant
                iter.seq() == users@,
                all == listed(users@),
                self.wf(),
                self@ == collected(all.take(iter.index() as int)),
                self.path() == old(self).path(),
                self.passphrase() == old(self).passphrase(),
        {
            proof {
                let i = iter.index() as int;
                let upto = all.take(i + 1);
                assert(upto.drop_last() =~= all.take(i));
                assert(upto.last() == (user.0@, user.1@));
            }
            self.add_user(user.0, user.1);
        }
        assert(all.take(all.len() as int) =~= all);
    }

    /// The store kept at `file_path`: empty where nothing is kept there yet,
    /// else with the users `stored` there, read as [`Db::map_db`] reads them.
    pub fn from_encrypted_file(
        file_path: String,
        key: String,
        stored: Option<Vec<(String, UserData)>>,
    ) -> (db: Self)
        ensures
            db.wf(),
            db@ == match stored {
                Some(users) => collected(listed(users@)),
                None => Map::<Seq<char>, UserView>::empty(),
            },
            db.path() == file_path@,
            db.passphrase() == key@,
    {
        let mut db = Db::new(file_path, key);
        match stored {
            Some(users) => {
                db.map_db(users);
            },
            None => {},
        }
        db
    }

    /// What sealing came to: the file, or the error that says it failed.
    pub fn sealed(file: Option<Vec<u8>>) -> (out: Result<Vec<u8>, DbError>)
        ensures
            match file {
                Some(bytes) => out == Ok::<Vec<u8>, DbError>(bytes),
                None => out == Err::<Vec<u8>, DbError>(DbError::EncryptionError),
            },
    {
        match file {
            Some(bytes) => Ok(bytes),
            None => Err(DbError::EncryptionError),
        }
    }

    /// Seals `serialized`, the users of the store written out as bytes, with
    /// the passphrase of the store. The file that comes back is to replace
    /// the one kept at the store's place.
    ///
    /// Sealing may fail; a file that comes back holds `serialized` for the
    /// holder of the passphrase.
    pub fn to_encrypted_file(&self, serialized: &[u8]) -> (file: Result<Vec<u8>, DbError>)
        ensures
            match file {
                Ok(bytes) => age_payload(bytes@, self.passphrase()) == Some(serialized@),
                Err(e) => e == DbError::EncryptionError,
            },
    {
        Db::sealed(age_encrypt(serialized, self.key.as_str()))
    }

    /// Opens `contents`, a file sealed by [`Db::to_encrypted_file`], with `key`.
    ///
    /// Opening fails on what is no such file, and on a file that asks for
    /// more work than the machine at hand will do; bytes that come back are
    /// what the file holds for the holder of `key`.
    pub fn decrypt(key: &str, contents: &[u8]) -> (serialized: Result<Vec<u8>, DbError>)
        ensures
            match serialized {
                Ok(bytes) => age_payload(contents@, key@) == Some(bytes@),
                Err(e) => e == DbError::EncryptionError,
            },
    {
        Db::sealed(age_decrypt(contents, key))
    }

    /// Records that the user under `username` has authorized the service
    /// with `token`. Says whether there is such a user.
    pub fn promote_token(&mut self, username: &str, token: String) -> (found: bool)
        requires
            old(self).wf(),
        ensures
            final(self).wf(),
            found == old(self)@.contains_key(username@),
            final(self)@ == if found {
                old(self)@.insert(
                    username@,
                    UserView { slack_token: TokenView::Oauth(token@), ..old(self)@[username@] },
                )
            } else {
                old(self)@
            },
            final(self).path() == old(self).path(),
            final(self).passphrase() == old(self).passphrase(),
    {
        match self.user(username) {
            Some(user) => {
                let mut user = user;
                user.promote_token(token);
                self.add_user(username.to_owned(), user);
                true
            },
            None => false,
        }
    }

    /// Changes the account whose tracks are mirrored for the user under
    /// `username`. Says whether there is such a user.
    pub fn update_lastfm_username(&mut self, username: &str, lastfm_username: String) -> (found:
        bool)
        requires
            old(self).wf(),
        ensures
            final(self).wf(),
            found == old(self)@.contains_key(username@),
            final(self)@ == if found {
                old(self)@.insert(
                    username@,
                    UserView { lastfm_username: lastfm_username@, ..old(self)@[username@] },
                )
            } else {
                old(self)@
            },
            final(self).path() == old(self).path(),
            final(self).passphrase() == old(self).passphrase(),
    {
        match self.user(username) {
            Some(user) => {
                let mut user = user;
                user.update_lastfm_username(lastfm_username);
                self.add_user(username.to_owned(), user);
                true
            },
            None => false,
        }
    }
}

/// The record that a search by token finds awaits that token.
pub proof fn lemma_csrf_holder_awaits(records: Seq<(Seq<char>, UserView)>, state: Seq<char>)
    ensures
        match csrf_holder(records, state) {
            Some(found) => records.contains(found) && found.1.awaits(state),
            None => forall|i: int| 0 <= i < records.len() ==> !records[i].1.awaits(state),
        },
    decreases records.len(),
{
    if records.len() > 0 {
        if records[0].1.awaits(state) {
            assert(records[0] == records[0]);
        } else {
            let rest = records.drop_first();
            lemma_csrf_holder_awaits(rest, state);
            match csrf_holder(rest, state) {
                Some(found) => {
                    let i = choose|i: int| 0 <= i < rest.len() && rest[i] == found;
                    assert(records[i + 1] == found);
                },
                None => {
                    assert forall|i: int| 0 <= i < records.len() implies !records[i].1.awaits(
                        state,
                    ) by {
                        if i > 0 {
                            assert(rest[i - 1] == records[i]);
                        }
                    }
                },
            }
        }
    }
}

/// A user who has authorized is never found by a token again: whatever
/// token is searched for, the search does not come back with their record.
pub proof fn lemma_authorized_is_never_found(db: Db, username: Seq<char>, state: Seq<char>)
    requires
        db.wf(),
        db@.contains_key(username),
        db@[username].authorized(),
    ensures
        match csrf_holder(db.records(), state) {
            Some(found) => found.0 != username,
            None => true,
        },
{
    let records = db.records();
    lemma_csrf_holder_awaits(records, state);
    match csrf_holder(records, state) {
        Some(found) => {
            let i = choose|i: int| 0 <= i < records.len() && records[i] == found;
            lemma_as_map_at(records, i);
        },
        None => {},
    }
}

/// Authorization is not undone: once promoted, a user stays authorized
/// through every later change of account and every later promotion.
pub proof fn lemma_promotion_is_final(user: UserView, account: Seq<char>, token: Seq<char>)
    requires
        user.authorized(),
    ensures
        (UserView { lastfm_username: account, ..user }).authorized(),
        (UserView { slack_token: TokenView::Oauth(token), ..user }).authorized(),
        forall|state: Seq<char>| !user.awaits(state),
{
}

/// A store read back from its own list of users is the same store: the
/// users that [`Db::users`] lists, taken in turn as [`Db::map_db`] and
/// [`Db::from_encrypted_file`] take them, are the users of the store.
pub proof fn lemma_listed_users_reproduce(db: Db)
    requires
        db.wf(),
    ensures
        collected(db.records()) == db@,
{
    lemma_collected_distinct(db.records());
}

/// What was sealed is what opens: a file that holds `written` for the holder
/// of a passphrase yields no other bytes to them.
pub proof fn lemma_opened_is_sealed(
    file: Seq<u8>,
    passphrase: Seq<char>,
    written: Seq<u8>,
    read: Seq<u8>,
)
    requires
        age_payload(file, passphrase) == Some(written),
        age_payload(file, passphrase) == Some(read),
    ensures
        read == written,
{
}

} // verus!
