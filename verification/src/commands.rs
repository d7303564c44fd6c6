//! What the commands of a user do to the store and to the workers.

use crate::db::{
    csrf_holder, lemma_csrf_holder_awaits, named_user, Db, DbError, TokenView, UserData, UserView,
};
use crate::oauth::{OauthCode, SlackAuthedUser};
use crate::registry::{lemma_as_map_at, lookup};
use crate::supervisor::{Supervisor, Tasks};
use crate::text::{same_text, slice_of, text_of};
use vstd::prelude::*;

verus! {

/// A command of the chat platform.
#[derive(Debug, Clone, Copy, PartialEq, Eq, Structural)]
pub enum Command {
    Connect,
    Disconnect,
    Unknown,
}

/// The command that `name` stands for.
pub open spec fn command_of(name: Seq<char>) -> Command {
    if name == "/connect"@ {
        Command::Connect
    } else if name == "/disconnect"@ {
        Command::Disconnect
    } else {
        Command::Unknown
    }
}

/// Reads the name of a command.
pub fn command(name: &str) -> (command: Command)
    ensures
        command == command_of(name@),
{
    if same_text(name, "/connect") {
        Command::Connect
    } else if same_text(name, "/disconnect") {
        Command::Disconnect
    } else {
        Command::Unknown
    }
}

/// Where the first word of `text` ends: at its first space, or at its end.
pub open spec fn word_end(text: Seq<char>) -> int
    decreases text.len(),
{
    if text.len() == 0 || text[0] == ' ' {
        0
    } else {
        1 + word_end(text.drop_first())
    }
}

/// The account that the text of a connect command asks for: what stands
/// before its first space. A command without text asks for none.
pub open spec fn requested(text: Option<Seq<char>>) -> Option<Seq<char>> {
    match text {
        Some(t) => if t.len() == 0 {
            None
        } else {
            Some(t.take(word_end(t)))
        },
        None => None,
    }
}

proof fn lemma_word_end(text: Seq<char>, n: int)
    requires
        0 <= n <= text.len(),
        forall|i: int| 0 <= i < n ==> text[i] != ' ',
        n == text.len() || text[n] == ' ',
    ensures
        word_end(text) == n,
    decreases n,
{
    if n > 0 {
        let rest = text.drop_first();
        assert forall|i: int| 0 <= i < n - 1 implies rest[i] != ' ' by {
            assert(rest[i] == text[i + 1]);
        }
        lemma_word_end(rest, n - 1);
    }
}

/// Reads the account out of the text of a connect command.
pub fn requested_username(text: Option<&str>) -> (username: Option<String>)
    ensures
        text_of(username) == requested(slice_of(text)),
{
    match text {
        None => None,
        Some(t) => {
            let len = t.unicode_len();
            if len == 0 {
                return None;
            }
            let mut n: usize = 0;
            while n < len && t.get_char(n) != ' '
                invariant
                    n <= len,
                    len == t@.len(),
                    forall|i: int| 0 <= i < n ==> t@[i] != ' ',
                decreases len - n,
            {
                n += 1;
            }
            proof {
                lemma_word_end(t@, n as int);
            }
            Some(t.substring_char(0, n).to_owned())
        },
    }
}

/// What a connect command came to.
#[derive(Debug, Clone, Copy, PartialEq, Eq, Structural)]
pub enum Connected {
    /// The account does not exist, as far as could be told: nothing changed.
    UnknownAccount,
    /// The user had authorized before: their account was changed.
    Updated,
    /// The user is recorded as waiting to authorize, and is to be sent to do so.
    AwaitingAuthorization,
}

/// What a connect command of `user_id` for `account` comes to on `users`,
/// where `resolved` says whether the account exists.
pub open spec fn connected(users: Map<Seq<char>, UserView>, user_id: Seq<char>, resolved: bool) -> Connected {
    if !resolved {
        Connected::UnknownAccount
    } else if users.contains_key(user_id) && users[user_id].authorized() {
        Connected::Updated
    } else {
        Connected::AwaitingAuthorization
    }
}

impl Connected {
    /// Whether the command changed the store, so that it is to be written.
    pub open spec fn changed(self) -> bool {
        self != Connected::UnknownAccount
    }

    /// Whether the store is to be written after the command.
    pub fn changes_store(self) -> (changed: bool)
        ensures
            changed == self.changed(),
    {
        match self {
            Connected::UnknownAccount => false,
            _ => true,
        }
    }
}

/// The users after a connect command.
pub open spec fn after_connect(
    users: Map<Seq<char>, UserView>,
    user_id: Seq<char>,
    account: Seq<char>,
    resolved: bool,
    csrf: Seq<char>,
) -> Map<Seq<char>, UserView> {
    match connected(users, user_id, resolved) {
        Connected::UnknownAccount => users,
        Connected::Updated => users.insert(
            user_id,
            UserView { lastfm_username: account, ..users[user_id] },
        ),
        Connected::AwaitingAuthorization => users.insert(
            user_id,
            UserView { lastfm_username: account, slack_token: TokenView::Csrf(csrf) },
        ),
    }
}

/// Links `user_id` to the account `lastfm_username`.
///
/// Nothing happens for an account that did not resolve. A user who has
/// authorized keeps their secret and gets the new account. Any other user is
/// recorded afresh, waiting to authorize with the token `csrf`.
pub fn connect(
    db: &mut Db,
    user_id: &str,
    lastfm_username: String,
    resolved: bool,
    csrf: String,
) -> (outcome: Connected)
    requires
        old(db).wf(),
    ensures
        final(db).wf(),
        outcome == connected(old(db)@, user_id@, resolved),
        final(db)@ == after_connect(old(db)@, user_id@, lastfm_username@, resolved, csrf@),
        !outcome.changed() ==> final(db).records() == old(db).records(),
        final(db).path() == old(db).path(),
        final(db).passphrase() == old(db).passphrase(),
{
    if !resolved {
        return Connected::UnknownAccount;
    }
    let authorized = match db.user(user_id) {
        Some(user) => user.slack_token().is_some(),
        None => false,
    };
    if authorized {
        db.update_lastfm_username(user_id, lastfm_username);
        Connected::Updated
    } else {
        db.add_user(user_id.to_owned(), UserData::new(lastfm_username, csrf));
        Connected::AwaitingAuthorization
    }
}

/// What a disconnect command came to.
#[derive(Debug, Clone, Copy, PartialEq, Eq)]
pub enum Disconnected {
    /// The user was taken out of the store; their task, where one was live,
    /// is to be asked to stop.
    Unlinked { cancel: Option<u64> },
    /// There was no such user.
    NotFound,
    /// The store could not be written.
    Failed(DbError),
}

/// What a disconnect command comes to once the store was written:
/// `removed` says whether the user was there, or why writing failed.
pub open spec fn disconnected(tasks: Tasks, user_id: Seq<char>, removed: Result<bool, DbError>) -> Disconnected {
    match removed {
        Ok(true) => Disconnected::Unlinked { cancel: lookup(tasks.live, user_id) },
        Ok(false) => Disconnected::NotFound,
        Err(e) => Disconnected::Failed(e),
    }
}

/// Ends the link of `user_id` once they were taken out of the store and the
/// store was written. The worker of a user who was there is cancelled; in
/// every other case the workers stay as they are.
pub fn disconnect(tasks: &mut Supervisor, user_id: &str, removed: Result<bool, DbError>) -> (outcome:
    Disconnected)
    requires
        old(tasks).wf(),
    ensures
        final(tasks).wf(),
        outcome == disconnected(old(tasks)@, user_id@, removed),
        final(tasks)@ == if removed == Ok::<bool, DbError>(true) {
            old(tasks)@.cancel(user_id@)
        } else {
            old(tasks)@
        },
{
    match removed {
        Ok(true) => Disconnected::Unlinked { cancel: tasks.cancel(user_id) },
        Ok(false) => Disconnected::NotFound,
        Err(e) => Disconnected::Failed(e),
    }
}

/// What is said to the user who sent a command.
#[derive(Debug, PartialEq, Eq)]
pub struct Reply {
    pub text: String,
    /// Whether only the user who sent the command gets to see the reply.
    pub ephemeral: bool,
}

/// A reply as a value.
pub struct ReplyView {
    pub text: Seq<char>,
    pub ephemeral: bool,
}

impl View for Reply {
    type V = ReplyView;

    open spec fn view(&self) -> ReplyView {
        ReplyView { text: self.text@, ephemeral: self.ephemeral }
    }
}

pub const UNKNOWN_COMMAND: &'static str = "Received unknown command";

pub const NO_USERNAME: &'static str = "No username found. Please give one";

pub const UNKNOWN_ACCOUNT: &'static str =
    "The lastfm username isn't valid/doesn't exist. Make sure you're inputting your username from the URL (https://www.last.fm/user/<username>)";

pub const UPDATED: &'static str = "Updated Last.fm username";

pub const NOT_WRITTEN: &'static str = "Error adding your user to the database: ";

pub const VISIT: &'static str = "Please visit ";

pub const TO_ALLOW: &'static str = " to allow SlackFM to access and modify your profile/status";

pub const DISCONNECTED: &'static str = "Disconnected lastfm user";

pub const NOT_FOUND: &'static str = "You were not found in the database!. Please run /connect";

pub const NOT_DISCONNECTED: &'static str =
    "Error disconnecting your user. A report has been logged on the server";

pub const UNLINKED_ANSWER: &'static str =
    "CSRF couldn't be linked to a user. Theres a middleman attack at play or I didn't save the token properly";

pub const AUTHENTICATED: &'static str = "Authenticated!";

/// What is said after a connect command: `written` says whether the store
/// could be written after the change, `auth_url` is where the user is to
/// authorize the service.
///
/// An account that did not resolve changed nothing, so nothing was to be
/// written. A store that could not be written is reported with the reason. A
/// user who is to authorize is shown where, and nobody else is.
pub open spec fn connect_said(
    outcome: Connected,
    written: Result<(), DbError>,
    auth_url: Seq<char>,
) -> ReplyView {
    match outcome {
        Connected::UnknownAccount => ReplyView { text: UNKNOWN_ACCOUNT@, ephemeral: false },
        _ => match written {
            Err(e) => ReplyView { text: NOT_WRITTEN@ + e.message_text(), ephemeral: false },
            Ok(_) => match outcome {
                Connected::Updated => ReplyView { text: UPDATED@, ephemeral: false },
                _ => ReplyView { text: VISIT@ + auth_url + TO_ALLOW@, ephemeral: true },
            },
        },
    }
}

/// Words the reply to a connect command.
pub fn connect_reply(outcome: Connected, written: Result<(), DbError>, auth_url: &str) -> (reply:
    Reply)
    ensures
        reply@ == connect_said(outcome, written, auth_url@),
{
    match outcome {
        Connected::UnknownAccount => Reply { text: UNKNOWN_ACCOUNT.to_owned(), ephemeral: false },
        _ => match written {
            Err(e) => {
                let mut text = NOT_WRITTEN.to_owned();
                text.append(e.message().as_str());
                Reply { text, ephemeral: false }
            },
            Ok(_) => match outcome {
                Connected::Updated => Reply { text: UPDATED.to_owned(), ephemeral: false },
                _ => {
                    let mut text = VISIT.to_owned();
                    text.append(auth_url);
                    text.append(TO_ALLOW);
                    Reply { text, ephemeral: true }
                },
            },
        },
    }
}

/// What is said after a disconnect command.
pub open spec fn disconnect_said(outcome: Disconnected) -> ReplyView {
    match outcome {
        Disconnected::Unlinked { .. } => ReplyView { text: DISCONNECTED@, ephemeral: false },
        Disconnected::NotFound => ReplyView { text: NOT_FOUND@, ephemeral: false },
        Disconnected::Failed(_) => ReplyView { text: NOT_DISCONNECTED@, ephemeral: false },
    }
}

/// Words the reply to a disconnect command.
pub fn disconnect_reply(outcome: Disconnected) -> (reply: Reply)
    ensures
        reply@ == disconnect_said(outcome),
{
    match outcome {
        Disconnected::Unlinked { .. } => Reply { text: DISCONNECTED.to_owned(), ephemeral: false },
        Disconnected::NotFound => Reply { text: NOT_FOUND.to_owned(), ephemeral: false },
        Disconnected::Failed(_) => Reply { text: NOT_DISCONNECTED.to_owned(), ephemeral: false },
    }
}

/// The record of a user once authorized with `secret`.
pub open spec fn promoted(user: UserView, secret: Seq<char>) -> UserView {
    UserView { slack_token: TokenView::Oauth(secret), ..user }
}

/// The users after the answer `state` arrived and the secret `secret` was
/// granted: the first user who awaited the token is authorized with it.
pub open spec fn after_callback(db: Db, state: Seq<char>, secret: Seq<char>) -> Map<
    Seq<char>,
    UserView,
> {
    match csrf_holder(db.records(), state) {
        Some(found) => db@.insert(found.0, promoted(found.1, secret)),
        None => db@,
    }
}

/// Whom to spawn a worker for after the answer `state`, and from which
/// record: the user that the grant names, with the record just authorized.
pub open spec fn to_spawn(db: Db, state: Seq<char>, user_id: Seq<char>, secret: Seq<char>) -> Option<
    (Seq<char>, UserView),
> {
    match csrf_holder(db.records(), state) {
        Some(found) => Some((user_id, promoted(found.1, secret))),
        None => None,
    }
}

/// Takes the answer of a user's browser with what was granted for its code.
///
/// The first user who awaits the token of the answer is authorized with the
/// secret granted. The user to spawn a worker for, as the grant names them,
/// comes back with the record just authorized. Where nobody awaits the
/// token, nothing changes and nobody comes back.
pub fn authorization_callback(db: &mut Db, code: &OauthCode, granted: &SlackAuthedUser) -> (spawn:
    Option<(String, UserData)>)
    requires
        old(db).wf(),
    ensures
        final(db).wf(),
        final(db)@ == after_callback(*old(db), code.state@, granted.access_token@),
        named_user(spawn) == to_spawn(*old(db), code.state@, granted.id@, granted.access_token@),
        final(db).path() == old(db).path(),
        final(db).passphrase() == old(db).passphrase(),
{
    match db.user_with_csrf(code.state.as_str()) {
        Some((name, user)) => {
            proof {
                let records = db.records();
                lemma_csrf_holder_awaits(records, code.state@);
                let found = csrf_holder(records, code.state@).unwrap();
                let i = choose|i: int| 0 <= i < records.len() && records[i] == found;
                lemma_as_map_at(records, i);
            }
            db.promote_token(name.as_str(), granted.access_token.clone());
            let mut record = user;
            record.promote_token(granted.access_token.clone());
            Some((granted.id.clone(), record))
        },
        None => None,
    }
}

} // verus!
