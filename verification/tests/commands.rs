use slackfm::commands::{
    authorization_callback, command, connect, connect_reply, disconnect, disconnect_reply,
    requested_username, Command, Connected, Disconnected, Reply, AUTHENTICATED, NO_USERNAME,
    UNKNOWN_COMMAND, UNLINKED_ANSWER,
};
use slackfm::db::{Db, DbError, UserData};
use slackfm::oauth::{OauthCode, SlackAuthedUser, SlackTokenFields};
use slackfm::startup::{drop_stale, spawn_initial_updaters};
use slackfm::supervisor::{SpawnOrder, Supervisor};

fn pending(account: &str, csrf: &str) -> UserData {
    UserData::new(account.to_owned(), csrf.to_owned())
}

fn authorized(account: &str, secret: &str) -> UserData {
    UserData::authorized(account.to_owned(), secret.to_owned())
}

fn store() -> Db {
    Db::new("db.json.enc".to_owned(), "passphrase".to_owned())
}

fn grant(id: &str, secret: &str) -> SlackTokenFields {
    SlackTokenFields {
        authed_user: SlackAuthedUser {
            id: id.to_owned(),
            scope: "users.profile:read,users.profile:write".to_owned(),
            access_token: secret.to_owned(),
            token_type: "user".to_owned(),
        },
    }
}

fn answer(state: &str) -> OauthCode {
    OauthCode { code: "code".to_owned(), state: state.to_owned() }
}

#[test]
fn commands_are_told_by_their_names() {
    assert_eq!(command("/connect"), Command::Connect);
    assert_eq!(command("/disconnect"), Command::Disconnect);
    assert_eq!(command("/status"), Command::Unknown);
    assert_eq!(command("connect"), Command::Unknown);
    assert_eq!(command("/Connect"), Command::Unknown);
    assert_eq!(command(""), Command::Unknown);
}

#[test]
fn the_account_is_the_first_word() {
    assert_eq!(requested_username(Some("alice")), Some("alice".to_owned()));
    assert_eq!(requested_username(Some("alice please")), Some("alice".to_owned()));
    assert_eq!(requested_username(Some("alice  bob carol")), Some("alice".to_owned()));
    assert_eq!(requested_username(Some("\u{00E9}l\u{00E9}a x")), Some("\u{00E9}l\u{00E9}a".to_owned()));
    assert_eq!(requested_username(Some("a\tb c")), Some("a\tb".to_owned()));
}

#[test]
fn a_text_that_starts_with_a_space_asks_for_the_empty_account() {
    assert_eq!(requested_username(Some(" alice")), Some("".to_owned()));
    assert_eq!(requested_username(Some(" ")), Some("".to_owned()));
}

#[test]
fn no_text_asks_for_no_account() {
    assert_eq!(requested_username(None), None);
    assert_eq!(requested_username(Some("")), None);
}

#[test]
fn connecting_an_unknown_account_changes_nothing() {
    let mut db = store();
    db.add_user("U1".to_owned(), authorized("alice", "xoxp-1"));
    let outcome = connect(&mut db, "U1", "nobody".to_owned(), false, "token-9".to_owned());
    assert_eq!(outcome, Connected::UnknownAccount);
    assert_eq!(db.users(), vec![("U1".to_owned(), authorized("alice", "xoxp-1"))]);
    let outcome = connect(&mut db, "U2", "nobody".to_owned(), false, "token-9".to_owned());
    assert_eq!(outcome, Connected::UnknownAccount);
    assert_eq!(db.user("U2"), None);
}

#[test]
fn connecting_a_new_user_records_them_as_waiting() {
    let mut db = store();
    let outcome = connect(&mut db, "U1", "alice".to_owned(), true, "token-1".to_owned());
    assert_eq!(outcome, Connected::AwaitingAuthorization);
    assert_eq!(db.user("U1"), Some(pending("alice", "token-1")));
}

#[test]
fn connecting_again_before_authorizing_renews_the_token() {
    let mut db = store();
    connect(&mut db, "U1", "alice".to_owned(), true, "token-1".to_owned());
    let outcome = connect(&mut db, "U1", "alice2".to_owned(), true, "token-2".to_owned());
    assert_eq!(outcome, Connected::AwaitingAuthorization);
    assert_eq!(db.user("U1"), Some(pending("alice2", "token-2")));
    assert_eq!(db.user_with_csrf("token-1"), None);
}

#[test]
fn connecting_an_authorized_user_changes_their_account() {
    let mut db = store();
    db.add_user("U1".to_owned(), authorized("alice", "xoxp-1"));
    let outcome = connect(&mut db, "U1", "alice2".to_owned(), true, "token-2".to_owned());
    assert_eq!(outcome, Connected::Updated);
    assert_eq!(db.user("U1"), Some(authorized("alice2", "xoxp-1")));
    assert_eq!(db.user_with_csrf("token-2"), None);
}

#[test]
fn disconnecting_cancels_the_worker() {
    let mut tasks = Supervisor::new();
    tasks.spawn("U1").unwrap();
    tasks.spawn("U2").unwrap();
    assert_eq!(disconnect(&mut tasks, "U2", Ok(true)), Disconnected::Unlinked { cancel: Some(1) });
    assert_eq!(tasks.running("U2"), None);
    assert_eq!(tasks.running("U1"), Some(0));
}

#[test]
fn disconnecting_a_user_without_worker_cancels_nothing() {
    let mut tasks = Supervisor::new();
    assert_eq!(disconnect(&mut tasks, "U1", Ok(true)), Disconnected::Unlinked { cancel: None });
}

#[test]
fn disconnecting_a_stranger_or_failing_leaves_the_workers() {
    let mut tasks = Supervisor::new();
    tasks.spawn("U1").unwrap();
    assert_eq!(disconnect(&mut tasks, "U1", Ok(false)), Disconnected::NotFound);
    assert_eq!(tasks.running("U1"), Some(0));
    assert_eq!(
        disconnect(&mut tasks, "U1", Err(DbError::IoError)),
        Disconnected::Failed(DbError::IoError)
    );
    assert_eq!(
        disconnect(&mut tasks, "U1", Err(DbError::EncryptionError)),
        Disconnected::Failed(DbError::EncryptionError)
    );
    assert_eq!(tasks.running("U1"), Some(0));
}

#[test]
fn an_answer_with_the_awaited_token_authorizes() {
    let mut db = store();
    db.add_user("U1".to_owned(), pending("alice", "token-1"));
    db.add_user("U2".to_owned(), pending("bob", "token-2"));
    let granted = grant("U2", "xoxp-2");
    let spawn = authorization_callback(&mut db, &answer("token-2"), &granted.authed_user);
    assert_eq!(spawn, Some(("U2".to_owned(), authorized("bob", "xoxp-2"))));
    assert_eq!(db.user("U2"), Some(authorized("bob", "xoxp-2")));
    assert_eq!(db.user("U1"), Some(pending("alice", "token-1")));
}

#[test]
fn the_worker_is_for_the_user_that_the_grant_names() {
    let mut db = store();
    db.add_user("U1".to_owned(), pending("alice", "token-1"));
    let granted = grant("W7", "xoxp-7");
    let spawn = authorization_callback(&mut db, &answer("token-1"), &granted.authed_user);
    assert_eq!(spawn, Some(("W7".to_owned(), authorized("alice", "xoxp-7"))));
    assert_eq!(db.user("U1"), Some(authorized("alice", "xoxp-7")));
    assert_eq!(db.user("W7"), None);
}

#[test]
fn an_answer_with_an_unknown_token_changes_nothing() {
    let mut db = store();
    db.add_user("U1".to_owned(), pending("alice", "token-1"));
    let granted = grant("U1", "xoxp-1");
    assert_eq!(authorization_callback(&mut db, &answer("token-9"), &granted.authed_user), None);
    assert_eq!(db.user("U1"), Some(pending("alice", "token-1")));
}

#[test]
fn an_answer_cannot_be_used_twice() {
    let mut db = store();
    db.add_user("U1".to_owned(), pending("alice", "token-1"));
    let granted = grant("U1", "xoxp-1");
    assert!(authorization_callback(&mut db, &answer("token-1"), &granted.authed_user).is_some());
    let again = grant("U1", "xoxp-evil");
    assert_eq!(authorization_callback(&mut db, &answer("token-1"), &again.authed_user), None);
    assert_eq!(db.user("U1"), Some(authorized("alice", "xoxp-1")));
}

#[test]
fn stale_users_are_dropped() {
    let mut db = store();
    db.add_user("U1".to_owned(), authorized("alice", "xoxp-1"));
    db.add_user("U2".to_owned(), authorized("gone", "xoxp-2"));
    db.add_user("U3".to_owned(), pending("carol", "token-3"));
    db.add_user("U4".to_owned(), pending("gone-too", "token-4"));
    drop_stale(&mut db, &vec![true, false, true, false]);
    assert_eq!(
        db.users(),
        vec![
            ("U1".to_owned(), authorized("alice", "xoxp-1")),
            ("U3".to_owned(), pending("carol", "token-3")),
        ]
    );
}

#[test]
fn a_user_without_answer_counts_as_stale() {
    let mut db = store();
    db.add_user("U1".to_owned(), authorized("alice", "xoxp-1"));
    db.add_user("U2".to_owned(), authorized("bob", "xoxp-2"));
    drop_stale(&mut db, &vec![true]);
    assert_eq!(db.users(), vec![("U1".to_owned(), authorized("alice", "xoxp-1"))]);
    drop_stale(&mut db, &vec![]);
    assert_eq!(db.users(), vec![]);
}

#[test]
fn workers_start_for_the_authorized_only() {
    let mut db = store();
    db.add_user("U1".to_owned(), authorized("alice", "xoxp-1"));
    db.add_user("U2".to_owned(), pending("bob", "token-2"));
    db.add_user("U3".to_owned(), authorized("carol", "xoxp-3"));
    let mut tasks = Supervisor::new();
    let orders = spawn_initial_updaters(&db, &mut tasks);
    assert_eq!(
        orders,
        vec![
            ("U1".to_owned(), SpawnOrder { cancel: None, start: 0 }),
            ("U3".to_owned(), SpawnOrder { cancel: None, start: 1 }),
        ]
    );
    assert_eq!(tasks.running("U1"), Some(0));
    assert_eq!(tasks.running("U2"), None);
    assert_eq!(tasks.running("U3"), Some(1));
}

#[test]
fn no_worker_starts_for_a_dropped_user() {
    let mut db = store();
    db.add_user("U1".to_owned(), authorized("gone", "xoxp-1"));
    db.add_user("U2".to_owned(), authorized("bob", "xoxp-2"));
    drop_stale(&mut db, &vec![false, true]);
    let mut tasks = Supervisor::new();
    let orders = spawn_initial_updaters(&db, &mut tasks);
    assert_eq!(orders, vec![("U2".to_owned(), SpawnOrder { cancel: None, start: 0 })]);
    assert_eq!(tasks.running("U1"), None);
}

fn said(text: &str, ephemeral: bool) -> Reply {
    Reply { text: text.to_owned(), ephemeral }
}

#[test]
fn an_unknown_account_is_reported_whatever_was_written() {
    let text = "The lastfm username isn't valid/doesn't exist. Make sure you're inputting your username from the URL (https://www.last.fm/user/<username>)";
    assert_eq!(connect_reply(Connected::UnknownAccount, Ok(()), "https://x"), said(text, false));
    assert_eq!(
        connect_reply(Connected::UnknownAccount, Err(DbError::IoError), "https://x"),
        said(text, false)
    );
}

#[test]
fn a_change_of_account_is_confirmed() {
    assert_eq!(
        connect_reply(Connected::Updated, Ok(()), "https://x"),
        said("Updated Last.fm username", false)
    );
}

#[test]
fn a_user_to_authorize_is_shown_where() {
    assert_eq!(
        connect_reply(Connected::AwaitingAuthorization, Ok(()), "https://slack.com/oauth?x=1"),
        said(
            "Please visit https://slack.com/oauth?x=1 to allow SlackFM to access and modify your profile/status",
            true
        )
    );
}

#[test]
fn a_store_that_was_not_written_is_reported() {
    assert_eq!(
        connect_reply(Connected::AwaitingAuthorization, Err(DbError::IoError), "https://x"),
        said(
            "Error adding your user to the database: Error reading or writing the database file",
            false
        )
    );
    assert_eq!(
        connect_reply(Connected::Updated, Err(DbError::EncryptionError), "https://x"),
        said(
            "Error adding your user to the database: Error encrypting or decrypting the database",
            false
        )
    );
    assert_eq!(
        connect_reply(Connected::Updated, Err(DbError::SerdeError), "https://x"),
        said(
            "Error adding your user to the database: Error serializing or deserializing the database",
            false
        )
    );
}

#[test]
fn the_store_is_written_where_it_changed() {
    assert!(!Connected::UnknownAccount.changes_store());
    assert!(Connected::Updated.changes_store());
    assert!(Connected::AwaitingAuthorization.changes_store());
}

#[test]
fn disconnect_replies() {
    assert_eq!(
        disconnect_reply(Disconnected::Unlinked { cancel: Some(3) }),
        said("Disconnected lastfm user", false)
    );
    assert_eq!(
        disconnect_reply(Disconnected::Unlinked { cancel: None }),
        said("Disconnected lastfm user", false)
    );
    assert_eq!(
        disconnect_reply(Disconnected::NotFound),
        said("You were not found in the database!. Please run /connect", false)
    );
    assert_eq!(
        disconnect_reply(Disconnected::Failed(DbError::IoError)),
        said("Error disconnecting your user. A report has been logged on the server", false)
    );
}

#[test]
fn fixed_replies() {
    assert_eq!(UNKNOWN_COMMAND, "Received unknown command");
    assert_eq!(NO_USERNAME, "No username found. Please give one");
    assert_eq!(AUTHENTICATED, "Authenticated!");
    assert_eq!(
        UNLINKED_ANSWER,
        "CSRF couldn't be linked to a user. Theres a middleman attack at play or I didn't save the token properly"
    );
}
