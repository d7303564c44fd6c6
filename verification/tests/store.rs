use slackfm::db::{Db, DbError, SlackToken, UserData};

fn pending(account: &str, csrf: &str) -> UserData {
    UserData::new(account.to_owned(), csrf.to_owned())
}

fn authorized(account: &str, secret: &str) -> UserData {
    UserData::authorized(account.to_owned(), secret.to_owned())
}

fn store() -> Db {
    Db::new("db.json.enc".to_owned(), "passphrase".to_owned())
}

#[test]
fn a_new_user_awaits_authorization() {
    let user = pending("alice", "token-1");
    assert_eq!(user.lastfm_username(), "alice");
    assert_eq!(user.csrf_token(), Some("token-1"));
    assert_eq!(user.slack_token(), None);
}

#[test]
fn promotion_replaces_the_token() {
    let mut user = pending("alice", "token-1");
    user.promote_token("xoxp-secret".to_owned());
    assert_eq!(user.slack_token(), Some("xoxp-secret"));
    assert_eq!(user.csrf_token(), None);
    assert_eq!(user.lastfm_username(), "alice");
    assert_eq!(user, authorized("alice", "xoxp-secret"));
    user.promote_token("xoxp-other".to_owned());
    assert_eq!(user.slack_token(), Some("xoxp-other"));
    assert_eq!(user.csrf_token(), None);
}

#[test]
fn the_account_changes_and_the_token_stays() {
    let mut user = authorized("alice", "xoxp-secret");
    user.update_lastfm_username("bob".to_owned());
    assert_eq!(user.lastfm_username(), "bob");
    assert_eq!(user.slack_token(), Some("xoxp-secret"));
    let mut waiting = pending("alice", "token-1");
    waiting.update_lastfm_username("bob".to_owned());
    assert_eq!(waiting, pending("bob", "token-1"));
}

#[test]
fn a_token_clones_as_itself() {
    let token = SlackToken::Csrf("t".to_owned());
    assert_eq!(token.clone(), token);
    let secret = SlackToken::Oauth("s".to_owned());
    assert_eq!(secret.clone(), secret);
    assert_ne!(token, SlackToken::Oauth("t".to_owned()));
}

#[test]
fn db_error_messages() {
    assert_eq!(DbError::EncryptionError.message(), "Error encrypting or decrypting the database");
    assert_eq!(DbError::IoError.message(), "Error reading or writing the database file");
    assert_eq!(DbError::SerdeError.message(), "Error serializing or deserializing the database");
}

#[test]
fn a_new_store_is_empty() {
    let db = store();
    assert_eq!(db.location(), "db.json.enc");
    assert_eq!(db.key(), "passphrase");
    assert_eq!(db.users(), vec![]);
    assert_eq!(db.user("U1"), None);
    assert_eq!(db.user_with_csrf("token-1"), None);
}

#[test]
fn users_are_found_under_their_names() {
    let mut db = store();
    db.add_user("U1".to_owned(), pending("alice", "token-1"));
    db.add_user("U2".to_owned(), authorized("bob", "xoxp-2"));
    assert_eq!(db.user("U1"), Some(pending("alice", "token-1")));
    assert_eq!(db.user("U2"), Some(authorized("bob", "xoxp-2")));
    assert_eq!(db.user("U3"), None);
    assert_eq!(db.user("u1"), None);
    assert_eq!(
        db.users(),
        vec![
            ("U1".to_owned(), pending("alice", "token-1")),
            ("U2".to_owned(), authorized("bob", "xoxp-2")),
        ]
    );
}

#[test]
fn adding_under_a_taken_name_replaces() {
    let mut db = store();
    db.add_user("U1".to_owned(), authorized("alice", "xoxp-1"));
    db.add_user("U2".to_owned(), pending("bob", "token-2"));
    db.add_user("U1".to_owned(), pending("carol", "token-3"));
    assert_eq!(
        db.users(),
        vec![
            ("U1".to_owned(), pending("carol", "token-3")),
            ("U2".to_owned(), pending("bob", "token-2")),
        ]
    );
}

#[test]
fn removing_hands_back_the_user() {
    let mut db = store();
    db.add_user("U1".to_owned(), pending("alice", "token-1"));
    db.add_user("U2".to_owned(), pending("bob", "token-2"));
    assert_eq!(db.remove_user("U1"), Some(pending("alice", "token-1")));
    assert_eq!(db.remove_user("U1"), None);
    assert_eq!(db.user("U1"), None);
    assert_eq!(db.users(), vec![("U2".to_owned(), pending("bob", "token-2"))]);
}

#[test]
fn a_token_finds_the_user_who_awaits_it() {
    let mut db = store();
    db.add_user("U1".to_owned(), authorized("alice", "token-2"));
    db.add_user("U2".to_owned(), pending("bob", "token-2"));
    db.add_user("U3".to_owned(), pending("carol", "token-2"));
    assert_eq!(db.user_with_csrf("token-2"), Some(("U2".to_owned(), pending("bob", "token-2"))));
    assert_eq!(db.user_with_csrf("token-1"), None);
    assert_eq!(db.user_with_csrf(""), None);
}

#[test]
fn an_authorized_user_is_never_found_by_token() {
    let mut db = store();
    db.add_user("U1".to_owned(), pending("alice", "token-1"));
    assert!(db.user_with_csrf("token-1").is_some());
    assert!(db.promote_token("U1", "xoxp-1".to_owned()));
    assert_eq!(db.user_with_csrf("token-1"), None);
    assert_eq!(db.user_with_csrf("xoxp-1"), None);
    assert!(db.update_lastfm_username("U1", "alice2".to_owned()));
    assert_eq!(db.user_with_csrf("token-1"), None);
    assert_eq!(db.user("U1"), Some(authorized("alice2", "xoxp-1")));
}

#[test]
fn changes_to_an_absent_user_change_nothing() {
    let mut db = store();
    db.add_user("U1".to_owned(), pending("alice", "token-1"));
    assert!(!db.promote_token("U9", "xoxp-9".to_owned()));
    assert!(!db.update_lastfm_username("U9", "zed".to_owned()));
    assert_eq!(db.users(), vec![("U1".to_owned(), pending("alice", "token-1"))]);
}

#[test]
fn map_db_replaces_and_the_later_of_two_stays() {
    let mut db = store();
    db.add_user("U0".to_owned(), pending("zed", "token-0"));
    db.map_db(vec![
        ("U1".to_owned(), pending("alice", "token-1")),
        ("U2".to_owned(), pending("bob", "token-2")),
        ("U1".to_owned(), authorized("carol", "xoxp-1")),
    ]);
    assert_eq!(db.user("U0"), None);
    assert_eq!(db.user("U1"), Some(authorized("carol", "xoxp-1")));
    assert_eq!(db.user("U2"), Some(pending("bob", "token-2")));
    assert_eq!(db.users().len(), 2);
    assert_eq!(db.location(), "db.json.enc");
    assert_eq!(db.key(), "passphrase");
}

#[test]
fn nothing_stored_is_an_empty_store() {
    let db = Db::from_encrypted_file("a/b".to_owned(), "k".to_owned(), None);
    assert_eq!(db.users(), vec![]);
    assert_eq!(db.location(), "a/b");
    assert_eq!(db.key(), "k");
}

#[test]
fn stored_users_are_loaded() {
    let stored = vec![
        ("U1".to_owned(), pending("alice", "token-1")),
        ("U2".to_owned(), authorized("bob", "xoxp-2")),
    ];
    let db = Db::from_encrypted_file("a/b".to_owned(), "k".to_owned(), Some(stored));
    assert_eq!(db.user("U1"), Some(pending("alice", "token-1")));
    assert_eq!(db.user("U2"), Some(authorized("bob", "xoxp-2")));
    assert_eq!(db.users().len(), 2);
}

#[test]
fn sealing_outcomes() {
    assert_eq!(Db::sealed(Some(vec![1, 2, 3])), Ok(vec![1, 2, 3]));
    assert_eq!(Db::sealed(Some(vec![])), Ok(vec![]));
    assert_eq!(Db::sealed(None), Err(DbError::EncryptionError));
}

#[test]
fn what_was_sealed_opens_with_the_same_passphrase() {
    let db = store();
    let written = b"{\"U1\":{\"lastfm_username\":\"alice\"}}".to_vec();
    let file = db.to_encrypted_file(&written).unwrap();
    assert_ne!(file, written);
    assert!(file.starts_with(b"age-encryption.org/v1"));
    assert_eq!(Db::decrypt("passphrase", &file), Ok(written));
}

#[test]
fn a_wrong_passphrase_does_not_open() {
    let db = store();
    let file = db.to_encrypted_file(b"secret records").unwrap();
    assert_eq!(Db::decrypt("another passphrase", &file), Err(DbError::EncryptionError));
}

#[test]
fn what_is_no_sealed_file_does_not_open() {
    assert_eq!(Db::decrypt("passphrase", b"{\"U1\":{}}"), Err(DbError::EncryptionError));
    assert_eq!(Db::decrypt("passphrase", b""), Err(DbError::EncryptionError));
}

#[test]
fn a_damaged_file_does_not_open() {
    let db = store();
    let mut file = db.to_encrypted_file(b"secret records").unwrap();
    let last = file.len() - 1;
    file[last] ^= 1;
    assert_eq!(Db::decrypt("passphrase", &file), Err(DbError::EncryptionError));
}
