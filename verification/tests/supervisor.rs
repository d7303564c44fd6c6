use slackfm::registry::Registry;
use slackfm::slack::SlackError;
use slackfm::supervisor::{SpawnOrder, Supervisor};
use slackfm::text::same_text;

#[test]
fn a_new_supervisor_runs_nothing() {
    let tasks = Supervisor::new();
    assert_eq!(tasks.running("U1"), None);
}

#[test]
fn a_first_spawn_cancels_nothing() {
    let mut tasks = Supervisor::new();
    assert_eq!(tasks.spawn("U1"), Some(SpawnOrder { cancel: None, start: 0 }));
    assert_eq!(tasks.running("U1"), Some(0));
    assert_eq!(tasks.spawn("U2"), Some(SpawnOrder { cancel: None, start: 1 }));
    assert_eq!(tasks.running("U1"), Some(0));
    assert_eq!(tasks.running("U2"), Some(1));
}

#[test]
fn a_second_spawn_cancels_the_first_task() {
    let mut tasks = Supervisor::new();
    let first = tasks.spawn("U1").unwrap();
    tasks.spawn("U2").unwrap();
    let second = tasks.spawn("U1").unwrap();
    assert_eq!(second.cancel, Some(first.start));
    assert_ne!(second.start, first.start);
    assert_eq!(tasks.running("U1"), Some(second.start));
    assert_eq!(tasks.running("U2"), Some(1));
    assert_eq!(second, SpawnOrder { cancel: Some(0), start: 2 });
}

#[test]
fn cancelling_is_idempotent() {
    let mut tasks = Supervisor::new();
    tasks.spawn("U1").unwrap();
    tasks.spawn("U2").unwrap();
    assert_eq!(tasks.cancel("U1"), Some(0));
    assert_eq!(tasks.running("U1"), None);
    assert_eq!(tasks.cancel("U1"), None);
    assert_eq!(tasks.cancel("U3"), None);
    assert_eq!(tasks.running("U2"), Some(1));
}

#[test]
fn a_task_that_ends_is_forgotten() {
    let mut tasks = Supervisor::new();
    tasks.spawn("U1").unwrap();
    tasks.spawn("U2").unwrap();
    assert!(tasks.finished("U1", 0));
    assert_eq!(tasks.running("U1"), None);
    assert_eq!(tasks.running("U2"), Some(1));
    assert!(!tasks.finished("U1", 0));
    assert!(!tasks.finished("U3", 0));
}

#[test]
fn a_replaced_task_that_ends_leaves_its_successor() {
    let mut tasks = Supervisor::new();
    let first = tasks.spawn("U1").unwrap();
    let second = tasks.spawn("U1").unwrap();
    assert!(!tasks.finished("U1", first.start));
    assert_eq!(tasks.running("U1"), Some(second.start));
    assert!(tasks.finished("U1", second.start));
    assert_eq!(tasks.running("U1"), None);
}

#[test]
fn a_spawn_after_a_cancel_starts_a_new_task() {
    let mut tasks = Supervisor::new();
    tasks.spawn("U1").unwrap();
    tasks.cancel("U1");
    assert_eq!(tasks.spawn("U1"), Some(SpawnOrder { cancel: None, start: 1 }));
}

#[test]
fn a_registry_keeps_the_order_of_arrival() {
    let mut registry: Registry<u32> = Registry::new();
    assert_eq!(registry.len(), 0);
    assert_eq!(registry.insert("b".to_owned(), 2), None);
    assert_eq!(registry.insert("a".to_owned(), 1), None);
    assert_eq!(registry.insert("b".to_owned(), 3), Some(2));
    assert_eq!(registry.len(), 2);
    assert_eq!(registry.name_at(0), "b");
    assert_eq!(registry.value_at(0), &3);
    assert_eq!(registry.name_at(1), "a");
    assert_eq!(registry.position("a"), Some(1));
    assert_eq!(registry.position("c"), None);
    assert_eq!(registry.get("a"), Some(&1));
    assert_eq!(registry.get("c"), None);
    assert_eq!(registry.remove("b"), Some(3));
    assert_eq!(registry.remove("b"), None);
    assert_eq!(registry.position("a"), Some(0));
}

#[test]
fn texts_are_compared_by_their_characters() {
    assert!(same_text("", ""));
    assert!(same_text("true", "true"));
    assert!(!same_text("true", "True"));
    assert!(!same_text("true", "tru"));
    assert!(!same_text("", " "));
    assert!(same_text("\u{00C9}t\u{00E9}", "\u{00C9}t\u{00E9}"));
    assert!(!same_text("\u{00C9}t\u{00E9}", "Ete"));
}

#[test]
fn slack_error_messages() {
    assert_eq!(SlackError::ClientError.message(), "Slack client error");
    assert_eq!(SlackError::IoError.message(), "IO error");
}
