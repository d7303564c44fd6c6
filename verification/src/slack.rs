//! What is pushed to the chat platform.

use crate::text::text_of;
use vstd::prelude::*;

verus! {

/// Failure of an exchange with the chat platform.
#[derive(Debug, Clone, Copy, PartialEq, Eq, Structural)]
pub enum SlackError {
    ClientError,
    IoError,
}

impl SlackError {
    pub open spec fn message_text(&self) -> Seq<char> {
        match self {
            SlackError::ClientError => "Slack client error"@,
            SlackError::IoError => "IO error"@,
        }
    }

    /// The text shown for this error.
    pub fn message(&self) -> (text: String)
        ensures
            text@ == self.message_text(),
    {
        match self {
            SlackError::ClientError => "Slack client error".to_owned(),
            SlackError::IoError => "IO error".to_owned(),
        }
    }
}

/// One change of a user's status: whose it is, the text and the emoji to
/// show, and the moment, in seconds since 1970, at which the status lapses.
/// A part that is absent is left as it stands.
#[derive(Debug, PartialEq, Eq)]
pub struct StatusUpdate {
    pub user_id: String,
    pub status_text: Option<String>,
    pub status_emoji: Option<String>,
    pub status_expiration: Option<i64>,
}

/// A change of status as a value.
pub struct StatusView {
    pub user_id: Seq<char>,
    pub status_text: Option<Seq<char>>,
    pub status_emoji: Option<Seq<char>>,
    pub status_expiration: Option<i64>,
}

impl View for StatusUpdate {
    type V = StatusView;

    open spec fn view(&self) -> StatusView {
        StatusView {
            user_id: self.user_id@,
            status_text: text_of(self.status_text),
            status_emoji: text_of(self.status_emoji),
            status_expiration: self.status_expiration,
        }
    }
}

} // verus!
