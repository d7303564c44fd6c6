//! The worker of one user: from what they play to the status they show.

use crate::db::{TokenView, UserData};
use crate::lastfm::{
    fetched_view, observed, status_line, Client, Event, EventView, LastFMError, NowPlayingStream,
    RecentTrack, TrackView,
};
use crate::slack::{StatusUpdate, StatusView};
use std::time::Duration;
use vstd::prelude::*;

verus! {

/// The wait before each poll of a worker, in seconds.
pub const POLLING_SECONDS: u64 = 10;

/// The emoji shown beside a track that plays.
pub const NOW_PLAYING_EMOJI: &'static str = ":music:";

/// The status to push for `event`, if any: the line of the track with the
/// emoji for a track that plays, an empty text and emoji once nothing plays,
/// and nothing for a failed poll. No status lapses by itself.
pub open spec fn presence(user_id: Seq<char>, event: EventView) -> Option<StatusView> {
    match event {
        EventView::Changed(Some(track)) => Some(
            StatusView {
                user_id,
                status_text: Some(status_line(track)),
                status_emoji: Some(NOW_PLAYING_EMOJI@),
                status_expiration: None,
            },
        ),
        EventView::Changed(None) => Some(
            StatusView {
                user_id,
                status_text: Some(Seq::empty()),
                status_emoji: Some(Seq::empty()),
                status_expiration: None,
            },
        ),
        EventView::Error(_) => None,
    }
}

/// The push that goes with an event that may be absent.
pub open spec fn push_for(user_id: Seq<char>, event: Option<EventView>) -> Option<StatusView> {
    match event {
        Some(e) => presence(user_id, e),
        None => None,
    }
}

/// The view of a change of status that may be absent.
pub open spec fn status_of(update: Option<StatusUpdate>) -> Option<StatusView> {
    match update {
        Some(u) => Some(u@),
        None => None,
    }
}

/// Says what to push to the chat platform for `event`.
pub fn status_for(user_id: &str, event: &Event) -> (update: Option<StatusUpdate>)
    ensures
        status_of(update) == presence(user_id@, event@),
{
    match event {
        Event::Changed(Some(track)) => Some(
            StatusUpdate {
                user_id: user_id.to_owned(),
                status_text: Some(track.display()),
                status_emoji: Some(NOW_PLAYING_EMOJI.to_owned()),
                status_expiration: None,
            },
        ),
        Event::Changed(None) => Some(
            StatusUpdate {
                user_id: user_id.to_owned(),
                status_text: Some(String::new()),
                status_emoji: Some(String::new()),
                status_expiration: None,
            },
        ),
        Event::Error(_) => None,
    }
}

/// The state of one worker: whose status it keeps, the secret it acts with,
/// and the stream of what they play.
#[derive(Debug)]
pub struct Worker {
    user_id: String,
    slack_token: String,
    stream: NowPlayingStream,
}

impl Worker {
    /// The user whose status the worker keeps.
    pub closed spec fn user(&self) -> Seq<char> {
        self.user_id@
    }

    /// The secret the worker acts with.
    pub closed spec fn secret(&self) -> Seq<char> {
        self.slack_token@
    }

    /// The account whose tracks the worker polls.
    pub closed spec fn account(&self) -> Seq<char> {
        self.stream.listener()
    }

    /// The wait before each poll.
    pub closed spec fn interval(&self) -> Duration {
        self.stream.interval()
    }

    /// The track retained from the last observation.
    pub closed spec fn last(&self) -> Option<TrackView> {
        self.stream.last()
    }

    /// Starts the worker of `user_id` from their record as it stands. There
    /// is no worker for a user who has not authorized the service.
    pub fn start(client: &Client, user_id: String, user: &UserData, polling_interval: Duration) -> (worker:
        Option<Worker>)
        ensures
            match user@.slack_token {
                TokenView::Oauth(secret) => worker.is_some() && worker.unwrap().user() == user_id@
                    && worker.unwrap().secret() == secret && worker.unwrap().account()
                    == user@.lastfm_username && worker.unwrap().interval() == polling_interval
                    && worker.unwrap().last().is_none(),
                TokenView::Csrf(_) => worker.is_none(),
            },
    {
        match user.slack_token() {
            Some(secret) => {
                let stream = client.stream_now_playing(user.lastfm_username(), polling_interval);
                Some(Worker { user_id, slack_token: secret.to_owned(), stream })
            },
            None => None,
        }
    }

    pub fn user_id(&self) -> (id: &str)
        ensures
            id@ == self.user(),
    {
        self.user_id.as_str()
    }

    pub fn slack_token(&self) -> (secret: &str)
        ensures
            secret@ == self.secret(),
    {
        self.slack_token.as_str()
    }

    pub fn lastfm_username(&self) -> (account: &str)
        ensures
            account@ == self.account(),
    {
        self.stream.user()
    }

    pub fn polling_interval(&self) -> (interval: Duration)
        ensures
            interval == self.interval(),
    {
        self.stream.polling_interval()
    }

    /// Takes the outcome of one poll and says what to push for it. A failed
    /// poll pushes nothing and is forgotten.
    pub fn step(&mut self, fetched: Result<Vec<RecentTrack>, LastFMError>) -> (update: Option<
        StatusUpdate,
    >)
        ensures
            status_of(update) == push_for(
                old(self).user(),
                observed(fetched_view(fetched), old(self).last()).event,
            ),
            final(self).last() == observed(fetched_view(fetched), old(self).last()).last,
            final(self).user() == old(self).user(),
            final(self).secret() == old(self).secret(),
            final(self).account() == old(self).account(),
            final(self).interval() == old(self).interval(),
    {
        match self.stream.observe(fetched) {
            Some(event) => status_for(self.user_id.as_str(), &event),
            None => None,
        }
    }
}

} // verus!
