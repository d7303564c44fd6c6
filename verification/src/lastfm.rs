//! Recent tracks of a listener and the detection of changes between polls.

use crate::request::{build_request_url, request_url};
use crate::text::{same_text, text_of};
use std::time::Duration;
use vstd::prelude::*;

verus! {

/// Failure of one exchange with the track service.
#[derive(Debug, Clone, Copy, PartialEq, Eq, Structural)]
pub enum LastFMError {
    RequestError,
    ParseError,
}

impl LastFMError {
    /// The text shown for this error.
    pub fn message(&self) -> (text: String)
        ensures
            text@ == self.message_text(),
    {
        match self {
            LastFMError::RequestError => "An error occurred while making the request".to_owned(),
            LastFMError::ParseError => "An error occurred while parsing the response".to_owned(),
        }
    }

    pub open spec fn message_text(&self) -> Seq<char> {
        match self {
            LastFMError::RequestError => "An error occurred while making the request"@,
            LastFMError::ParseError => "An error occurred while parsing the response"@,
        }
    }
}

/// What a track is, as a value: the text of each field and the playing flag.
pub struct TrackView {
    pub mbid: Seq<char>,
    pub name: Seq<char>,
    pub artist: Seq<char>,
    pub album: Seq<char>,
    pub image_url: Seq<char>,
    pub is_now_playing: bool,
}

/// One entry of a listener's recent tracks.
#[derive(Debug, PartialEq, Eq)]
pub struct RecentTrack {
    mbid: String,
    name: String,
    artist: String,
    album: String,
    image_url: String,
    is_now_playing: bool,
}

impl View for RecentTrack {
    type V = TrackView;

    closed spec fn view(&self) -> TrackView {
        TrackView {
            mbid: self.mbid@,
            name: self.name@,
            artist: self.artist@,
            album: self.album@,
            image_url: self.image_url@,
            is_now_playing: self.is_now_playing,
        }
    }
}

impl Clone for RecentTrack {
    fn clone(&self) -> (copy: Self)
        ensures
            copy@ == self@,
    {
        RecentTrack {
            mbid: self.mbid.clone(),
            name: self.name.clone(),
            artist: self.artist.clone(),
            album: self.album.clone(),
            image_url: self.image_url.clone(),
            is_now_playing: self.is_now_playing,
        }
    }
}

impl RecentTrack {
    pub fn mbid(&self) -> (text: &str)
        ensures
            text@ == self@.mbid,
    {
        self.mbid.as_str()
    }

    pub fn name(&self) -> (text: &str)
        ensures
            text@ == self@.name,
    {
        self.name.as_str()
    }

    pub fn artist(&self) -> (text: &str)
        ensures
            text@ == self@.artist,
    {
        self.artist.as_str()
    }

    pub fn album(&self) -> (text: &str)
        ensures
            text@ == self@.album,
    {
        self.album.as_str()
    }

    pub fn image_url(&self) -> (text: &str)
        ensures
            text@ == self@.image_url,
    {
        self.image_url.as_str()
    }

    pub fn is_now_playing(&self) -> (playing: bool)
        ensures
            playing == self@.is_now_playing,
    {
        self.is_now_playing
    }
}

/// The size under which the track service files an image.
#[derive(Debug, Clone, Copy, PartialEq, Eq, Structural)]
pub enum ImageSize {
    Small,
    Medium,
    Large,
    ExtraLarge,
}

/// One image of a track, as the track service reports it.
#[derive(Debug)]
pub struct Image {
    pub size: ImageSize,
    pub url: String,
}

#[derive(Debug)]
pub struct Artist {
    pub text: String,
}

#[derive(Debug)]
pub struct Album {
    pub text: String,
}

/// The attributes of a reported track; `now_playing` holds the text `true`
/// while the listener plays the track.
#[derive(Debug)]
pub struct TrackAttributes {
    pub now_playing: Option<String>,
}

/// One track of the reply to a request for recent tracks, limited to the
/// fields in use.
#[derive(Debug)]
pub struct Track {
    pub name: String,
    pub mbid: String,
    pub artist: Artist,
    pub image: Vec<Image>,
    pub album: Album,
    pub attr: Option<TrackAttributes>,
}

#[derive(Debug)]
pub struct RecentTracksInner {
    pub track: Vec<Track>,
}

/// The reply to a request for a listener's recent tracks.
#[derive(Debug)]
pub struct RecentTracksResponse {
    pub recenttracks: RecentTracksInner,
}

#[derive(Debug)]
pub struct User {
}

/// The reply to a request for a listener's account; `user` is absent where
/// the account does not exist.
#[derive(Debug)]
pub struct UserInfoResponse {
    pub user: Option<User>,
}

/// The address of the image that stands in for a track without one of medium size.
pub const PLACEHOLDER_IMAGE: &'static str = "https://via.placeholder.com/64";

/// The address of the first image of medium size among `images`.
pub open spec fn medium_image(images: Seq<Image>) -> Option<Seq<char>>
    decreases images.len(),
{
    if images.len() == 0 {
        None
    } else if images[0].size == ImageSize::Medium {
        Some(images[0].url@)
    } else {
        medium_image(images.drop_first())
    }
}

/// Whether the attributes flag a track as playing now.
pub open spec fn flagged_playing(attr: Option<TrackAttributes>) -> bool {
    match attr {
        Some(attributes) => match attributes.now_playing {
            Some(flag) => flag@ == "true"@,
            None => false,
        },
        None => false,
    }
}

/// The track that a reported track stands for.
pub open spec fn reported(track: Track) -> TrackView {
    TrackView {
        mbid: track.mbid@,
        name: track.name@,
        artist: track.artist.text@,
        album: track.album.text@,
        image_url: match medium_image(track.image@) {
            Some(url) => url,
            None => PLACEHOLDER_IMAGE@,
        },
        is_now_playing: flagged_playing(track.attr),
    }
}

/// The tracks that a sequence of reported tracks stands for, in order.
pub open spec fn reported_all(tracks: Seq<Track>) -> Seq<TrackView> {
    Seq::new(tracks.len(), |i: int| reported(tracks[i]))
}

/// The views of `tracks`, in order.
pub open spec fn views(tracks: Seq<RecentTrack>) -> Seq<TrackView> {
    Seq::new(tracks.len(), |i: int| tracks[i]@)
}

fn medium_image_url(images: &Vec<Image>) -> (url: Option<String>)
    ensures
        match url {
            Some(text) => medium_image(images@) == Some(text@),
            None => medium_image(images@).is_none(),
        },
{
    let mut i: usize = 0;
    assert(images@.skip(0) =~= images@);
    while i < images.len()
        invariant
            i <= images.len(),
            medium_image(images@) == medium_image(images@.skip(i as int)),
        decreases images.len() - i,
    {
        proof {
            let rest = images@.skip(i as int);
            assert(rest[0] == images@[i as int]);
            assert(rest.drop_first() =~= images@.skip(i + 1));
        }
        if images[i].size == ImageSize::Medium {
            return Some(images[i].url.clone());
        }
        i += 1;
    }
    assert(images@.skip(i as int).len() == 0);
    None
}

impl RecentTrack {
    /// Reads a reported track: the image of medium size, or the placeholder
    /// where there is none, and the playing flag.
    pub fn from(track: Track) -> (out: RecentTrack)
        ensures
            out@ == reported(track),
    {
        let image_url = match medium_image_url(&track.image) {
            Some(url) => url,
            None => PLACEHOLDER_IMAGE.to_owned(),
        };
        let is_now_playing = match &track.attr {
            Some(attributes) => match &attributes.now_playing {
                Some(flag) => same_text(flag.as_str(), "true"),
                None => false,
            },
            None => false,
        };
        RecentTrack {
            name: track.name,
            mbid: track.mbid,
            artist: track.artist.text,
            album: track.album.text,
            image_url,
            is_now_playing,
        }
    }

    /// The track as a status line: title, a dash, artist.
    pub fn display(&self) -> (line: String)
        ensures
            line@ == status_line(self@),
    {
        let mut line = self.name.clone();
        line.append(" - ");
        line.append(self.artist.as_str());
        line
    }
}

/// Title and artist of a track, joined by a dash between two spaces.
pub open spec fn status_line(track: TrackView) -> Seq<char> {
    track.name + " - "@ + track.artist
}

/// Whether `current` counts as another track than `last`: by identifier where
/// `current` has one, by title where it has none.
pub open spec fn differs(current: TrackView, last: TrackView) -> bool {
    if current.mbid.len() > 0 {
        current.mbid != last.mbid
    } else {
        current.name != last.name
    }
}

fn track_differs(current: &RecentTrack, last: &RecentTrack) -> (changed: bool)
    ensures
        changed == differs(current@, last@),
{
    if !current.mbid.as_str().is_empty() {
        current.mbid != last.mbid
    } else {
        current.name != last.name
    }
}

/// The first of `tracks` that is flagged as playing now.
pub open spec fn first_playing(tracks: Seq<TrackView>) -> Option<TrackView>
    decreases tracks.len(),
{
    if tracks.len() == 0 {
        None
    } else if tracks[0].is_now_playing {
        Some(tracks[0])
    } else {
        first_playing(tracks.drop_first())
    }
}

/// The track among `tracks` that the listener plays now, if any: the first one flagged.
pub fn now_playing(tracks: &Vec<RecentTrack>) -> (found: Option<RecentTrack>)
    ensures
        track_of(found) == first_playing(views(tracks@)),
{
    let ghost all = views(tracks@);
    let mut i: usize = 0;
    assert(all.skip(0) =~= all);
    while i < tracks.len()
        invariant
            i <= tracks.len(),
            all == views(tracks@),
            first_playing(all) == first_playing(all.skip(i as int)),
        decreases tracks.len() - i,
    {
        proof {
            let rest = all.skip(i as int);
            assert(rest[0] == tracks@[i as int]@);
            assert(rest.drop_first() =~= all.skip(i + 1));
        }
        if tracks[i].is_now_playing {
            return Some(tracks[i].clone());
        }
        i += 1;
    }
    assert(all.skip(i as int).len() == 0);
    None
}

/// The view of a track that may be absent.
pub open spec fn track_of(track: Option<RecentTrack>) -> Option<TrackView> {
    match track {
        Some(t) => Some(t@),
        None => None,
    }
}

/// What one poll yields to the consumer of the stream.
#[derive(Debug, PartialEq, Eq)]
pub enum Event {
    /// The listener plays another track than before, or none any more.
    Changed(Option<RecentTrack>),
    /// The poll failed; the next one is tried as if nothing had happened.
    Error(LastFMError),
}

/// An event as a value.
pub enum EventView {
    Changed(Option<TrackView>),
    Error(LastFMError),
}

impl View for Event {
    type V = EventView;

    open spec fn view(&self) -> EventView {
        match self {
            Event::Changed(track) => EventView::Changed(track_of(*track)),
            Event::Error(e) => EventView::Error(*e),
        }
    }
}

/// The view of an event that may be absent.
pub open spec fn event_of(event: Option<Event>) -> Option<EventView> {
    match event {
        Some(e) => Some(e@),
        None => None,
    }
}

/// The outcome of comparing one observation with the track retained from the
/// one before: the event to emit, if any, and the track to retain.
pub struct Step {
    pub event: Option<EventView>,
    pub last: Option<TrackView>,
}

/// The comparison of the track playing now with the one retained.
///
/// With neither there is nothing to say. A track where there was none, and
/// none where there was one, are changes. Two tracks are a change where they
/// differ in the sense of [`differs`]; the retained track then becomes the
/// current one.
pub open spec fn compare(current: Option<TrackView>, last: Option<TrackView>) -> Step {
    match (current, last) {
        (None, None) => Step { event: None, last: None },
        (Some(playing), None) => Step {
            event: Some(EventView::Changed(Some(playing))),
            last: Some(playing),
        },
        (None, Some(_)) => Step { event: Some(EventView::Changed(None)), last: None },
        (Some(playing), Some(before)) => if differs(playing, before) {
            Step { event: Some(EventView::Changed(Some(playing))), last: Some(playing) }
        } else {
            Step { event: None, last: Some(before) }
        },
    }
}

/// What a poll does to the stream: a failed poll is reported and leaves the
/// retained track alone, a successful one is compared with it.
pub open spec fn observed(
    fetched: Result<Seq<TrackView>, LastFMError>,
    last: Option<TrackView>,
) -> Step {
    match fetched {
        Ok(tracks) => compare(first_playing(tracks), last),
        Err(e) => Step { event: Some(EventView::Error(e)), last },
    }
}

/// Seeing the same once more says nothing: whatever was retained, the
/// observation that follows one with the same track playing, or again with
/// none, emits no event.
pub proof fn lemma_repeat_is_silent(current: Option<TrackView>, last: Option<TrackView>)
    ensures
        compare(current, compare(current, last).last).event.is_none(),
        compare(current, compare(current, last).last).last == compare(current, last).last,
{
}

/// The identifier goes before the title. A current track with an identifier
/// is a change exactly where the identifier differs from the retained one,
/// be the titles the same or not; one without is a change exactly where the
/// title differs.
pub proof fn lemma_track_id_precedence(current: TrackView, last: TrackView)
    ensures
        current.mbid.len() > 0 ==> (compare(Some(current), Some(last)).event.is_some() <==> current.mbid
            != last.mbid),
        current.mbid.len() == 0 ==> (compare(Some(current), Some(last)).event.is_some()
            <==> current.name != last.name),
        compare(Some(current), Some(last)).event.is_some() ==> compare(
            Some(current),
            Some(last),
        ) == (Step {
            event: Some(EventView::Changed(Some(current))),
            last: Some(current),
        }),
{
}

/// The transitions between a track and none: nothing after nothing says
/// nothing, a track after nothing is that track, nothing after a track is
/// the end of playing, and a track after itself says nothing.
pub proof fn lemma_absence_transitions(track: TrackView)
    ensures
        compare(None, None) == (Step { event: None, last: None }),
        compare(Some(track), None) == (Step {
            event: Some(EventView::Changed(Some(track))),
            last: Some(track),
        }),
        compare(None, Some(track)) == (Step { event: Some(EventView::Changed(None)), last: None }),
        compare(Some(track), Some(track)) == (Step { event: None, last: Some(track) }),
{
}

/// A failed poll is forgotten: it is reported, and the poll after it is
/// compared with what was retained before.
pub proof fn lemma_error_is_transient(
    e: LastFMError,
    next: Result<Seq<TrackView>, LastFMError>,
    last: Option<TrackView>,
)
    ensures
        observed(Err(e), last) == (Step { event: Some(EventView::Error(e)), last }),
        observed(next, observed(Err(e), last).last) == observed(next, last),
{
}

/// Compares the track playing now with the one retained from the last
/// observation, and says what to emit and what to retain.
pub fn detect_change(current: Option<RecentTrack>, last: Option<RecentTrack>) -> (out: (
    Option<Event>,
    Option<RecentTrack>,
))
    ensures
        event_of(out.0) == compare(track_of(current), track_of(last)).event,
        track_of(out.1) == compare(track_of(current), track_of(last)).last,
{
    match (current, last) {
        (None, None) => (None, None),
        (Some(playing), None) => {
            let retained = playing.clone();
            (Some(Event::Changed(Some(playing))), Some(retained))
        },
        (None, Some(_)) => (Some(Event::Changed(None)), None),
        (Some(playing), Some(before)) => {
            if track_differs(&playing, &before) {
                let retained = playing.clone();
                (Some(Event::Changed(Some(playing))), Some(retained))
            } else {
                (None, Some(before))
            }
        },
    }
}

/// The state of one stream of changes: whose tracks are polled, how long to
/// wait before each poll, and the track retained from the last observation.
#[derive(Debug)]
pub struct NowPlayingStream {
    user: String,
    polling_interval: Duration,
    last_playing: Option<RecentTrack>,
}

impl NowPlayingStream {
    /// The listener whose tracks are polled.
    pub closed spec fn listener(&self) -> Seq<char> {
        self.user@
    }

    /// The wait before each poll.
    pub closed spec fn interval(&self) -> Duration {
        self.polling_interval
    }

    /// The track retained from the last observation.
    pub closed spec fn last(&self) -> Option<TrackView> {
        track_of(self.last_playing)
    }

    pub fn user(&self) -> (user: &str)
        ensures
            user@ == self.listener(),
    {
        self.user.as_str()
    }

    pub fn polling_interval(&self) -> (interval: Duration)
        ensures
            interval == self.interval(),
    {
        self.polling_interval
    }

    pub fn last_playing(&self) -> (track: Option<RecentTrack>)
        ensures
            track_of(track) == self.last(),
    {
        match &self.last_playing {
            Some(track) => Some(track.clone()),
            None => None,
        }
    }

    /// Takes the outcome of one poll and says what to emit for it.
    pub fn observe(&mut self, fetched: Result<Vec<RecentTrack>, LastFMError>) -> (event: Option<
        Event,
    >)
        ensures
            event_of(event) == observed(fetched_view(fetched), old(self).last()).event,
            final(self).last() == observed(fetched_view(fetched), old(self).last()).last,
            final(self).listener() == old(self).listener(),
            final(self).interval() == old(self).interval(),
    {
        match fetched {
            Err(e) => Some(Event::Error(e)),
            Ok(tracks) => {
                let current = now_playing(&tracks);
                let last = self.last_playing.take();
                let (event, retained) = detect_change(current, last);
                self.last_playing = retained;
                event
            },
        }
    }
}

/// The outcome of a poll as a value.
pub open spec fn fetched_view(fetched: Result<Vec<RecentTrack>, LastFMError>) -> Result<
    Seq<TrackView>,
    LastFMError,
> {
    match fetched {
        Ok(tracks) => Ok(views(tracks@)),
        Err(e) => Err(e),
    }
}

/// Where the track service answers.
pub const API_BASE: &'static str = "https://ws.audioscrobbler.com/2.0/";

/// The requests to the track service of one holder of an access key, and the
/// reading of its replies.
#[derive(Debug)]
pub struct Client {
    key: String,
    base_url: String,
}

impl Client {
    /// The access key.
    pub closed spec fn key(&self) -> Seq<char> {
        self.key@
    }

    /// The address that every request starts from.
    pub closed spec fn base(&self) -> Seq<char> {
        self.base_url@
    }

    pub fn new(api_key: String) -> (client: Self)
        ensures
            client.key() == api_key@,
            client.base() == API_BASE@,
    {
        Client { key: api_key, base_url: API_BASE.to_owned() }
    }

    /// The address to ask whether the account `user` exists.
    pub fn user_info_url(&self, user: &str) -> (url: Option<String>)
        ensures
            text_of(url) == request_url(self.base(), "user.getinfo"@, user@, self.key()),
    {
        build_request_url(self.base_url.as_str(), "user.getinfo", user, self.key.as_str())
    }

    /// The address to ask for the recent tracks of `user`.
    pub fn recent_tracks_url(&self, user: &str) -> (url: Option<String>)
        ensures
            text_of(url) == request_url(self.base(), "user.getrecenttracks"@, user@, self.key()),
    {
        build_request_url(self.base_url.as_str(), "user.getrecenttracks", user, self.key.as_str())
    }

    /// Reads the reply to a request for an account: the account exists where
    /// the reply holds one. A failed exchange stays the failure it was.
    pub fn does_user_exist(reply: Result<UserInfoResponse, LastFMError>) -> (exists: Result<
        bool,
        LastFMError,
    >)
        ensures
            exists == match reply {
                Ok(response) => Ok::<bool, LastFMError>(response.user.is_some()),
                Err(e) => Err(e),
            },
    {
        match reply {
            Ok(response) => Ok(response.user.is_some()),
            Err(e) => Err(e),
        }
    }

    /// Whether an account is taken to exist: only where the service said so.
    /// A failed exchange counts as an account that does not exist.
    pub fn verify_account_exists(exists: Result<bool, LastFMError>) -> (resolved: bool)
        ensures
            resolved == (exists == Ok::<bool, LastFMError>(true)),
    {
        match exists {
            Ok(found) => found,
            Err(_) => false,
        }
    }

    /// Reads the reply to a request for recent tracks: each reported track
    /// in its place. A failed exchange stays the failure it was.
    pub fn get_user_recent_tracks(reply: Result<RecentTracksResponse, LastFMError>) -> (tracks:
        Result<Vec<RecentTrack>, LastFMError>)
        ensures
            fetched_view(tracks) == match reply {
                Ok(response) => Ok::<Seq<TrackView>, LastFMError>(
                    reported_all(response.recenttracks.track@),
                ),
                Err(e) => Err(e),
            },
    {
        match reply {
            Err(e) => Err(e),
            Ok(response) => {
                let reports = response.recenttracks.track;
                let ghost all = reports@;
                let mut tracks: Vec<RecentTrack> = Vec::new();
                for report in iter: reports.into_iter()
                    invariant
                        iter.seq() == all,
                        tracks.len() == iter.index(),
                        forall|j: int| 0 <= j < tracks.len() ==> tracks@[j]@ == reported(all[j]),
                {
                    tracks.push(RecentTrack::from(report));
                }
                assert(views(tracks@) =~= reported_all(all));
                Ok(tracks)
            },
        }
    }

    /// Starts a stream of the changes in what `user` plays, polled every
    /// `polling_interval`. Nothing is retained yet: the first track seen
    /// playing is a change.
    pub fn stream_now_playing(&self, user: &str, polling_interval: Duration) -> (stream:
        NowPlayingStream)
        ensures
            stream.listener() == user@,
            stream.interval() == polling_interval,
            stream.last().is_none(),
    {
        NowPlayingStream { user: user.to_owned(), polling_interval, last_playing: None }
    }
}

} // verus!
