//! The one playback source the app follows, and the vocabulary both backends speak.
//!
//! A reader uses Spotify or YouTube Music, never both at once, so this is a choice rather than
//! a merge: one backend is connected, polled and controlled, and switching tears the old one
//! down.

use vstd::prelude::*;

use crate::text::copy_list;

verus! {

/// Which source the reader picked in the settings.
#[derive(Debug, Clone, Copy, PartialEq, Eq, Structural)]
pub enum PlayerKind {
    Spotify,
    /// Whatever the system media session reports, which is how a browser or the desktop app
    /// exposes YouTube Music.
    Ytmusic,
}

impl Default for PlayerKind {
    fn default() -> (kind: Self)
        ensures
            kind == PlayerKind::Spotify,
    {
        PlayerKind::Spotify
    }
}

/// What stands before the database keys of a source.
pub open spec fn prefix_of(kind: PlayerKind) -> Seq<char> {
    match kind {
        PlayerKind::Spotify => "sp"@,
        PlayerKind::Ytmusic => "ytm"@,
    }
}

/// The name of a source.
pub open spec fn label_of(kind: PlayerKind) -> Seq<char> {
    match kind {
        PlayerKind::Spotify => "Spotify"@,
        PlayerKind::Ytmusic => "YouTube Music"@,
    }
}

impl PlayerKind {
    /// Prefixes the database key, so the two sources cannot read each other's cached lyrics.
    /// They have to differ: YouTube Music has no track id, so its key falls back to title and
    /// length, which Spotify also does when it has no id of its own.
    pub fn prefix(self) -> (text: &'static str)
        ensures
            text@ == prefix_of(self),
    {
        match self {
            PlayerKind::Spotify => "sp",
            PlayerKind::Ytmusic => "ytm",
        }
    }

    pub fn label(self) -> (text: &'static str)
        ensures
            text@ == label_of(self),
    {
        match self {
            PlayerKind::Spotify => "Spotify",
            PlayerKind::Ytmusic => "YouTube Music",
        }
    }

    /// Only Spotify needs a Client ID; the system media session needs nothing.
    pub fn needs_client_id(self) -> (r: bool)
        ensures
            r == (self == PlayerKind::Spotify),
    {
        match self {
            PlayerKind::Spotify => true,
            PlayerKind::Ytmusic => false,
        }
    }
}

/// The two sources have different prefixes, and neither prefix is the beginning of the other
/// once a colon is put behind it.
pub proof fn prefixes_tell_the_sources_apart(a: PlayerKind, b: PlayerKind, x: Seq<char>, y: Seq<char>)
    requires
        prefix_of(a) + ":"@ + x == prefix_of(b) + ":"@ + y,
    ensures
        a == b,
        x == y,
{
    reveal_strlit("sp");
    reveal_strlit("ytm");
    reveal_strlit(":");
    let left = prefix_of(a) + ":"@ + x;
    let right = prefix_of(b) + ":"@ + y;
    assert(left[0] == prefix_of(a)[0]);
    assert(right[0] == prefix_of(b)[0]);
    assert(a == b);
    let n = (prefix_of(a) + ":"@).len();
    assert(left.skip(n as int) =~= x);
    assert(right.skip(n as int) =~= y);
}

/// What the interface needs to know about the current playback.
#[derive(Debug, Clone)]
pub struct Playback {
    pub track_id: String,
    pub name: String,
    pub artists: Vec<String>,
    pub album: String,
    pub album_art: Option<String>,
    pub duration_ms: i64,
    pub progress_ms: Option<i64>,
    pub is_playing: bool,
    pub has_track: bool,
    /// The source's own view of which transport actions are currently allowed.
    pub can_skip_next: bool,
    pub can_skip_previous: bool,
    pub can_seek: bool,
    pub device_name: Option<String>,
    /// Which backend produced this sample. Part of the database key.
    pub source: PlayerKind,
}

/// What a [`Playback`] says.
pub ghost struct PlaybackView {
    pub track_id: Seq<char>,
    pub name: Seq<char>,
    pub artists: Seq<Seq<char>>,
    pub album: Seq<char>,
    pub album_art: Option<Seq<char>>,
    pub duration_ms: i64,
    pub progress_ms: Option<i64>,
    pub is_playing: bool,
    pub has_track: bool,
    pub can_skip_next: bool,
    pub can_skip_previous: bool,
    pub can_seek: bool,
    pub device_name: Option<Seq<char>>,
    pub source: PlayerKind,
}

impl View for Playback {
    type V = PlaybackView;

    open spec fn view(&self) -> PlaybackView {
        PlaybackView {
            track_id: self.track_id@,
            name: self.name@,
            artists: self.artists.deep_view(),
            album: self.album@,
            album_art: self.album_art.deep_view(),
            duration_ms: self.duration_ms,
            progress_ms: self.progress_ms,
            is_playing: self.is_playing,
            has_track: self.has_track,
            can_skip_next: self.can_skip_next,
            can_skip_previous: self.can_skip_previous,
            can_seek: self.can_seek,
            device_name: self.device_name.deep_view(),
            source: self.source,
        }
    }
}

/// Nothing is playing on this source.
pub open spec fn nothing_playing(source: PlayerKind) -> PlaybackView {
    PlaybackView {
        track_id: Seq::empty(),
        name: Seq::empty(),
        artists: Seq::empty(),
        album: Seq::empty(),
        album_art: None,
        duration_ms: 0,
        progress_ms: None,
        is_playing: false,
        has_track: false,
        can_skip_next: false,
        can_skip_previous: false,
        can_seek: false,
        device_name: None,
        source,
    }
}

impl Playback {
    /// Nothing is playing on this source.
    pub fn nothing(source: PlayerKind) -> (playback: Self)
        ensures
            playback@ == nothing_playing(source),
    {
        let playback = Playback {
            track_id: String::new(),
            name: String::new(),
            artists: Vec::new(),
            album: String::new(),
            album_art: None,
            duration_ms: 0,
            progress_ms: None,
            is_playing: false,
            has_track: false,
            can_skip_next: false,
            can_skip_previous: false,
            can_seek: false,
            device_name: None,
            source,
        };
        assert(playback@.artists =~= Seq::empty());
        playback
    }

    /// The same sample once more.
    pub fn copy(&self) -> (playback: Self)
        ensures
            playback@ == self@,
    {
        Playback {
            track_id: self.track_id.clone(),
            name: self.name.clone(),
            artists: copy_list(&self.artists),
            album: self.album.clone(),
            album_art: copy_text(&self.album_art),
            duration_ms: self.duration_ms,
            progress_ms: self.progress_ms,
            is_playing: self.is_playing,
            has_track: self.has_track,
            can_skip_next: self.can_skip_next,
            can_skip_previous: self.can_skip_previous,
            can_seek: self.can_seek,
            device_name: copy_text(&self.device_name),
            source: self.source,
        }
    }
}

fn copy_text(text: &Option<String>) -> (copy: Option<String>)
    ensures
        copy.deep_view() == text.deep_view(),
{
    match text {
        Some(text) => Some(text.clone()),
        None => None,
    }
}

impl Default for Playback {
    fn default() -> (playback: Self)
        ensures
            playback@ == nothing_playing(PlayerKind::Spotify),
    {
        Playback::nothing(PlayerKind::Spotify)
    }
}

/// What can go wrong, in terms both backends share.
///
/// Spotify raises all of these; the system media session raises only those that carry a text,
/// because it has no sign-in to expire and no rate limit to hit.
#[derive(Debug)]
pub enum PlayerError {
    /// The cached session is gone or rejected: the reader has to authorize again.
    NeedsAuth,
    Config(String),
    Network(String),
    /// The source said no, in its own wording, including Spotify's Premium refusal, whose exact
    /// text is not documented, so it is passed through as received.
    Refused { message: String },
    RateLimited { retry_after: u64 },
}

/// What a [`PlayerError`] says.
pub ghost enum PlayerErrorView {
    NeedsAuth,
    Config(Seq<char>),
    Network(Seq<char>),
    Refused { message: Seq<char> },
    RateLimited { retry_after: u64 },
}

impl View for PlayerError {
    type V = PlayerErrorView;

    open spec fn view(&self) -> PlayerErrorView {
        match *self {
            PlayerError::NeedsAuth => PlayerErrorView::NeedsAuth,
            PlayerError::Config(text) => PlayerErrorView::Config(text@),
            PlayerError::Network(text) => PlayerErrorView::Network(text@),
            PlayerError::Refused { message } => PlayerErrorView::Refused { message: message@ },
            PlayerError::RateLimited { retry_after } => PlayerErrorView::RateLimited {
                retry_after,
            },
        }
    }
}

/// The sentence shown for an error.
pub open spec fn player_error_text(error: PlayerErrorView) -> Seq<char> {
    match error {
        PlayerErrorView::NeedsAuth => "Authorization is required"@,
        PlayerErrorView::Config(text) => text,
        PlayerErrorView::Network(text) => text,
        PlayerErrorView::Refused { message } => message,
        PlayerErrorView::RateLimited { retry_after } => "Rate limited"@,
    }
}

impl PlayerError {
    /// The sentence shown for this error.
    pub fn message(&self) -> (text: String)
        ensures
            text@ == player_error_text(self@),
    {
        match self {
            PlayerError::NeedsAuth => "Authorization is required".to_owned(),
            PlayerError::Config(text) => text.clone(),
            PlayerError::Network(text) => text.clone(),
            PlayerError::Refused { message } => message.clone(),
            PlayerError::RateLimited { retry_after: _ } => "Rate limited".to_owned(),
        }
    }
}

/// What a call that yields nothing but success came to.
pub open spec fn done(result: Result<(), PlayerError>) -> Result<(), PlayerErrorView> {
    match result {
        Ok(()) => Ok(()),
        Err(error) => Err(error@),
    }
}

/// What the reader asks of the player.
#[derive(Debug, Clone, Copy, PartialEq, Eq, Structural)]
pub enum Control {
    Play,
    Pause,
    Next,
    Previous,
    Seek(i64),
}

/// The number after this one. Behind the largest comes zero.
pub open spec fn next_number(n: u64) -> u64 {
    if n == u64::MAX {
        0
    } else {
        (n + 1) as u64
    }
}

/// The number after this one.
pub fn following(n: u64) -> (next: u64)
    ensures
        next == next_number(n),
{
    if n == u64::MAX {
        0
    } else {
        n + 1
    }
}

/// Hands out the numbers that tell one connection from the next, so an answer that arrives
/// after the reader switched sources can be recognised and dropped.
#[derive(Debug)]
pub struct Serials {
    pub next: u64,
}

impl Serials {
    pub fn new() -> (serials: Self)
        ensures
            serials.next == 1,
    {
        Serials { next: 1 }
    }

    /// The number of a new connection. No number comes twice before all have been handed out.
    pub fn take(&mut self) -> (serial: u64)
        ensures
            serial == old(self).next,
            final(self).next == next_number(serial),
    {
        let serial = self.next;
        self.next = following(serial);
        serial
    }
}

} // verus!
