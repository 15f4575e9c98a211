//! The state of the running app: what is playing, which lyric lookup counts, and what the
//! interface is told.
//!
//! Two playback sources are supported and exactly one is live. The choice is a setting, and
//! changing it drops the old connection, so that polling ends and starts again with the new one.

use vstd::prelude::*;

use crate::db::{save_asks, save_lyrics, statement_view, AUTO, Statement, TrackInfo};
use crate::lrc::{Cue, CueView};
use crate::player::{
    following, next_number, player_error_text, prefix_of, prefixes_tell_the_sources_apart,
    Playback, PlaybackView, PlayerError, PlayerErrorView, PlayerKind,
};
use crate::providers::{first_artist, LyricsResult, LyricsView, QueryView, TrackQuery};
use crate::settings::{
    is_provider, normalized, plausible_id, provider_label, same_sources, validate_client_id,
    PROVIDERS, Settings, SettingsView,
};
use crate::text::{concat3, copy_list, decimal, decimal_text, join, join_text, same, trim};

verus! {

/// Poll politely: 1.5 s keeps the highlight honest without burning rate limit.
pub const POLL_INTERVAL_MS: u64 = 1500;

// ------------------------------------------------------------------------------ keys

/// What a song is filed under.
pub open spec fn song_key(playback: PlaybackView) -> Seq<char> {
    if !playback.has_track {
        Seq::empty()
    } else if playback.track_id.len() == 0 {
        prefix_of(playback.source) + ":"@ + (playback.name + "|"@ + decimal(
            playback.duration_ms as int,
        ))
    } else {
        prefix_of(playback.source) + ":"@ + playback.track_id
    }
}

/// A key that survives restarts, so the database can be read back next session.
///
/// The source is part of the key. It has to be: YouTube Music has no track id at all, so its key
/// is title and length, exactly the shape Spotify falls back to, and without a prefix the two
/// would read each other's cached lyrics.
pub fn track_key(playback: &Playback) -> (key: String)
    ensures
        key@ == song_key(playback@),
{
    if !playback.has_track {
        return String::new();
    }
    let prefix = playback.source.prefix();
    if playback.track_id.as_str().is_empty() {
        let length = decimal_text(playback.duration_ms);
        let rest = concat3(playback.name.as_str(), "|", length.as_str());
        concat3(prefix, ":", rest.as_str())
    } else {
        concat3(prefix, ":", playback.track_id.as_str())
    }
}

/// The two sources never file a song under the same key.
pub proof fn sources_never_share_a_key(a: PlaybackView, b: PlaybackView)
    requires
        a.has_track,
        b.has_track,
        song_key(a) == song_key(b),
    ensures
        a.source == b.source,
{
    let x = if a.track_id.len() == 0 {
        a.name + "|"@ + decimal(a.duration_ms as int)
    } else {
        a.track_id
    };
    let y = if b.track_id.len() == 0 {
        b.name + "|"@ + decimal(b.duration_ms as int)
    } else {
        b.track_id
    };
    prefixes_tell_the_sources_apart(a.source, b.source, x, y);
}

/// A song with an id is filed under its id alone, whatever else is known of it.
pub proof fn the_id_decides_where_there_is_one(a: PlaybackView, b: PlaybackView)
    requires
        a.has_track,
        b.has_track,
        a.source == b.source,
        a.track_id.len() > 0,
        b.track_id.len() > 0,
    ensures
        song_key(a) == song_key(b) <==> a.track_id == b.track_id,
{
    if song_key(a) == song_key(b) {
        prefixes_tell_the_sources_apart(a.source, b.source, a.track_id, b.track_id);
    }
}

// ---------------------------------------------------------------------------- events

/// A line about the state of the connection.
#[derive(Debug)]
pub struct StatusEvent {
    pub state: &'static str,
    pub message: String,
    /// A non-fatal warning, such as that the sign-in could not be cached.
    pub notice: String,
}

/// What a [`StatusEvent`] says.
pub ghost struct StatusView {
    pub state: Seq<char>,
    pub message: Seq<char>,
    pub notice: Seq<char>,
}

impl View for StatusEvent {
    type V = StatusView;

    open spec fn view(&self) -> StatusView {
        StatusView { state: self.state@, message: self.message@, notice: self.notice@ }
    }
}

/// A line about the state of the connection.
pub fn status(state: &'static str, message: &str, notice: &str) -> (event: StatusEvent)
    ensures
        event@ == (StatusView { state: state@, message: message@, notice: notice@ }),
{
    StatusEvent { state, message: message.to_owned(), notice: notice.to_owned() }
}

/// What is playing, for the interface.
#[derive(Debug)]
pub struct PlaybackEvent {
    pub playback: Playback,
    /// Bumped on every track change so late lyric results can be discarded.
    pub generation: u64,
}

/// Lyrics, for the interface.
#[derive(Debug)]
pub struct LyricsEvent {
    pub generation: u64,
    pub track_id: String,
    pub source: String,
    pub synced: bool,
    pub cues: Vec<Cue>,
    pub text: String,
    /// Set when some providers failed but another one answered.
    pub partial: bool,
    /// The source this track is pinned to, or empty for the normal order. The interface shows it
    /// as the current choice in the source menu.
    pub requested: String,
}

/// What a [`LyricsEvent`] says.
pub ghost struct LyricsEventView {
    pub generation: u64,
    pub track_id: Seq<char>,
    pub source: Seq<char>,
    pub synced: bool,
    pub cues: Seq<CueView>,
    pub text: Seq<char>,
    pub partial: bool,
    pub requested: Seq<char>,
}

impl View for LyricsEvent {
    type V = LyricsEventView;

    open spec fn view(&self) -> LyricsEventView {
        LyricsEventView {
            generation: self.generation,
            track_id: self.track_id@,
            source: self.source@,
            synced: self.synced,
            cues: self.cues.deep_view(),
            text: self.text@,
            partial: self.partial,
            requested: self.requested@,
        }
    }
}

/// What the interface is told of lyrics of a song.
pub open spec fn told(
    generation: u64,
    key: Seq<char>,
    requested: Seq<char>,
    result: LyricsView,
) -> LyricsEventView {
    LyricsEventView {
        generation,
        track_id: key,
        source: result.source,
        synced: result.cues.len() > 0,
        cues: result.cues,
        text: result.text,
        partial: result.errors.len() > 0,
        requested,
    }
}

/// What the interface is told of lyrics.
pub fn lyrics_event(
    generation: u64,
    track_id: &str,
    requested: &str,
    result: LyricsResult,
) -> (event: LyricsEvent)
    ensures
        event@ == told(generation, track_id@, requested@, result@),
{
    LyricsEvent {
        generation,
        track_id: track_id.to_owned(),
        source: result.source,
        synced: result.cues.len() > 0,
        partial: result.errors.len() > 0,
        cues: result.cues,
        text: result.text,
        requested: requested.to_owned(),
    }
}

/// One lyrics source as the settings panel and the source menu list it.
#[derive(Debug)]
pub struct ProviderInfo {
    pub id: String,
    pub label: String,
}

impl DeepView for ProviderInfo {
    type V = (Seq<char>, Seq<char>);

    open spec fn deep_view(&self) -> (Seq<char>, Seq<char>) {
        (self.id@, self.label@)
    }
}

/// Everything the interface needs to draw the settings panel in one answer.
#[derive(Debug)]
pub struct ConfigPayload {
    pub settings: Settings,
    pub providers: Vec<ProviderInfo>,
    /// Shown in the panel so the reader can find their own files.
    pub data_dir: String,
    pub stored_tracks: i64,
    /// Non-empty when lyrics cannot be kept between sessions.
    pub storage_warning: String,
}

/// Every source with its name, in the default order.
pub open spec fn listed_providers() -> Seq<(Seq<char>, Seq<char>)> {
    Seq::new(PROVIDERS@.len(), |i: int| (PROVIDERS@[i].0@, PROVIDERS@[i].1@))
}

/// The list of sources that the interface is handed, so that it never hard-codes source names.
pub fn list_providers() -> (list: Vec<ProviderInfo>)
    ensures
        list.deep_view() == listed_providers(),
{
    let mut list: Vec<ProviderInfo> = Vec::new();
    let mut i: usize = 0;
    while i < PROVIDERS.len()
        invariant
            i <= PROVIDERS@.len(),
            list@.len() == i,
            forall|j: int|
                0 <= j < i ==> (#[trigger] list@[j]).deep_view() == listed_providers()[j],
        decreases PROVIDERS@.len() - i,
    {
        list.push(
            ProviderInfo { id: PROVIDERS[i].0.to_owned(), label: PROVIDERS[i].1.to_owned() },
        );
        i += 1;
    }
    assert(list.deep_view() =~= listed_providers());
    list
}

/// Everything the settings panel needs. Where the data folder cannot be found, the reason stands
/// in its place.
pub fn config(
    settings: Settings,
    data_dir: Result<String, String>,
    stored_tracks: i64,
    warning: Option<&str>,
) -> (payload: ConfigPayload)
    ensures
        payload.settings == settings,
        payload.providers.deep_view() == listed_providers(),
        payload.data_dir@ == match data_dir {
            Ok(path) => path@,
            Err(error) => error@,
        },
        payload.stored_tracks == stored_tracks,
        payload.storage_warning@ == match warning {
            Some(warning) => warning@,
            None => Seq::empty(),
        },
{
    ConfigPayload {
        settings,
        providers: list_providers(),
        data_dir: match data_dir {
            Ok(path) => path,
            Err(error) => error,
        },
        stored_tracks,
        storage_warning: match warning {
            Some(warning) => warning.to_owned(),
            None => String::new(),
        },
    }
}

// --------------------------------------------------------------------------- lookups

/// Everything that a lyric lookup needs, fixed when it starts: the lookup can take seconds, and
/// the settings panel must not wait for it.
#[derive(Debug)]
pub struct LookupPlan {
    /// What the song is filed under.
    pub key: String,
    /// The source the song is pinned to, or empty for the normal order.
    pub requested: String,
    /// What the answer is filed under.
    pub cache_key: String,
    /// The sources to ask.
    pub order: Vec<String>,
    pub query: TrackQuery,
    pub track_name: String,
    pub artist: String,
}

/// What a [`LookupPlan`] says.
pub ghost struct PlanView {
    pub key: Seq<char>,
    pub requested: Seq<char>,
    pub cache_key: Seq<char>,
    pub order: Seq<Seq<char>>,
    pub query: QueryView,
    pub track_name: Seq<char>,
    pub artist: Seq<char>,
}

impl View for LookupPlan {
    type V = PlanView;

    open spec fn view(&self) -> PlanView {
        PlanView {
            key: self.key@,
            requested: self.requested@,
            cache_key: self.cache_key@,
            order: self.order.deep_view(),
            query: self.query@,
            track_name: self.track_name@,
            artist: self.artist@,
        }
    }
}

/// What an answer is filed under. An automatic answer is only valid for the order that produced
/// it.
pub open spec fn cache_key_for(requested: Seq<char>, order: Seq<Seq<char>>) -> Seq<char> {
    if requested.len() == 0 {
        "auto:"@ + join(order, ","@)
    } else {
        requested
    }
}

/// The sources to ask: the pinned one alone, or all in their order.
pub open spec fn sources_for(requested: Seq<char>, order: Seq<Seq<char>>) -> Seq<Seq<char>> {
    if requested.len() == 0 {
        order
    } else {
        seq![requested]
    }
}

/// An automatic answer is only valid for the order that produced it: two orders never file
/// their answers under the same key.
pub proof fn each_order_has_its_own_cache_key(a: Seq<Seq<char>>, b: Seq<Seq<char>>)
    requires
        a.len() > 0,
        b.len() > 0,
        forall|i: int| 0 <= i < a.len() ==> !(#[trigger] a[i]).contains(','),
        forall|i: int| 0 <= i < b.len() ==> !(#[trigger] b[i]).contains(','),
        cache_key_for(AUTO@, a) == cache_key_for(AUTO@, b),
    ensures
        a == b,
{
    reveal_strlit("");
    reveal_strlit(",");
    assert(","@ =~= seq![',']);
    let n = "auto:"@.len() as int;
    assert(cache_key_for(AUTO@, a).skip(n) =~= join(a, ","@));
    assert(cache_key_for(AUTO@, b).skip(n) =~= join(b, ","@));
    crate::text::joined_pieces_are_cut_again(a, ',');
    crate::text::joined_pieces_are_cut_again(b, ',');
}

/// An automatic answer is never filed where the answer of one pinned source is.
pub proof fn pinned_answers_are_filed_apart(order: Seq<Seq<char>>, other: Seq<Seq<char>>, id: Seq<char>)
    requires
        is_provider(id),
    ensures
        cache_key_for(AUTO@, order) != cache_key_for(id, other),
{
    reveal_strlit("");
    reveal_strlit("auto:");
    reveal_strlit("lrclib");
    reveal_strlit("petitlyrics");
    reveal_strlit("musixmatch");
    reveal_strlit("netease");
    reveal_strlit("qqmusic");
    let i = crate::settings::providers_are_listed(id, 0);
    assert(PROVIDERS@[i].0@ == id);
    assert(id.len() > 0 && id[0] != 'a');
    assert(cache_key_for(AUTO@, order)[0] == 'a');
}

/// What is asked for a song.
pub open spec fn query_for(playback: PlaybackView) -> QueryView {
    QueryView {
        track: playback.name,
        artists: playback.artists,
        album: playback.album,
        duration_ms: playback.duration_ms,
        spotify_id: if playback.track_id.len() > 0 {
            Some(playback.track_id)
        } else {
            None
        },
    }
}

/// What is asked for a song.
pub fn query_of(playback: &Playback) -> (query: TrackQuery)
    ensures
        query@ == query_for(playback@),
        query.track@ == playback.name@,
        query.artists.deep_view() == playback.artists.deep_view(),
        query.album@ == playback.album@,
        query.duration_ms == playback.duration_ms,
        match query.spotify_id {
            Some(id) => id@ == playback.track_id@ && id@.len() > 0,
            None => playback.track_id@.len() == 0,
        },
{
    TrackQuery {
        track: playback.name.clone(),
        artists: copy_list(&playback.artists),
        album: playback.album.clone(),
        duration_ms: playback.duration_ms,
        spotify_id: if playback.track_id.as_str().is_empty() {
            None
        } else {
            Some(playback.track_id.clone())
        },
    }
}

/// The lookup for a song, given the source it is pinned to and the order in the settings.
pub open spec fn planned_lookup(
    playback: PlaybackView,
    pinned: Option<Seq<char>>,
    order: Seq<Seq<char>>,
) -> PlanView {
    let requested = match pinned {
        Some(id) => id,
        None => AUTO@,
    };
    PlanView {
        key: song_key(playback),
        requested,
        cache_key: cache_key_for(requested, order),
        order: sources_for(requested, order),
        query: query_for(playback),
        track_name: playback.name,
        artist: first_artist(playback.artists),
    }
}

/// Plan the lookup for a song, given the source it is pinned to and the order in the settings.
pub fn plan_lookup(playback: &Playback, pinned: Option<String>, order: Vec<String>) -> (plan:
    LookupPlan)
    ensures
        plan@ == planned_lookup(playback@, pinned.deep_view(), order.deep_view()),
        plan.query.track@ == playback.name@,
        plan.query.artists.deep_view() == playback.artists.deep_view(),
        plan.query.album@ == playback.album@,
        plan.query.duration_ms == playback.duration_ms,
        match plan.query.spotify_id {
            Some(id) => id@ == playback.track_id@ && id@.len() > 0,
            None => playback.track_id@.len() == 0,
        },
        plan.track_name@ == playback.name@,
{
    let requested = match pinned {
        Some(id) => id,
        None => AUTO.to_owned(),
    };
    let query = query_of(playback);
    let artist = query.primary_artist();
    let (cache_key, sources) = if requested.as_str().is_empty() {
        let mut cache_key = "auto:".to_owned();
        let joined = join_text(&order, ",");
        cache_key.append(joined.as_str());
        (cache_key, order)
    } else {
        let mut single: Vec<String> = Vec::new();
        single.push(requested.clone());
        assert(single.deep_view() =~= seq![requested@]);
        (requested.clone(), single)
    };
    LookupPlan {
        key: track_key(playback),
        requested,
        cache_key,
        order: sources,
        query,
        track_name: playback.name.clone(),
        artist,
    }
}

/// Whether the song that the source menu was opened for is still the one that is playing.
pub fn validate_source_track(current: &str, selected: &str) -> (checked: Result<(), String>)
    ensures
        match checked {
            Ok(()) => current@.len() > 0 && current@ == selected@,
            Err(error) => (current@.len() == 0 || current@ != selected@) && error@
                == if current@.len() == 0 {
                "Nothing is playing."@
            } else {
                "The playing song changed. Open the source menu again."@
            },
        },
{
    if current.is_empty() {
        return Err("Nothing is playing.".to_owned());
    }
    if !same(current, selected) {
        return Err("The playing song changed. Open the source menu again.".to_owned());
    }
    Ok(())
}

/// What a choice of source comes to: the song and the source it is pinned to, or why not.
pub open spec fn source_choice(
    current: Seq<char>,
    selected: Seq<char>,
    source: Option<Seq<char>>,
) -> Result<Option<Seq<char>>, Seq<char>> {
    if current.len() == 0 {
        Err("Nothing is playing."@)
    } else if current != selected {
        Err("The playing song changed. Open the source menu again."@)
    } else {
        match source {
            Some(id) if id.len() > 0 => if is_provider(id) {
                Ok(Some(id))
            } else {
                Err("Unknown lyrics source: "@ + id)
            },
            _ => Ok(None),
        }
    }
}

/// Pin the current song to one lyrics source, or clear the pin with `None`: what to store for
/// the song, or why not.
pub fn set_track_source(current: &str, selected: &str, source: Option<String>) -> (choice: Result<
    Option<String>,
    String,
>)
    ensures
        match choice {
            Ok(choice) => source_choice(current@, selected@, source.deep_view()) == Ok::<
                _,
                Seq<char>,
            >(choice.deep_view()),
            Err(error) => source_choice(current@, selected@, source.deep_view()) == Err::<
                Option<Seq<char>>,
                _,
            >(error@),
        },
{
    match validate_source_track(current, selected) {
        Err(error) => Err(error),
        Ok(()) => match source {
            Some(id) => {
                if id.as_str().is_empty() {
                    return Ok(None);
                }
                if provider_label(id.as_str()).is_none() {
                    let mut text = "Unknown lyrics source: ".to_owned();
                    text.append(id.as_str());
                    return Err(text);
                }
                Ok(Some(id))
            },
            None => Ok(None),
        },
    }
}

// ------------------------------------------------------------------------- the state

/// What is known while the app runs.
#[derive(Debug)]
pub struct Session {
    /// The number of the one live connection, or nothing while disconnected.
    pub player: Option<u64>,
    /// Incremented on every track change; a lyric result from an older generation belongs to a
    /// song that is no longer playing.
    pub generation: u64,
    /// Also supersede lookups when refreshing or changing sources on the same song.
    pub lookup_request: u64,
    /// What the song that is playing is filed under.
    pub current_track: String,
    /// The last sample, kept so a source change can look the song up again straight away instead
    /// of waiting for the next poll.
    pub current_playback: Option<Playback>,
    pub polling: bool,
}

/// What a [`Session`] says.
pub ghost struct SessionView {
    pub player: Option<u64>,
    pub generation: u64,
    pub lookup_request: u64,
    pub current_track: Seq<char>,
    pub current_playback: Option<PlaybackView>,
    pub polling: bool,
}

impl View for Session {
    type V = SessionView;

    open spec fn view(&self) -> SessionView {
        SessionView {
            player: self.player,
            generation: self.generation,
            lookup_request: self.lookup_request,
            current_track: self.current_track@,
            current_playback: match self.current_playback {
                Some(playback) => Some(playback@),
                None => None,
            },
            polling: self.polling,
        }
    }
}

/// Nothing has happened yet.
pub open spec fn new_session() -> SessionView {
    SessionView {
        player: None,
        generation: 0,
        lookup_request: 0,
        current_track: Seq::empty(),
        current_playback: None,
        polling: false,
    }
}

/// The session after a sample.
pub open spec fn with_sample(session: SessionView, playback: PlaybackView) -> SessionView {
    SessionView {
        generation: if session.current_track != song_key(playback) {
            next_number(session.generation)
        } else {
            session.generation
        },
        current_track: song_key(playback),
        current_playback: Some(playback),
        ..session
    }
}

/// Whether a sample starts a lyric lookup: where the song changed, and there is one.
pub open spec fn starts_lookup(session: SessionView, playback: PlaybackView) -> bool {
    session.current_track != song_key(playback) && playback.has_track
}

/// The session after a lookup was started.
pub open spec fn with_lookup(session: SessionView) -> SessionView {
    SessionView { lookup_request: next_number(session.lookup_request), ..session }
}

/// Whether the answer to a lookup still counts.
pub open spec fn is_awaited(session: SessionView, generation: u64, request: u64) -> bool {
    session.generation == generation && session.lookup_request == request
}

/// The session after its connection was dropped by a change of settings.
pub open spec fn dropped(session: SessionView) -> SessionView {
    SessionView {
        player: None,
        current_track: Seq::empty(),
        current_playback: None,
        generation: next_number(session.generation),
        ..session
    }
}

/// How long to wait before the next look at the player.
#[derive(Debug, Clone, Copy, PartialEq, Eq, Structural)]
pub enum Delay {
    Millis(u64),
    Seconds(u64),
}

/// What to do after a look at the player.
#[derive(Debug)]
pub enum Polled {
    /// The answer came from a connection that was replaced: look at the new one.
    Replaced,
    /// Tell the interface, and look the song up where the flag says so.
    Sample(PlaybackEvent, bool),
    /// Tell the interface, wait and look again.
    Wait(StatusEvent, Delay),
    /// Tell the interface and stop.
    Stop(StatusEvent),
}

/// What a [`Polled`] says.
pub ghost enum PolledView {
    Replaced,
    Sample { playback: PlaybackView, generation: u64, lookup: bool },
    Wait(StatusView, Delay),
    Stop(StatusView),
}

impl View for Polled {
    type V = PolledView;

    open spec fn view(&self) -> PolledView {
        match *self {
            Polled::Replaced => PolledView::Replaced,
            Polled::Sample(event, lookup) => PolledView::Sample {
                playback: event.playback@,
                generation: event.generation,
                lookup,
            },
            Polled::Wait(status, delay) => PolledView::Wait(status@, delay),
            Polled::Stop(status) => PolledView::Stop(status@),
        }
    }
}

/// A sample or an error, as the player gave it.
pub open spec fn sample_view(result: Result<Playback, PlayerError>) -> Result<
    PlaybackView,
    PlayerErrorView,
> {
    match result {
        Ok(playback) => Ok(playback@),
        Err(error) => Err(error@),
    }
}

/// The session after an answer of the connection with this number, and what to do.
pub open spec fn polled(
    session: SessionView,
    serial: u64,
    result: Result<PlaybackView, PlayerErrorView>,
) -> (SessionView, PolledView) {
    if session.player != Some(serial) {
        (session, PolledView::Replaced)
    } else {
        match result {
            Ok(playback) => (
                with_sample(session, playback),
                PolledView::Sample {
                    playback,
                    generation: with_sample(session, playback).generation,
                    lookup: starts_lookup(session, playback),
                },
            ),
            Err(PlayerErrorView::NeedsAuth) => (
                SessionView { player: None, polling: false, ..session },
                PolledView::Stop(
                    StatusView {
                        state: "needs-auth"@,
                        message: "Spotify sign-in expired"@,
                        notice: ""@,
                    },
                ),
            ),
            Err(PlayerErrorView::RateLimited { retry_after }) => (
                session,
                PolledView::Wait(
                    StatusView {
                        state: "waiting"@,
                        message: "Rate limited; waiting before retry"@,
                        notice: ""@,
                    },
                    Delay::Seconds(
                        if retry_after < 2 {
                            2
                        } else {
                            retry_after
                        },
                    ),
                ),
            ),
            Err(error) => (
                session,
                PolledView::Wait(
                    StatusView {
                        state: "waiting"@,
                        message: player_error_text(error),
                        notice: ""@,
                    },
                    Delay::Millis(POLL_INTERVAL_MS),
                ),
            ),
        }
    }
}

impl Session {
    pub fn new() -> (session: Self)
        ensures
            session@ == new_session(),
    {
        Session {
            player: None,
            generation: 0,
            lookup_request: 0,
            current_track: String::new(),
            current_playback: None,
            polling: false,
        }
    }

    /// Take a sample. Returns what the interface is told, and whether a lyric lookup starts,
    /// which it does when the song changed.
    pub fn apply_playback(&mut self, playback: Playback) -> (applied: (PlaybackEvent, bool))
        ensures
            final(self)@ == with_sample(old(self)@, playback@),
            applied.0.playback@ == playback@,
            applied.0.generation == final(self)@.generation,
            applied.1 == starts_lookup(old(self)@, playback@),
    {
        let key = track_key(&playback);
        let changed = !same(self.current_track.as_str(), key.as_str());
        if changed {
            self.generation = following(self.generation);
        }
        self.current_track = key;
        let has_track = playback.has_track;
        self.current_playback = Some(playback.copy());
        (PlaybackEvent { playback, generation: self.generation }, changed && has_track)
    }

    /// Start a lookup. Returns the number it counts under.
    pub fn begin_lookup(&mut self) -> (request: u64)
        ensures
            final(self)@ == with_lookup(old(self)@),
            request == final(self)@.lookup_request,
    {
        self.lookup_request = following(self.lookup_request);
        self.lookup_request
    }

    /// Whether the answer to a lookup still counts. It does not if the song moved on while the
    /// lookup was in flight.
    pub fn is_current(&self, generation: u64, request: u64) -> (r: bool)
        ensures
            r == is_awaited(self@, generation, request),
    {
        self.generation == generation && self.lookup_request == request
    }

    /// The song to look up again, where one is playing, and its generation.
    pub fn refresh_current(&self) -> (target: Option<(Playback, u64)>)
        ensures
            match target {
                Some(target) => self@.current_playback == Some(target.0@) && target.0@.has_track
                    && target.1 == self@.generation,
                None => match self@.current_playback {
                    Some(playback) => !playback.has_track,
                    None => true,
                },
            },
    {
        match &self.current_playback {
            Some(playback) => if playback.has_track {
                Some((playback.copy(), self.generation))
            } else {
                None
            },
            None => None,
        }
    }

    /// Drop the connection after a change of settings.
    pub fn drop_player(&mut self)
        ensures
            final(self)@ == dropped(old(self)@),
    {
        self.player = None;
        self.current_track = String::new();
        self.current_playback = None;
        self.generation = following(self.generation);
    }

    /// A connection is live.
    pub fn connected(&mut self, serial: u64)
        ensures
            final(self)@ == (SessionView { player: Some(serial), ..old(self)@ }),
    {
        self.player = Some(serial);
    }

    /// Start polling. Returns whether it was not running yet.
    pub fn start_polling(&mut self) -> (started: bool)
        ensures
            started == !old(self)@.polling,
            final(self)@ == (SessionView { polling: true, ..old(self)@ }),
    {
        let started = !self.polling;
        self.polling = true;
        started
    }

    /// The connection to look at next. Where something dropped it, polling ends, so that the
    /// next connection can start it again.
    pub fn poll_target(&mut self) -> (serial: Option<u64>)
        ensures
            serial == old(self)@.player,
            final(self)@ == (SessionView {
                polling: old(self)@.polling && old(self)@.player is Some,
                ..old(self)@
            }),
    {
        if self.player.is_none() {
            self.polling = false;
        }
        self.player
    }

    /// Take the answer of the connection with this number. An answer from a connection that was
    /// replaced must not touch the new one.
    pub fn poll_answer(&mut self, serial: u64, result: Result<Playback, PlayerError>) -> (next:
        Polled)
        ensures
            (final(self)@, next@) == polled(old(self)@, serial, sample_view(result)),
    {
        let live = match self.player {
            Some(open) => open == serial,
            None => false,
        };
        if !live {
            return Polled::Replaced;
        }
        match result {
            Ok(playback) => {
                let (event, lookup) = self.apply_playback(playback);
                Polled::Sample(event, lookup)
            },
            Err(PlayerError::NeedsAuth) => {
                self.player = None;
                self.polling = false;
                Polled::Stop(status("needs-auth", "Spotify sign-in expired", ""))
            },
            Err(PlayerError::RateLimited { retry_after }) => {
                let seconds: u64 = if retry_after < 2 {
                    2
                } else {
                    retry_after
                };
                Polled::Wait(
                    status("waiting", "Rate limited; waiting before retry", ""),
                    Delay::Seconds(seconds),
                )
            },
            Err(error) => {
                let message = error.message();
                Polled::Wait(
                    status("waiting", message.as_str(), ""),
                    Delay::Millis(POLL_INTERVAL_MS),
                )
            },
        }
    }

    /// The connection that a transport action goes to.
    pub fn connected_player(&self) -> (serial: Result<u64, String>)
        ensures
            match serial {
                Ok(serial) => self@.player == Some(serial),
                Err(error) => self@.player is None && error@ == "Not connected to a player"@,
            },
    {
        match self.player {
            Some(serial) => Ok(serial),
            None => Err("Not connected to a player".to_owned()),
        }
    }
}

/// An answer to a lookup is dropped once another song plays.
pub proof fn a_song_change_drops_older_answers(
    session: SessionView,
    playback: PlaybackView,
    request: u64,
)
    requires
        song_key(playback) != session.current_track,
    ensures
        !is_awaited(with_sample(session, playback), session.generation, request),
{
}

/// An answer to a lookup is dropped once another lookup was started for the same song.
pub proof fn a_newer_lookup_drops_older_answers(session: SessionView, generation: u64)
    ensures
        !is_awaited(with_lookup(session), generation, session.lookup_request),
        is_awaited(
            with_lookup(session),
            session.generation,
            with_lookup(session).lookup_request,
        ),
{
}

/// An answer to a lookup is dropped once the connection was dropped.
pub proof fn dropping_the_player_drops_older_answers(session: SessionView, request: u64)
    ensures
        !is_awaited(dropped(session), session.generation, request),
{
}

/// The same song, sampled again, keeps the lookup that is in flight and starts none.
pub proof fn the_same_song_is_looked_up_once(
    session: SessionView,
    playback: PlaybackView,
    again: PlaybackView,
    request: u64,
)
    requires
        song_key(playback) == song_key(again),
    ensures
        !starts_lookup(with_sample(session, playback), again),
        is_awaited(with_sample(session, playback), session.generation, request) ==> is_awaited(
            with_sample(with_sample(session, playback), again),
            session.generation,
            request,
        ),
{
}

/// An answer from a connection that was replaced changes nothing.
pub proof fn a_replaced_connection_changes_nothing(
    session: SessionView,
    serial: u64,
    result: Result<PlaybackView, PlayerErrorView>,
)
    requires
        session.player != Some(serial),
    ensures
        polled(session, serial, result) == (session, PolledView::Replaced),
{
}

/// Polling never stops for good while a connection is live: it goes on after every answer but a
/// sign-in that expired, which drops the connection.
pub proof fn polling_goes_on_while_connected(
    session: SessionView,
    serial: u64,
    result: Result<PlaybackView, PlayerErrorView>,
)
    requires
        session.polling,
    ensures
        polled(session, serial, result).0.polling || polled(session, serial, result).0.player is None,
        polled(session, serial, result).1 is Stop ==> polled(session, serial, result).0.player is None
            && !polled(session, serial, result).0.polling,
{
}

// ---------------------------------------------------------------------- saving settings

/// The settings to save, or why they are refused. An empty Client ID is allowed: it is the
/// first-run state, and refusing to save would also throw away the colours typed in the same
/// panel.
pub open spec fn settings_to_save(incoming: SettingsView) -> Result<SettingsView, Seq<char>> {
    let client_id = trim(incoming.client_id);
    if client_id.len() == 0 || plausible_id(client_id) {
        Ok(
            SettingsView {
                sources: normalized(incoming.sources),
                client_id,
                ..incoming
            },
        )
    } else {
        Err(
            "The Client ID should be letters and digits only. Use the Client ID, not the client secret."@,
        )
    }
}

/// The settings to save, or why they are refused.
pub fn check_settings(incoming: Settings) -> (settings: Result<Settings, String>)
    ensures
        match settings {
            Ok(settings) => settings_to_save(incoming@) == Ok::<_, Seq<char>>(settings@),
            Err(error) => settings_to_save(incoming@) == Err::<SettingsView, _>(error@),
        },
{
    let mut settings = incoming;
    settings.normalize();
    proof {
        crate::text::trim_is_idempotent(incoming@.client_id);
    }
    if !settings.client_id.as_str().is_empty() {
        match validate_client_id(settings.client_id.as_str()) {
            Ok(id) => {
                settings.client_id = id;
            },
            Err(error) => return Err(error),
        }
    }
    Ok(settings)
}

/// What a change of settings means for what is running.
#[derive(Debug, Clone, Copy, PartialEq, Eq, Structural)]
pub enum Change {
    /// The open connection is no longer valid.
    Identity,
    /// The current song is to be looked up again.
    Sources,
    Nothing,
}

/// Either half of the identity invalidates the open connection: a new Client ID cannot reuse the
/// cached refresh token, and a new player is a different source altogether. A Client ID edited
/// while following YouTube Music changes nothing that is running.
pub open spec fn change_between(previous: SettingsView, settings: SettingsView) -> Change {
    if settings.player != previous.player || (settings.player == PlayerKind::Spotify
        && settings.client_id != previous.client_id) {
        Change::Identity
    } else if settings.sources != previous.sources {
        Change::Sources
    } else {
        Change::Nothing
    }
}

/// What a change of settings means for what is running.
pub fn change_of(previous: &Settings, settings: &Settings) -> (change: Change)
    ensures
        change == change_between(previous@, settings@),
{
    if settings.player != previous.player || (settings.player.needs_client_id() && !same(
        settings.client_id.as_str(),
        previous.client_id.as_str(),
    )) {
        Change::Identity
    } else if !same_sources(&settings.sources, &previous.sources) {
        Change::Sources
    } else {
        Change::Nothing
    }
}

/// What follows once settings were saved.
#[derive(Debug)]
pub enum AfterSave {
    /// Tell the interface that the Client ID is missing.
    Tell(StatusEvent),
    /// Connect with the new identity.
    Connect,
    /// Look the current song up again.
    LookAgain,
    Nothing,
}

/// What an [`AfterSave`] says.
pub ghost enum AfterSaveView {
    Tell(StatusView),
    Connect,
    LookAgain,
    Nothing,
}

impl View for AfterSave {
    type V = AfterSaveView;

    open spec fn view(&self) -> AfterSaveView {
        match *self {
            AfterSave::Tell(event) => AfterSaveView::Tell(event@),
            AfterSave::Connect => AfterSaveView::Connect,
            AfterSave::LookAgain => AfterSaveView::LookAgain,
            AfterSave::Nothing => AfterSaveView::Nothing,
        }
    }
}

/// The session after settings were saved, and what follows.
pub open spec fn after_save(
    session: SessionView,
    previous: SettingsView,
    settings: SettingsView,
) -> (SessionView, AfterSaveView) {
    match change_between(previous, settings) {
        Change::Identity => (
            dropped(session),
            if settings.player == PlayerKind::Spotify && settings.client_id.len() == 0 {
                AfterSaveView::Tell(
                    StatusView {
                        state: "needs-client-id"@,
                        message: "Client ID configuration needed"@,
                        notice: ""@,
                    },
                )
            } else {
                AfterSaveView::Connect
            },
        ),
        Change::Sources => (session, AfterSaveView::LookAgain),
        Change::Nothing => (session, AfterSaveView::Nothing),
    }
}

impl Session {
    /// Take settings that were saved. A new identity drops the connection, so that the next one
    /// starts clean and the polling that the old one fed ends.
    pub fn save_settings(&mut self, previous: &Settings, settings: &Settings) -> (after: AfterSave)
        ensures
            (final(self)@, after@) == after_save(old(self)@, previous@, settings@),
    {
        match change_of(previous, settings) {
            Change::Identity => {
                self.drop_player();
                if settings.player.needs_client_id() && settings.client_id.as_str().is_empty() {
                    AfterSave::Tell(
                        status("needs-client-id", "Client ID configuration needed", ""),
                    )
                } else {
                    AfterSave::Connect
                }
            },
            Change::Sources => AfterSave::LookAgain,
            Change::Nothing => AfterSave::Nothing,
        }
    }
}

/// A Client ID edited while following YouTube Music changes nothing that is running, and neither
/// do colours.
pub proof fn only_the_identity_reconnects(
    session: SessionView,
    previous: SettingsView,
    settings: SettingsView,
)
    requires
        settings.player == previous.player,
        settings.player == PlayerKind::Ytmusic || settings.client_id == previous.client_id,
    ensures
        after_save(session, previous, settings).0 == session,
        settings.sources == previous.sources ==> after_save(session, previous, settings).1
            is Nothing,
{
}

// -------------------------------------------------------------------------- delivering

/// A lookup that was started for a song.
#[derive(Debug)]
pub struct Delivery {
    pub plan: LookupPlan,
    pub generation: u64,
    pub request: u64,
}

/// What follows from the answer to a lookup.
#[derive(Debug)]
pub struct Delivered {
    /// The statement that keeps the lyrics, where they are kept.
    pub keep: Option<Statement>,
    pub event: LyricsEvent,
}

/// Plan the lookup of this number for a song of a generation, given the source it is pinned to
/// and the order in the settings.
pub fn deliver_lyrics(
    playback: &Playback,
    generation: u64,
    request: u64,
    pinned: Option<String>,
    order: Vec<String>,
) -> (delivery: Delivery)
    ensures
        delivery.generation == generation,
        delivery.request == request,
        delivery.plan@ == planned_lookup(playback@, pinned.deep_view(), order.deep_view()),
        delivery.plan.query.track@ == playback.name@,
        delivery.plan.query.artists.deep_view() == playback.artists.deep_view(),
        delivery.plan.query.album@ == playback.album@,
        delivery.plan.query.duration_ms == playback.duration_ms,
{
    Delivery { plan: plan_lookup(playback, pinned, order), generation, request }
}

/// What to do once the database has been asked.
#[derive(Debug)]
pub enum Asked {
    /// Tell the interface of what was stored.
    Answer(LyricsEvent),
    /// Ask the sources in the plan.
    LookUp,
}

impl Delivery {
    /// Take what the database has stored for the song. Only where it has nothing, the sources
    /// are asked.
    pub fn stored(&self, cached: Option<LyricsResult>) -> (next: Asked)
        ensures
            match cached {
                Some(cached) => next matches Asked::Answer(event) && event@ == told(
                    self.generation,
                    self.plan@.key,
                    self.plan@.requested,
                    cached@,
                ),
                None => next is LookUp,
            },
    {
        match cached {
            Some(cached) => Asked::Answer(
                lyrics_event(
                    self.generation,
                    self.plan.key.as_str(),
                    self.plan.requested.as_str(),
                    cached,
                ),
            ),
            None => Asked::LookUp,
        }
    }
}

impl Session {
    /// Take what a lookup came to, with the JSON text of its cues and the time. The answer is
    /// dropped if the song moved on while the lookup was in flight.
    pub fn lyrics_found(
        &self,
        delivery: &Delivery,
        result: LyricsResult,
        cues_json: &str,
        now: i64,
    ) -> (delivered: Option<Delivered>)
        ensures
            match delivered {
                Some(delivered) => {
                    &&& is_awaited(self@, delivery.generation, delivery.request)
                    &&& statement_view(delivered.keep) == save_asks(
                        delivery.plan@.key,
                        delivery.plan@.cache_key,
                        delivery.plan@.track_name,
                        delivery.plan@.artist,
                        result@,
                        cues_json@,
                        now,
                    )
                    &&& delivered.event@ == told(
                        delivery.generation,
                        delivery.plan@.key,
                        delivery.plan@.requested,
                        result@,
                    )
                },
                None => !is_awaited(self@, delivery.generation, delivery.request),
            },
    {
        if !self.is_current(delivery.generation, delivery.request) {
            return None;
        }
        let plan = &delivery.plan;
        let keep = save_lyrics(
            plan.key.as_str(),
            plan.cache_key.as_str(),
            TrackInfo { name: plan.track_name.as_str(), artist: plan.artist.as_str() },
            &result,
            cues_json,
            now,
        );
        let event = lyrics_event(
            delivery.generation,
            plan.key.as_str(),
            plan.requested.as_str(),
            result,
        );
        Some(Delivered { keep, event })
    }
}

} // verus!
