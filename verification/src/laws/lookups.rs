//! What is looked up for a song, what the interface is told, and what follows from an answer of
//! the player or from new settings.

use vstd::prelude::*;

use crate::player::{PlaybackView, PlayerError, PlayerErrorView, PlayerKind};
use crate::providers::LyricsView;
use crate::session::{
    after_save, change_between, dropped, is_awaited, listed_providers, new_session, planned_lookup,
    polled, query_for, settings_to_save, song_key, source_choice, starts_lookup, told, with_lookup,
    with_sample, AfterSaveView, Change, Delay, PolledView, SessionView,
};
use crate::settings::SettingsView;
use crate::spotify::{SpotifyError, SpotifyErrorView};
use crate::text::{ascii_alphanumeric, decimal, join, trim};

verus! {

// ------------------------------------------------------------------------------------ plans

/// A lookup asks for the song that plays: its title, its artists, its album, its length and its
/// id where it has one, whatever source is pinned and whatever order is set.
pub proof fn a_lookup_asks_for_the_song_that_plays(
    playback: PlaybackView,
    pinned: Option<Seq<char>>,
    order: Seq<Seq<char>>,
)
    ensures
        ({
            let plan = planned_lookup(playback, pinned, order);
            &&& plan.query.track == playback.name
            &&& plan.query.artists == playback.artists
            &&& plan.query.album == playback.album
            &&& plan.query.duration_ms == playback.duration_ms
            &&& playback.track_id.len() > 0 ==> plan.query.spotify_id == Some(playback.track_id)
            &&& playback.track_id.len() == 0 ==> plan.query.spotify_id is None
            &&& plan.track_name == playback.name
            &&& playback.artists.len() > 0 ==> plan.artist == playback.artists[0]
            &&& playback.artists.len() == 0 ==> plan.artist.len() == 0
        }),
{
}

/// Two samples that differ in one thing only ask for two songs that differ in that thing only.
pub proof fn one_difference_stays_one_difference(a: PlaybackView, b: PlaybackView)
    ensures
        b == (PlaybackView { album: b.album, ..a }) ==> query_for(b).track == query_for(a).track
            && query_for(b).artists == query_for(a).artists && query_for(b).duration_ms
            == query_for(a).duration_ms && query_for(b).spotify_id == query_for(a).spotify_id
            && query_for(b).album == b.album,
        b == (PlaybackView { name: b.name, ..a }) ==> query_for(b).track == b.name && query_for(
            b,
        ).artists == query_for(a).artists && query_for(b).album == query_for(a).album && query_for(
            b,
        ).duration_ms == query_for(a).duration_ms && query_for(b).spotify_id == query_for(
            a,
        ).spotify_id,
        b == (PlaybackView { artists: b.artists, ..a }) ==> query_for(b).artists == b.artists
            && query_for(b).track == query_for(a).track && query_for(b).album == query_for(a).album,
        b == (PlaybackView { duration_ms: b.duration_ms, ..a }) ==> query_for(b).duration_ms
            == b.duration_ms && query_for(b).track == query_for(a).track && query_for(b).album
            == query_for(a).album,
        b == (PlaybackView {
            progress_ms: b.progress_ms,
            is_playing: b.is_playing,
            album_art: b.album_art,
            can_seek: b.can_seek,
            can_skip_next: b.can_skip_next,
            can_skip_previous: b.can_skip_previous,
            device_name: b.device_name,
            ..a
        }) ==> query_for(b) == query_for(a) && song_key(b) == song_key(a),
{
}

/// A song is filed under its id, or without one under its title and length, behind what its
/// source is marked by. Where nothing plays, there is no key.
pub proof fn a_song_is_filed_under_what_it_is(playback: PlaybackView)
    ensures
        !playback.has_track ==> song_key(playback).len() == 0,
        playback.has_track && playback.track_id.len() > 0 && playback.source == PlayerKind::Spotify
            ==> song_key(playback) == "sp"@ + ":"@ + playback.track_id,
        playback.has_track && playback.track_id.len() > 0 && playback.source == PlayerKind::Ytmusic
            ==> song_key(playback) == "ytm"@ + ":"@ + playback.track_id,
        playback.has_track && playback.track_id.len() == 0 && playback.source
            == PlayerKind::Spotify ==> song_key(playback) == "sp"@ + ":"@ + (playback.name + "|"@
            + decimal(playback.duration_ms as int)),
        playback.has_track && playback.track_id.len() == 0 && playback.source
            == PlayerKind::Ytmusic ==> song_key(playback) == "ytm"@ + ":"@ + (playback.name + "|"@
            + decimal(playback.duration_ms as int)),
        playback.has_track ==> song_key(playback).len() > 0,
{
    reveal_strlit(":");
}

/// A pinned song is looked up at that source alone and its answer is filed under it. Any other
/// song is looked up at every source in the order, and its answer is filed under the order.
pub proof fn a_pinned_song_is_looked_up_at_its_source(
    playback: PlaybackView,
    id: Seq<char>,
    order: Seq<Seq<char>>,
)
    ensures
        planned_lookup(playback, None, order).requested.len() == 0,
        planned_lookup(playback, None, order).order == order,
        planned_lookup(playback, None, order).cache_key == "auto:"@ + join(order, ","@),
        planned_lookup(playback, None, order).key == song_key(playback),
        id.len() > 0 ==> ({
            let plan = planned_lookup(playback, Some(id), order);
            plan.requested == id && plan.order == seq![id] && plan.cache_key == id && plan.key
                == song_key(playback)
        }),
{
    reveal_strlit("");
}

/// The interface is told the words that were found, of the song and the generation they belong
/// to. They are synced where there are cues, and partial where a source failed.
pub proof fn the_interface_is_told_what_was_found(
    generation: u64,
    key: Seq<char>,
    requested: Seq<char>,
    result: LyricsView,
)
    ensures
        ({
            let event = told(generation, key, requested, result);
            &&& event.generation == generation
            &&& event.track_id == key
            &&& event.requested == requested
            &&& event.source == result.source
            &&& event.cues == result.cues
            &&& event.text == result.text
            &&& event.synced <==> result.cues.len() > 0
            &&& event.partial <==> result.errors.len() > 0
        }),
{
}

/// A source can be chosen for the song that plays and for no other, among the five that there
/// are. No source at all clears the choice.
pub proof fn a_source_is_chosen_for_the_song_that_plays(
    current: Seq<char>,
    selected: Seq<char>,
    source: Option<Seq<char>>,
    id: Seq<char>,
)
    ensures
        current.len() == 0 ==> source_choice(current, selected, source) == Err::<
            Option<Seq<char>>,
            _,
        >("Nothing is playing."@),
        current.len() > 0 && current != selected ==> source_choice(current, selected, source)
            == Err::<Option<Seq<char>>, _>(
            "The playing song changed. Open the source menu again."@,
        ),
        current.len() > 0 ==> source_choice(current, current, None) == Ok::<
            Option<Seq<char>>,
            Seq<char>,
        >(None),
        current.len() > 0 ==> source_choice(current, current, Some(Seq::empty())) == Ok::<
            Option<Seq<char>>,
            Seq<char>,
        >(None),
        current.len() > 0 && (id == "lrclib"@ || id == "petitlyrics"@ || id == "musixmatch"@ || id
            == "netease"@ || id == "qqmusic"@) ==> source_choice(current, current, Some(id)) == Ok::<
            _,
            Seq<char>,
        >(Some(id)),
        current.len() > 0 && id.len() > 0 && id != "lrclib"@ && id != "petitlyrics"@ && id
            != "musixmatch"@ && id != "netease"@ && id != "qqmusic"@ ==> source_choice(
            current,
            current,
            Some(id),
        ) == Err::<Option<Seq<char>>, _>("Unknown lyrics source: "@ + id),
{
    reveal_with_fuel(crate::settings::label_from, 6);
    reveal_strlit("lrclib");
    reveal_strlit("petitlyrics");
    reveal_strlit("musixmatch");
    reveal_strlit("netease");
    reveal_strlit("qqmusic");
}

// ------------------------------------------------------------------------------- the session

/// A sample becomes what is known of the player. The generation moves on exactly where another
/// song plays, and a lookup starts exactly where that song is one.
pub proof fn a_sample_is_remembered(session: SessionView, playback: PlaybackView)
    ensures
        with_sample(session, playback).current_playback == Some(playback),
        with_sample(session, playback).current_track == song_key(playback),
        with_sample(session, playback).player == session.player,
        with_sample(session, playback).polling == session.polling,
        with_sample(session, playback).lookup_request == session.lookup_request,
        song_key(playback) == session.current_track ==> with_sample(session, playback).generation
            == session.generation,
        song_key(playback) != session.current_track && session.generation < u64::MAX
            ==> with_sample(session, playback).generation == session.generation + 1,
        starts_lookup(session, playback) <==> song_key(playback) != session.current_track
            && playback.has_track,
{
}

/// An answer counts for the song and the lookup it was asked for, and for no other. Starting a
/// lookup changes nothing but its number.
pub proof fn an_answer_counts_for_its_own_lookup(
    session: SessionView,
    generation: u64,
    request: u64,
)
    ensures
        is_awaited(session, generation, request) <==> generation == session.generation && request
            == session.lookup_request,
        session.lookup_request < u64::MAX ==> with_lookup(session) == (SessionView {
            lookup_request: (session.lookup_request + 1) as u64,
            ..session
        }),
        with_lookup(session).generation == session.generation,
        with_lookup(session).current_track == session.current_track,
        with_lookup(session).current_playback == session.current_playback,
        with_lookup(session).player == session.player,
        with_lookup(session).polling == session.polling,
{
}

/// Dropping the player forgets it and its song.
pub proof fn a_dropped_player_is_forgotten(session: SessionView)
    ensures
        dropped(session).player is None,
        dropped(session).current_playback is None,
        dropped(session).current_track.len() == 0,
        dropped(session).polling == session.polling,
        dropped(session).lookup_request == session.lookup_request,
        session.generation < u64::MAX ==> dropped(session).generation == session.generation + 1,
{
}

/// What an answer of the live connection leads to: a sample is shown and remembered, a sign-in
/// that expired ends polling, a rate limit is waited out for what it says and two seconds at
/// least, and any other error is told and tried again after a second and a half.
pub proof fn an_answer_of_the_player_is_acted_on(
    session: SessionView,
    serial: u64,
    playback: PlaybackView,
    seconds: u64,
    text: Seq<char>,
)
    requires
        session.player == Some(serial),
    ensures
        ({
            let (after, next) = polled(session, serial, Ok(playback));
            &&& after == with_sample(session, playback)
            &&& next matches PolledView::Sample { playback: shown, generation, lookup }
            &&& shown == playback
            &&& generation == after.generation
            &&& lookup <==> playback.has_track && song_key(playback) != session.current_track
        }),
        ({
            let (after, next) = polled(session, serial, Err(PlayerErrorView::NeedsAuth));
            &&& after.player is None
            &&& !after.polling
            &&& after.generation == session.generation
            &&& after.current_track == session.current_track
            &&& next matches PolledView::Stop(told)
            &&& told.state == "needs-auth"@
            &&& told.message == "Spotify sign-in expired"@
        }),
        ({
            let (after, next) = polled(
                session,
                serial,
                Err(PlayerErrorView::RateLimited { retry_after: seconds }),
            );
            &&& after == session
            &&& next matches PolledView::Wait(told, Delay::Seconds(wait))
            &&& told.state == "waiting"@
            &&& told.message == "Rate limited; waiting before retry"@
            &&& wait >= 2 && wait >= seconds
            &&& wait == 2 || wait == seconds
        }),
        ({
            let (after, next) = polled(session, serial, Err(PlayerErrorView::Network(text)));
            &&& after == session
            &&& next matches PolledView::Wait(told, Delay::Millis(wait))
            &&& told.state == "waiting"@
            &&& told.message == text
            &&& wait == 1500
        }),
        ({
            let (after, next) = polled(session, serial, Err(PlayerErrorView::Config(text)));
            &&& after == session
            &&& next matches PolledView::Wait(told, Delay::Millis(wait))
            &&& told.state == "waiting"@
            &&& told.message == text
            &&& wait == 1500
        }),
        ({
            let (after, next) = polled(
                session,
                serial,
                Err(PlayerErrorView::Refused { message: text }),
            );
            &&& after == session
            &&& next matches PolledView::Wait(told, Delay::Millis(wait))
            &&& told.state == "waiting"@
            &&& told.message == text
            &&& wait == 1500
        }),
{
}

// ------------------------------------------------------------------------------ new settings

/// Settings are saved as they came, with the Client ID trimmed and the list of sources put right.
/// They are refused exactly where the Client ID holds something other than ASCII letters and
/// digits.
pub proof fn settings_are_saved_as_they_came(incoming: SettingsView)
    ensures
        settings_to_save(incoming) matches Ok(settings) ==> {
            &&& settings.player == incoming.player
            &&& settings.theme == incoming.theme
            &&& settings.follow_lyrics == incoming.follow_lyrics
            &&& settings.always_on_top == incoming.always_on_top
            &&& settings.client_id == trim(incoming.client_id)
        },
        settings_to_save(incoming) is Err <==> exists|i: int|
            0 <= i < trim(incoming.client_id).len() && !ascii_alphanumeric(
                #[trigger] trim(incoming.client_id)[i],
            ),
        settings_to_save(incoming) matches Err(error) ==> error
            == "The Client ID should be letters and digits only. Use the Client ID, not the client secret."@,
{
}

/// Another player, or another Client ID for Spotify, is another identity. Otherwise other sources
/// have the song looked up again, and nothing else matters to what is running.
pub proof fn a_change_is_what_differs(previous: SettingsView, settings: SettingsView)
    ensures
        change_between(previous, settings) is Identity <==> settings.player != previous.player || (
        settings.player == PlayerKind::Spotify && settings.client_id != previous.client_id),
        change_between(previous, settings) is Sources <==> settings.sources != previous.sources
            && settings.player == previous.player && (settings.player == PlayerKind::Ytmusic
            || settings.client_id == previous.client_id),
        change_between(settings, settings) == Change::Nothing,
{
}

/// A new identity drops the connection and makes another, unless it lacks the Client ID that
/// Spotify needs. New sources keep the session and look the song up again.
pub proof fn new_settings_are_acted_on(
    session: SessionView,
    previous: SettingsView,
    settings: SettingsView,
)
    ensures
        ({
            let (after, next) = after_save(session, previous, settings);
            &&& change_between(previous, settings) is Identity ==> after == dropped(session)
            &&& !(change_between(previous, settings) is Identity) ==> after == session
            &&& next is Connect <==> change_between(previous, settings) is Identity && !(
            settings.player == PlayerKind::Spotify && settings.client_id.len() == 0)
            &&& change_between(previous, settings) is Identity && settings.player
                == PlayerKind::Spotify && settings.client_id.len() == 0 ==> (
            next matches AfterSaveView::Tell(told) && told.state == "needs-client-id"@
                && told.message == "Client ID configuration needed"@ && told.notice == ""@)
            &&& next is LookAgain <==> change_between(previous, settings) is Sources
            &&& next is Nothing <==> change_between(previous, settings) is Nothing
        }),
{
}

// ------------------------------------------------------------------------------ the beginning

/// At first there is no player, no song and no lookup.
pub proof fn nothing_has_happened_at_first()
    ensures
        new_session().player is None,
        new_session().current_playback is None,
        new_session().current_track.len() == 0,
        new_session().generation == 0,
        new_session().lookup_request == 0,
        !new_session().polling,
{
}

/// The interface is handed the five sources with their names, in the default order.
pub proof fn the_sources_are_listed_by_name()
    ensures
        listed_providers().len() == 5,
        listed_providers()[0] == ("lrclib"@, "LRCLIB"@),
        listed_providers()[1] == ("petitlyrics"@, "PetitLyrics"@),
        listed_providers()[2] == ("musixmatch"@, "Musixmatch"@),
        listed_providers()[3] == ("netease"@, "NetEase"@),
        listed_providers()[4] == ("qqmusic"@, "QQ Music"@),
{
}

/// An error of Spotify stays what it is, in the words that both players share.
pub proof fn an_error_of_spotify_stays_what_it_is(error: SpotifyError)
    ensures
        ({
            let shared = <PlayerError as vstd::std_specs::convert::FromSpec<
                SpotifyError,
            >>::from_spec(error)@;
            match error@ {
                SpotifyErrorView::LoginRequired => shared is NeedsAuth,
                SpotifyErrorView::Config(text) => shared == PlayerErrorView::Config(text),
                SpotifyErrorView::Network(text) => shared == PlayerErrorView::Network(text),
                SpotifyErrorView::Refused { status, message } => shared
                    == PlayerErrorView::Refused { message },
                SpotifyErrorView::RateLimited { retry_after } => shared
                    == PlayerErrorView::RateLimited { retry_after },
            }
        }),
{
}

} // verus!
