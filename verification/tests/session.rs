use hakuro::lrc::Cue;
use hakuro::player::{Playback, PlayerError, PlayerKind};
use hakuro::providers::LyricsResult;
use hakuro::session::{
    check_settings, config, deliver_lyrics, lyrics_event, set_track_source, track_key,
    validate_source_track, AfterSave, Asked, Delay, Polled, Session,
};
use hakuro::settings::Settings;

fn playback() -> Playback {
    Playback {
        track_id: "id".into(),
        name: "Title".into(),
        artists: vec!["Artist".into()],
        album: "Album".into(),
        album_art: Some("https://example.test/art.jpg".into()),
        duration_ms: 180_000,
        progress_ms: Some(1000),
        is_playing: true,
        has_track: true,
        can_skip_next: true,
        can_skip_previous: false,
        can_seek: true,
        device_name: Some("Device".into()),
        source: PlayerKind::Spotify,
    }
}

fn order() -> Vec<String> {
    vec!["lrclib".into(), "netease".into()]
}

#[test]
fn source_selection_rejects_a_song_changed_since_the_menu_opened() {
    assert!(validate_source_track("song-b", "song-a").is_err());
    assert!(validate_source_track("", "song-a").is_err());
    assert!(validate_source_track("song-a", "song-a").is_ok());
    assert!(validate_source_track("Title|180000", "Title|180000").is_ok());
}

/// The database key has to survive a restart, so it is the Spotify id when
/// there is one and never anything derived from the session.
#[test]
fn track_key_prefers_the_spotify_id_and_falls_back_to_title_and_length() {
    assert_eq!(track_key(&playback()), "sp:id");

    let mut local = playback();
    local.track_id = String::new();
    assert_eq!(track_key(&local), "sp:Title|180000");

    let mut stopped = playback();
    stopped.has_track = false;
    assert_eq!(track_key(&stopped), "");
}

/// The two sources reach the same fallback shape — title and length — so
/// only the prefix keeps one from serving the other's cached lyrics.
#[test]
fn the_same_song_on_each_source_gets_its_own_database_key() {
    let mut spotify = playback();
    spotify.track_id = String::new();
    let mut ytmusic = spotify.clone();
    ytmusic.source = PlayerKind::Ytmusic;
    assert_eq!(track_key(&ytmusic), "ytm:Title|180000");
    assert_ne!(track_key(&spotify), track_key(&ytmusic));
}

#[test]
fn an_answer_counts_only_while_its_song_plays_and_no_newer_lookup_runs() {
    let mut session = Session::new();
    let (event, lookup) = session.apply_playback(playback());
    assert!(lookup);
    assert_eq!(event.generation, 1);
    let request = session.begin_lookup();
    let delivery = deliver_lyrics(&event.playback, event.generation, request, None, order());
    assert_eq!(delivery.plan.key, "sp:id");
    assert_eq!(delivery.plan.cache_key, "auto:lrclib,netease");
    assert_eq!(delivery.plan.order, order());
    assert_eq!(delivery.plan.query.spotify_id.as_deref(), Some("id"));
    assert_eq!(delivery.plan.artist, "Artist");

    // The same song, sampled again, changes nothing.
    let (_, lookup) = session.apply_playback(playback());
    assert!(!lookup);
    let lyrics = || LyricsResult::from_raw("[00:01]A", "LRCLIB");
    let delivered = session.lyrics_found(&delivery, lyrics(), "[]", 9).unwrap();
    assert!(delivered.keep.is_some());
    assert!(delivered.event.synced);
    assert_eq!(delivered.event.track_id, "sp:id");

    // A refresh supersedes it.
    let (again, generation) = session.refresh_current().unwrap();
    let request = session.begin_lookup();
    let pinned =
        deliver_lyrics(&again, generation, request, Some("netease".into()), order());
    assert!(session.lyrics_found(&delivery, lyrics(), "[]", 9).is_none());
    assert_eq!(pinned.plan.cache_key, "netease");
    assert_eq!(pinned.plan.order, vec!["netease"]);
    let delivered = session.lyrics_found(&pinned, LyricsResult::empty("x"), "[]", 9).unwrap();
    assert!(delivered.keep.is_none());
    assert_eq!(delivered.event.requested, "netease");

    // Another song does too.
    let mut other = playback();
    other.track_id = "other".into();
    session.apply_playback(other);
    assert!(session.lyrics_found(&pinned, lyrics(), "[]", 9).is_none());
}

#[test]
fn what_the_database_has_is_told_without_a_lookup() {
    let mut session = Session::new();
    let (event, _) = session.apply_playback(playback());
    let request = session.begin_lookup();
    let delivery = deliver_lyrics(
        &event.playback,
        event.generation,
        request,
        Some("netease".into()),
        order(),
    );
    match delivery.stored(Some(LyricsResult::from_raw("[00:01]A", "NetEase"))) {
        Asked::Answer(event) => {
            assert_eq!(event.generation, 1);
            assert_eq!(event.track_id, "sp:id");
            assert_eq!(event.requested, "netease");
            assert_eq!(event.source, "NetEase");
            assert!(event.synced);
            assert_eq!(event.cues.len(), 1);
        }
        Asked::LookUp => panic!("the stored lyrics have to be told"),
    }
    assert!(matches!(delivery.stored(None), Asked::LookUp));
}

#[test]
fn nothing_playing_is_not_looked_up() {
    let mut session = Session::new();
    session.apply_playback(playback());
    let (event, lookup) = session.apply_playback(Playback::default());
    assert!(!lookup);
    assert_eq!(event.generation, 2);
    assert!(session.refresh_current().is_none());
    assert_eq!(session.current_track, "");
}

#[test]
fn polling_follows_the_live_connection() {
    let mut session = Session::new();
    assert!(session.start_polling());
    assert!(!session.start_polling());
    assert_eq!(session.poll_target(), None);
    assert!(!session.polling);
    assert_eq!(
        session.connected_player().unwrap_err(),
        "Not connected to a player"
    );

    session.connected(7);
    session.start_polling();
    assert_eq!(session.poll_target(), Some(7));
    assert_eq!(session.connected_player(), Ok(7));
    assert!(matches!(
        session.poll_answer(6, Err(PlayerError::NeedsAuth)),
        Polled::Replaced
    ));
    assert_eq!(session.player, Some(7));
    assert!(matches!(
        session.poll_answer(7, Ok(playback())),
        Polled::Sample(_, true)
    ));
    let Polled::Wait(event, delay) =
        session.poll_answer(7, Err(PlayerError::RateLimited { retry_after: 1 }))
    else {
        panic!("wait")
    };
    assert_eq!(event.message, "Rate limited; waiting before retry");
    assert_eq!(delay, Delay::Seconds(2));
    let Polled::Wait(event, delay) =
        session.poll_answer(7, Err(PlayerError::Network("down".into())))
    else {
        panic!("wait")
    };
    assert_eq!(event.message, "down");
    assert_eq!(delay, Delay::Millis(1500));
    let Polled::Stop(event) = session.poll_answer(7, Err(PlayerError::NeedsAuth)) else {
        panic!("stop")
    };
    assert_eq!(event.state, "needs-auth");
    assert!(session.player.is_none() && !session.polling);
}

#[test]
fn saved_settings_decide_what_follows() {
    let mut session = Session::new();
    session.connected(1);
    session.apply_playback(playback());
    let previous = Settings {
        client_id: "abc".into(),
        ..Settings::default()
    };
    let after = session.save_settings(&previous, &previous.clone());
    assert!(matches!(after, AfterSave::Nothing));

    let mut sources = previous.clone();
    sources.sources[0].enabled = false;
    assert!(matches!(
        session.save_settings(&previous, &sources),
        AfterSave::LookAgain
    ));
    assert_eq!(session.player, Some(1));

    let mut ytmusic = previous.clone();
    ytmusic.player = PlayerKind::Ytmusic;
    assert!(matches!(
        session.save_settings(&previous, &ytmusic),
        AfterSave::Connect
    ));
    assert_eq!(session.player, None);
    assert_eq!(session.generation, 2);
    assert!(session.current_playback.is_none());

    // The Client ID does not matter while YouTube Music is followed.
    let mut edited = ytmusic.clone();
    edited.client_id = "other".into();
    assert!(matches!(
        session.save_settings(&ytmusic, &edited),
        AfterSave::Nothing
    ));
    let blank = Settings::default();
    let AfterSave::Tell(event) = session.save_settings(&previous, &blank) else {
        panic!("the Client ID is missing")
    };
    assert_eq!(event.state, "needs-client-id");
}

#[test]
fn settings_are_checked_before_they_are_saved() {
    let mut incoming = Settings::default();
    incoming.client_id = "  ".into();
    assert_eq!(check_settings(incoming.clone()).unwrap().client_id, "");
    incoming.client_id = " abc ".into();
    assert_eq!(check_settings(incoming.clone()).unwrap().client_id, "abc");
    incoming.client_id = "a b".into();
    assert!(check_settings(incoming).is_err());
}

#[test]
fn a_source_is_chosen_for_the_song_that_plays() {
    let choose = |source: Option<&str>| {
        set_track_source("song", "song", source.map(|id| id.to_string()))
    };
    assert_eq!(choose(Some("netease")), Ok(Some("netease".to_string())));
    assert_eq!(choose(Some("")), Ok(None));
    assert_eq!(choose(None), Ok(None));
    assert_eq!(
        choose(Some("ghost")),
        Err("Unknown lyrics source: ghost".to_string())
    );
    assert_eq!(
        set_track_source("", "song", None),
        Err("Nothing is playing.".to_string())
    );
    assert_eq!(
        set_track_source("a", "b", None),
        Err("The playing song changed. Open the source menu again.".to_string())
    );
}

#[test]
fn lyrics_are_told_with_what_went_wrong() {
    let result = LyricsResult {
        text: "A".into(),
        source: "LRCLIB".into(),
        cues: vec![Cue {
            time_ms: 1,
            text: "A".into(),
        }],
        errors: vec!["NetEase: Http".into()],
    };
    let event = lyrics_event(3, "sp:id", "", result);
    assert!(event.synced && event.partial);
    assert_eq!(event.source, "LRCLIB");
    assert_eq!(event.generation, 3);
    assert_eq!(event.cues.len(), 1);
}

#[test]
fn the_settings_panel_gets_everything_in_one_answer() {
    let payload = config(Settings::default(), Ok("C:/Hakuro".into()), 12, None);
    assert_eq!(payload.providers.len(), 5);
    assert_eq!(payload.providers[4].label, "QQ Music");
    assert_eq!(payload.data_dir, "C:/Hakuro");
    assert_eq!(payload.stored_tracks, 12);
    assert_eq!(payload.storage_warning, "");
    let payload = config(Settings::default(), Err("no folder".into()), 0, Some("W"));
    assert_eq!(payload.data_dir, "no folder");
    assert_eq!(payload.storage_warning, "W");
}
