use hakuro::player::PlayerKind;
use hakuro::smtc::{
    age_ticks, art_uri, control_result, is_art_size, is_spotify, pick_session, position_now,
    seek_ticks, split_artists, ticks_at, ticks_to_ms, Answer, Look, Pick, Sample, Status, Watch,
};

#[test]
fn a_playing_track_advances_from_an_anchor_windows_never_refreshes() {
    // A browser sets the position once and leaves it there, so four seconds
    // later the song is four seconds further along.
    assert_eq!(position_now(10_000, 4_000, 0, 200_000, true), 14_000);
}

#[test]
fn a_paused_track_sits_where_the_anchor_says() {
    // Pausing refreshes the anchor, so no time is added on top of it.
    assert_eq!(position_now(12_788, 4_000, 0, 200_000, false), 12_788);
}

#[test]
fn the_position_never_runs_past_the_end_of_the_song() {
    assert_eq!(position_now(190_000, 60_000, 0, 200_000, true), 200_000);
}

#[test]
fn a_timeline_that_does_not_start_at_zero_still_reports_from_the_start() {
    assert_eq!(position_now(35_000, 0, 30_000, 100_000, false), 5_000);
}

#[test]
fn an_unknown_length_does_not_clamp_the_position_to_nothing() {
    assert_eq!(position_now(9_000, 1_000, 0, 0, true), 10_000);
}

#[test]
fn one_artist_stays_one_name() {
    assert_eq!(split_artists("Jess Lee"), vec!["Jess Lee".to_string()]);
}

#[test]
fn several_artists_are_offered_whole_and_in_parts() {
    // A lyrics source may store either form, and only one has to match.
    assert_eq!(
        split_artists("Aimer, Jess Lee"),
        vec![
            "Aimer, Jess Lee".to_string(),
            "Aimer".to_string(),
            "Jess Lee".to_string()
        ]
    );
}

#[test]
fn an_ampersand_is_left_alone_because_names_contain_it() {
    assert_eq!(
        split_artists("Simon & Garfunkel"),
        vec!["Simon & Garfunkel".to_string()]
    );
}

#[test]
fn no_artist_yields_no_names() {
    assert!(split_artists("   ").is_empty());
}

#[test]
fn a_spotify_session_is_recognised_whatever_its_casing() {
    assert!(is_spotify("Spotify.exe"));
    assert!(is_spotify("SpotifyAB.SpotifyMusic_zpdnekdrzrea0!Spotify"));
    assert!(!is_spotify("Vivaldi"));
    assert!(!is_spotify(""));
}

fn sample(title: &str, album: &str, status: Status) -> Sample {
    Sample {
        title: title.into(),
        artist: "Aimer\u{3001}Jess Lee".into(),
        album: album.into(),
        art: None,
        status,
        anchor_ticks: 350_000_000,
        anchor_age_ticks: 40_000_000,
        start_ticks: 300_000_000,
        end_ticks: 1_300_000_000,
        can_next: true,
        can_previous: false,
        can_seek: true,
        app: "Vivaldi".into(),
    }
}

#[test]
fn a_new_song_is_looked_at_twice_and_then_once() {
    let mut watch = Watch::new();
    let Look::Again(first) = watch.look(Some(sample("Title", "", Status::Playing))) else {
        panic!("a new song is waited out")
    };
    let playback = watch.settle(first, Some(sample("Title", "Album", Status::Playing)));
    assert_eq!(playback.album, "Album");
    assert_eq!(playback.name, "Title");
    assert_eq!(playback.artists, vec!["Aimer\u{3001}Jess Lee", "Aimer", "Jess Lee"]);
    assert_eq!(playback.duration_ms, 100_000);
    assert_eq!(playback.progress_ms, Some(9_000));
    assert!(playback.is_playing && playback.has_track && playback.can_skip_next);
    assert_eq!(playback.device_name.as_deref(), Some("Vivaldi"));
    assert_eq!(playback.source, PlayerKind::Ytmusic);
    assert_eq!(playback.track_id, "");

    let Look::Playback(playback) = watch.look(Some(sample("Title", "Album", Status::Paused)))
    else {
        panic!("a known song is reported at once")
    };
    assert_eq!(playback.progress_ms, Some(5_000));
    assert!(!playback.is_playing);
}

#[test]
fn a_song_that_was_skipped_meanwhile_is_not_taken() {
    let mut watch = Watch::new();
    let Look::Again(first) = watch.look(Some(sample("One", "", Status::Playing))) else {
        panic!("a new song is waited out")
    };
    let playback = watch.settle(first, Some(sample("Two", "Album", Status::Playing)));
    assert_eq!(playback.name, "One");
    assert_eq!(watch.title, "One");
}

#[test]
fn a_stopped_or_missing_session_shows_no_track() {
    let mut watch = Watch::new();
    watch.title = "Title".into();
    let Look::Playback(playback) = watch.look(Some(sample("Title", "", Status::Stopped))) else {
        panic!("nothing to wait for")
    };
    assert!(!playback.has_track);
    let Look::Playback(playback) = watch.look(None) else {
        panic!("nothing to wait for")
    };
    assert!(!playback.has_track);
    assert_eq!(playback.source, PlayerKind::Ytmusic);
    assert_eq!(watch.title, "");
}

#[test]
fn the_current_session_is_followed_unless_it_is_spotify() {
    let listed = ["Spotify.exe".to_string(), "Vivaldi".to_string()];
    assert_eq!(pick_session(Some("Chrome"), &listed), Pick::Current);
    assert_eq!(pick_session(Some("Spotify.exe"), &listed), Pick::Listed(1));
    assert_eq!(pick_session(None, &listed[..1]), Pick::Nothing);
}

#[test]
fn artwork_is_written_out_as_an_address() {
    assert_eq!(art_uri(Some("image/png"), b"abc"), "data:image/png;base64,YWJj");
    assert_eq!(art_uri(Some("text/html"), b"a"), "data:image/jpeg;base64,YQ==");
    assert_eq!(art_uri(None, b""), "data:image/jpeg;base64,");
    assert!(!is_art_size(0));
    assert!(is_art_size(4 * 1024 * 1024));
    assert!(!is_art_size(4 * 1024 * 1024 + 1));
}

#[test]
fn ticks_are_counted_from_1601() {
    assert_eq!(ticks_at(0, 0), 116_444_736_000_000_000);
    assert_eq!(ticks_at(1, 250), 116_444_736_010_000_002);
    assert_eq!(age_ticks(10, 4), 6);
    assert_eq!(ticks_to_ms(19_999), 1);
    assert_eq!(ticks_to_ms(-19_999), -1);
    assert_eq!(ticks_to_ms(i64::MIN), i64::MIN / 10_000);
    assert_eq!(seek_ticks(5_000, 300_000_000), 350_000_000);
}

#[test]
fn ticks_out_of_range_go_on_at_the_other_end() {
    assert_eq!(age_ticks(i64::MIN, 1), i64::MAX);
    assert_eq!(age_ticks(i64::MAX, -1), i64::MIN);
    assert_eq!(seek_ticks(i64::MAX, 0), -10_000);
    assert_eq!(seek_ticks(i64::MAX, 10_000), i64::MIN.wrapping_mul(10_000));
    assert_eq!(ticks_at(u64::MAX, 0), 116_444_735_990_000_000);
}

#[test]
fn a_control_is_answered_in_words() {
    assert!(control_result(Answer::Accepted).is_ok());
    let words = |answer| control_result(answer).unwrap_err().message();
    assert_eq!(words(Answer::NoSession), "Nothing is playing.");
    assert_eq!(words(Answer::Declined), "The player did not accept that.");
    assert_eq!(
        words(Answer::Silent),
        "The system media session is not answering."
    );
}
