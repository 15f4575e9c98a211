use hakuro::player::{Playback, PlayerError, PlayerKind, Serials};

#[test]
fn the_two_sources_get_different_cache_prefixes() {
    assert_ne!(
        PlayerKind::Spotify.prefix(),
        PlayerKind::Ytmusic.prefix(),
        "a shared prefix would let one source read the other's cached lyrics"
    );
}

#[test]
fn only_spotify_asks_for_a_client_id() {
    assert!(PlayerKind::Spotify.needs_client_id());
    assert!(!PlayerKind::Ytmusic.needs_client_id());
}

#[test]
fn every_player_error_has_its_sentence() {
    assert_eq!(
        PlayerError::NeedsAuth.message(),
        "Authorization is required"
    );
    assert_eq!(PlayerError::Config("a".into()).message(), "a");
    assert_eq!(PlayerError::Network("b".into()).message(), "b");
    let refused = PlayerError::Refused {
        message: "Premium required".into(),
    };
    assert_eq!(refused.message(), "Premium required");
    assert_eq!(
        PlayerError::RateLimited { retry_after: 3 }.message(),
        "Rate limited"
    );
}

#[test]
fn connections_are_numbered_apart() {
    let mut serials = Serials::new();
    assert_eq!(serials.take(), 1);
    assert_eq!(serials.take(), 2);
    // The count starts over behind the largest number.
    let mut last = Serials { next: u64::MAX };
    assert_eq!(last.take(), u64::MAX);
    assert_eq!(last.take(), 0);
}

#[test]
fn nothing_plays_by_default() {
    let playback = Playback::default();
    assert!(!playback.has_track);
    assert_eq!(playback.source, PlayerKind::Spotify);
    assert_eq!(PlayerKind::default(), PlayerKind::Spotify);
    assert_eq!(PlayerKind::Ytmusic.label(), "YouTube Music");
    assert_eq!(PlayerKind::Spotify.label(), "Spotify");
    assert_eq!(playback.copy().name, "");
}
