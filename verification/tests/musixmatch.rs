use hakuro::http::{Fault, Reply};
use hakuro::json::{parse_text, Json};
use hakuro::lrc::Cue;
use hakuro::musixmatch::{
    fetch, go_on, identity_matches, inner_status, is_degenerate, mint_token, read_reply,
    subtitle_cues, Identity, Session, Stage, Turn, MINT_COOLDOWN, TOKEN_TTL,
};
use hakuro::providers::{ProviderError, TrackQuery};

fn answered(status: u16, body: &str) -> Reply {
    Reply::Answered {
        status,
        body: Ok(body.as_bytes().to_vec()),
    }
}

fn query() -> TrackQuery {
    TrackQuery {
        track: "A Song".into(),
        artists: vec!["Singer".into()],
        album: "Album".into(),
        duration_ms: 180_499,
        spotify_id: Some("22id".into()),
    }
}

const TOKEN: &str = r#"{"message":{"header":{"status_code":200},"body":{"user_token":"abc"}}}"#;

#[test]
fn decoy_tokens_are_rejected() {
    assert!(is_degenerate(""));
    // The all-zero token the retired desktop identity now hands out.
    assert!(is_degenerate(&"0".repeat(56)));
    assert!(is_degenerate("UpgradeRequired"));
    assert!(!is_degenerate(
        "2203269256ff7abcb649269df00e14c833dbf4ddfb5b36a1aae8b0"
    ));
}

#[test]
fn subtitle_body_is_read_as_lrc_or_as_cue_json() {
    let lrc = subtitle_cues("[00:01.00]LINE_A\n[00:02.00]LINE_B").unwrap();
    assert_eq!(
        lrc[0],
        Cue {
            time_ms: 1000,
            text: "LINE_A".into()
        }
    );

    let json = subtitle_cues(r#"[{"text":"LINE_A","time":{"total":1.0}}]"#).unwrap();
    assert_eq!(
        json[0],
        Cue {
            time_ms: 1000,
            text: "LINE_A".into()
        }
    );
}

#[test]
fn empty_and_untimed_bodies_are_not_treated_as_a_timeline() {
    assert!(subtitle_cues("").is_none());
    assert!(subtitle_cues("LINE_A\nLINE_B").is_none());
    assert!(subtitle_cues("[00:01.00]\n[00:02.00]").is_none());
}

#[test]
fn inner_envelope_status_is_read_not_the_transport_status() {
    let data = parse_text(r#"{"message":{"header":{"status_code":401}}}"#).unwrap();
    assert_eq!(inner_status(&data), Some(401));
    assert_eq!(inner_status(&Json::Null), None);
}

#[test]
fn identity_block_rejects_a_different_recording() {
    let macro_calls = parse_text(
        r#"{"matcher.track.get":{"message":{"body":{"track":{"track_name":"Other Song","artist_name":"Singer","track_length":180}}}}}"#,
    )
    .unwrap();
    let query = TrackQuery {
        track: "A Song".into(),
        artists: vec!["Singer".into()],
        album: "Album".into(),
        duration_ms: 180_000,
        spotify_id: None,
    };
    assert!(!identity_matches(Some(&macro_calls), &query));
    // With no identity block the query we sent is trusted.
    assert!(identity_matches(Some(&Json::Null), &query));
}

#[test]
fn a_token_is_asked_for_under_both_identities_and_then_waited_for() {
    let mut session = Session::new();
    let Turn::Ask(stage, request) = fetch(&session, &query(), 5) else {
        panic!("a token is asked for")
    };
    assert_eq!(stage, Stage::Minting(Identity::Android));
    assert_eq!(request.url, "https://apic.musixmatch.com/ws/1.1/token.get");
    assert_eq!(
        request.query[0],
        ("app_id".to_string(), "android-player-v1.0".to_string())
    );

    let refused = answered(200, r#"{"message":{"header":{"status_code":401}}}"#);
    let Turn::Ask(stage, request) = go_on(&mut session, stage, &query(), &refused, 6) else {
        panic!("the other identity is tried")
    };
    assert_eq!(stage, Stage::Minting(Identity::Mac));
    assert_eq!(request.query[0].1, "mac-ios-v2.0");

    let turn = go_on(&mut session, stage, &query(), &answered(500, ""), 7);
    assert!(matches!(turn, Turn::Done(Err(ProviderError::Http))));
    assert_eq!(session.refused_at, Some(7));

    let turn = fetch(&session, &query(), 7 + MINT_COOLDOWN - 1);
    assert!(matches!(turn, Turn::Done(Err(ProviderError::Rejected))));
    let turn = fetch(&session, &query(), 7 + MINT_COOLDOWN);
    assert!(matches!(turn, Turn::Ask(Stage::Minting(_), _)));
}

#[test]
fn a_token_is_used_until_it_is_old_or_refused() {
    let mut session = Session::new();
    let stage = Stage::Minting(Identity::Android);
    let turn = go_on(&mut session, stage, &query(), &answered(200, TOKEN), 100);
    let Turn::Ask(Stage::Asking, request) = turn else {
        panic!("the song is asked for")
    };
    assert_eq!(
        request.url,
        "https://apic.musixmatch.com/ws/1.1/macro.subtitles.get"
    );
    let value = |name: &str| {
        request
            .query
            .iter()
            .find(|(key, _)| key == name)
            .map(|(_, value)| value.clone())
    };
    assert_eq!(value("usertoken").unwrap(), "abc");
    assert_eq!(value("q_duration").unwrap(), "180");
    assert_eq!(value("track_spotify_id").unwrap(), "22id");

    let turn = fetch(&session, &query(), 100 + TOKEN_TTL - 1);
    assert!(matches!(turn, Turn::Ask(Stage::Asking, _)));
    let turn = fetch(&session, &query(), 100 + TOKEN_TTL);
    assert!(matches!(turn, Turn::Ask(Stage::Minting(_), _)));

    let turn = go_on(&mut session, Stage::Asking, &query(), &answered(403, ""), 101);
    assert!(matches!(turn, Turn::Done(Err(ProviderError::Rejected))));
    assert!(session.cached.is_none());
}

#[test]
fn a_decoy_in_a_reply_is_no_token() {
    let decoy = answered(
        200,
        r#"{"message":{"header":{"status_code":200},"body":{"user_token":"0000"}}}"#,
    );
    assert_eq!(mint_token(&decoy).err(), Some(ProviderError::Rejected));
    assert_eq!(mint_token(&answered(200, TOKEN)).unwrap(), "abc");
    assert_eq!(
        mint_token(&answered(200, "no json")).err(),
        Some(ProviderError::BadJson)
    );
    let late = Reply::Failed(Fault {
        timeout: true,
        decode: false,
    });
    assert_eq!(mint_token(&late).err(), Some(ProviderError::Timeout));
}

#[test]
fn an_answer_gives_subtitles_before_plain_words() {
    let calls = |subtitles: &str, plain: &str| {
        answered(
            200,
            &format!(
                r#"{{"message":{{"header":{{"status_code":200}},"body":{{"macro_calls":{{"track.subtitles.get":{{"message":{{"body":{{"subtitle_list":[{{"subtitle":{{"subtitle_body":"{subtitles}"}}}}]}}}}}},"track.lyrics.get":{{"message":{{"body":{{"lyrics":{{"lyrics_body":"{plain}"}}}}}}}}}}}}}}}}"#
            ),
        )
    };
    let (result, stale) = read_reply(&query(), &calls("[00:01]LINE_A", "WORDS"));
    let result = result.unwrap();
    assert!(!stale);
    assert_eq!(result.source, "Musixmatch");
    assert_eq!(result.text, "LINE_A");
    assert_eq!(result.cues.len(), 1);

    let (result, _) = read_reply(&query(), &calls("", "WORDS"));
    let result = result.unwrap();
    assert_eq!(result.text, "WORDS");
    assert!(result.cues.is_empty());

    let (result, _) = read_reply(&query(), &calls("", "  "));
    assert!(result.unwrap().is_empty());

    let (result, stale) = read_reply(
        &query(),
        &answered(200, r#"{"message":{"header":{"status_code":401}}}"#),
    );
    assert_eq!(result.err(), Some(ProviderError::Rejected));
    assert!(stale);
}
