use hakuro::codec::base64_url;
use hakuro::http::{Fault, Method, Reply};
use hakuro::json::parse_text;
use hakuro::player::{Control, PlayerError, PlayerKind};
use hakuro::spotify::{
    pkce_pair, playback, post_token, read_call, read_request_target, respond, sign_in_wait,
    wait_for_callback, CallNext, CallStage, Called, Purpose, Spotify, SpotifyError, AUTHORIZE_URL,
    AUTH_TIMEOUT_SECONDS,
};
use sha2::Digest;

fn answered(status: u16, body: &str) -> Reply {
    Reply::Answered {
        status,
        body: Ok(body.as_bytes().to_vec()),
    }
}

fn account() -> Spotify {
    let mut account = Spotify::new("dummyclientid".into());
    account.access_token = "old".into();
    account.refresh_token = Some("refresh".into());
    account
}

fn pair(name: &str, value: &str) -> (String, String) {
    (name.to_string(), value.to_string())
}

#[test]
fn pkce_challenge_is_the_sha256_of_the_verifier() {
    let (verifier, challenge) = pkce_pair();
    // RFC 7636 requires 43..128 characters for the verifier.
    assert!(verifier.len() >= 43 && verifier.len() <= 128);
    assert_eq!(
        challenge,
        base64_url(&sha2::Sha256::digest(verifier.as_bytes()))
    );
    assert!(!challenge.contains('=') && !challenge.contains('+') && !challenge.contains('/'));
}

#[test]
fn every_authorization_request_is_unique() {
    let spotify = Spotify::new("dummyclientid".into());
    let (first_url, first_verifier, first_state) = spotify.authorization_request();
    let (_, second_verifier, second_state) = spotify.authorization_request();
    assert_ne!(first_verifier, second_verifier);
    assert_ne!(first_state, second_state);
    assert!(first_url.starts_with(AUTHORIZE_URL));
    assert!(first_url.contains("code_challenge_method=S256"));
    // The loopback literal, not "localhost", which Spotify no longer accepts.
    assert!(first_url.contains("127.0.0.1%3A8787%2Fcallback"));
    assert!(first_url.contains("user-modify-playback-state"));
    assert!(first_url.contains(&format!("state={first_state}")));
}

#[test]
fn the_authorization_page_is_written_out() {
    let spotify = Spotify::new("id".into());
    assert_eq!(
        spotify.authorization_url("ch", "st"),
        "https://accounts.spotify.com/authorize?client_id=id&response_type=code&redirect_uri=http%3A%2F%2F127.0.0.1%3A8787%2Fcallback&code_challenge_method=S256&code_challenge=ch&scope=user-read-currently-playing%20user-read-playback-state%20user-modify-playback-state&state=st"
    );
}

#[test]
fn tokens_are_traded_and_taken() {
    let mut spotify = account();
    let request = spotify.refresh_request().unwrap();
    assert_eq!(request.url, "https://accounts.spotify.com/api/token");
    assert_eq!(
        request.form,
        vec![
            pair("grant_type", "refresh_token"),
            pair("refresh_token", "refresh"),
            pair("client_id", "dummyclientid"),
        ]
    );
    let to_store = spotify
        .take_tokens(&answered(
            200,
            r#"{"access_token":"new","refresh_token":"next","scope":"a user-modify-playback-state"}"#,
        ))
        .unwrap();
    assert_eq!(to_store.as_deref(), Some("next"));
    assert_eq!(spotify.access_token, "new");
    assert_eq!(spotify.refresh_token.as_deref(), Some("next"));
    assert!(spotify.has_control_scope());

    // What is not named stays as it was.
    let to_store = spotify.take_tokens(&answered(200, "{}")).unwrap();
    assert_eq!(to_store, None);
    assert_eq!(spotify.access_token, "new");
    assert!(spotify.has_control_scope());

    spotify.granted_scopes = Some("user-read-playback-state".into());
    assert!(!spotify.has_control_scope());
    spotify.granted_scopes = None;
    assert!(spotify.has_control_scope());

    spotify.stored(false);
    assert_eq!(
        spotify.cache_warning(),
        "The sign-in could not be saved; you may need to authorize again next time."
    );
    spotify.stored(true);
    assert_eq!(spotify.cache_warning(), "");
}

#[test]
fn only_a_refusal_is_a_finished_session() {
    let error = |reply: Reply| post_token(&reply).unwrap_err();
    assert!(matches!(
        error(answered(400, "")),
        SpotifyError::LoginRequired
    ));
    assert!(matches!(
        error(answered(503, r#"{"error":"invalid_grant"}"#)),
        SpotifyError::LoginRequired
    ));
    assert_eq!(
        error(answered(503, "")).message(),
        "Spotify refused the sign-in (503)"
    );
    let failed = |timeout| {
        Reply::Failed(Fault {
            timeout,
            decode: false,
        })
    };
    assert_eq!(
        error(failed(true)).message(),
        "Spotify did not respond in time"
    );
    assert_eq!(error(failed(false)).message(), "Spotify is unreachable");
    let mut spotify = Spotify::new("x".into());
    assert!(matches!(
        spotify.refresh_request(),
        Err(SpotifyError::LoginRequired)
    ));
    assert!(spotify.take_tokens(&answered(400, "")).is_err());
}

#[test]
fn errors_are_shared_with_both_players() {
    let shared = PlayerError::from(SpotifyError::Refused {
        status: 403,
        message: "Premium required".into(),
    });
    assert_eq!(shared.message(), "Premium required");
    assert!(matches!(
        PlayerError::from(SpotifyError::LoginRequired),
        PlayerError::NeedsAuth
    ));
    assert!(matches!(
        PlayerError::from(SpotifyError::RateLimited { retry_after: 7 }),
        PlayerError::RateLimited { retry_after: 7 }
    ));
    assert_eq!(
        PlayerError::from(SpotifyError::Config("c".into())).message(),
        "c"
    );
    assert_eq!(
        PlayerError::from(SpotifyError::Network("n".into())).message(),
        "n"
    );
    assert_eq!(
        SpotifyError::LoginRequired.message(),
        "Spotify authorization is required"
    );
    assert_eq!(
        SpotifyError::RateLimited { retry_after: 1 }.message(),
        "Spotify rate limit"
    );
}

#[test]
fn an_expired_token_is_refreshed_once() {
    let mut spotify = account();
    let request = spotify.start_call(Purpose::Playback);
    assert_eq!(request.url, "https://api.spotify.com/v1/me/player");
    assert_eq!(request.headers[0], pair("Authorization", "Bearer old"));
    assert_eq!(request.headers[1], pair("Content-Length", "0"));

    let next = spotify.continue_call(
        Purpose::Playback,
        CallStage::First,
        &answered(401, ""),
        None,
    );
    let CallNext::Send { stage, request, .. } = next else {
        panic!("the token is refreshed")
    };
    assert_eq!(stage, CallStage::Refreshing);
    assert_eq!(request.url, "https://accounts.spotify.com/api/token");

    let tokens = answered(200, r#"{"access_token":"new","refresh_token":"r2"}"#);
    let next = spotify.continue_call(Purpose::Playback, stage, &tokens, None);
    let CallNext::Send {
        stage,
        to_store,
        request,
    } = next
    else {
        panic!("the call is made once more")
    };
    assert_eq!(to_store.as_deref(), Some("r2"));
    assert_eq!(request.headers[0], pair("Authorization", "Bearer new"));

    let refused = answered(401, r#"{"error":{"message":"No"}}"#);
    let next = spotify.continue_call(Purpose::Playback, stage, &refused, None);
    let CallNext::Done(Err(SpotifyError::Refused { status, message })) = next else {
        panic!("the second refusal counts")
    };
    assert_eq!((status, message.as_str()), (401, "No"));
}

#[test]
fn replies_to_a_call_are_told_apart() {
    let read = |status, body, retry| read_call(&answered(status, body), retry, true);
    assert!(matches!(
        read(429, "", Some("7")),
        Called::Done(Err(SpotifyError::RateLimited { retry_after: 7 }))
    ));
    assert!(matches!(
        read(429, "", Some("soon")),
        Called::Done(Err(SpotifyError::RateLimited { retry_after: 10 }))
    ));
    assert!(matches!(
        read(429, "", None),
        Called::Done(Err(SpotifyError::RateLimited { retry_after: 10 }))
    ));
    assert!(matches!(read(204, "{}", None), Called::Done(Ok(None))));
    assert!(matches!(read(200, "", None), Called::Done(Ok(None))));
    assert!(matches!(read(200, "{}", None), Called::Done(Ok(Some(_)))));
    assert!(matches!(read(200, "no json", None), Called::Done(Ok(None))));
    let Called::Done(Err(error)) = read(403, "no json", None) else {
        panic!("refused")
    };
    assert_eq!(error.message(), "Spotify rejected the request");
}

#[test]
fn transport_actions_go_to_their_addresses() {
    let spotify = account();
    let asks = |control| {
        let request = spotify.start_call(Purpose::Control(control));
        (request.method, request.url, request.query)
    };
    let base = "https://api.spotify.com/v1/me/player";
    assert_eq!(asks(Control::Play), (Method::Put, format!("{base}/play"), vec![]));
    assert_eq!(asks(Control::Pause), (Method::Put, format!("{base}/pause"), vec![]));
    assert_eq!(asks(Control::Next), (Method::Post, format!("{base}/next"), vec![]));
    assert_eq!(
        asks(Control::Previous),
        (Method::Post, format!("{base}/previous"), vec![])
    );
    assert_eq!(
        asks(Control::Seek(1500)),
        (Method::Put, format!("{base}/seek"), vec![pair("position_ms", "1500")])
    );
    assert_eq!(asks(Control::Seek(-3)).2, vec![pair("position_ms", "0")]);
}

#[test]
fn the_player_state_becomes_a_sample() {
    let data = parse_text(
        r#"{"is_playing":true,"progress_ms":1000,"device":{"name":"Desk"},
            "actions":{"disallows":{"skipping_prev":true,"seeking":false}},
            "item":{"type":"track","id":"id","name":"Title","duration_ms":180000,
                    "artists":[{"name":"A"},{},{"name":"B"}],
                    "album":{"name":"Album","images":[{"url":"wide"},{"url":"small"}]}}}"#,
    )
    .unwrap();
    let sample = playback(Some(&data));
    assert_eq!(sample.track_id, "id");
    assert_eq!(sample.name, "Title");
    assert_eq!(sample.artists, vec!["A", "B"]);
    assert_eq!(sample.album, "Album");
    assert_eq!(sample.album_art.as_deref(), Some("wide"));
    assert_eq!(sample.duration_ms, 180_000);
    assert_eq!(sample.progress_ms, Some(1000));
    assert_eq!(sample.device_name.as_deref(), Some("Desk"));
    assert!(sample.is_playing && sample.has_track);
    assert!(sample.can_skip_next && !sample.can_skip_previous && sample.can_seek);
    assert_eq!(sample.source, PlayerKind::Spotify);
}

#[test]
fn what_is_no_track_is_nothing_playing() {
    assert!(!playback(None).has_track);
    let none = |text: &str| playback(Some(&parse_text(text).unwrap())).has_track;
    assert!(!none("{}"));
    assert!(!none(r#"{"item":null}"#));
    assert!(!none(r#"{"item":{"type":"episode"}}"#));
    assert!(none(r#"{"item":{}}"#));
}

#[test]
fn the_right_callback_signs_in() {
    let line = "GET /callback?code=a%2Fb%20c&state=xyz HTTP/1.1\r\n";
    assert_eq!(
        read_request_target(line).as_deref(),
        Some("/callback?code=a%2Fb%20c&state=xyz")
    );
    let callback = wait_for_callback("xyz", Some(line));
    assert_eq!(callback.shown, "Signed in. You can close this tab.");
    assert_eq!(callback.end.unwrap().unwrap(), "a/b c");
    // The last of two counts, and the order does not.
    let line = "GET /callback?state=no&code=1&state=xyz&code=2 HTTP/1.1\r\n";
    assert_eq!(
        wait_for_callback("xyz", Some(line)).end.unwrap().unwrap(),
        "2"
    );
}

#[test]
fn a_percent_encoded_callback_signs_in_whatever_it_says() {
    for (state, code) in [("xyz", "a/b c"), ("\u{17f}+=&?", "\u{30d7}\u{30c1}%41%"), ("", "~-._")] {
        let line = format!(
            "GET /callback?code={}&state={} HTTP/1.1\r\n",
            urlencoding::encode(code),
            urlencoding::encode(state)
        );
        let callback = wait_for_callback(state, Some(&line));
        assert_eq!(callback.end.unwrap().unwrap(), code);
    }
}

#[test]
fn a_stray_percent_sign_stays() {
    let code = |escaped: &str| {
        let line = format!("GET /callback?code={escaped}&state=xyz HTTP/1.1\r\n");
        wait_for_callback("xyz", Some(&line)).end.unwrap().unwrap()
    };
    assert_eq!(code("%"), "%");
    assert_eq!(code("%4"), "%4");
    assert_eq!(code("%zz"), "%zz");
    assert_eq!(code("%4z%41"), "%4zA");
    assert_eq!(code("%%41"), "%A");
    assert_eq!(code("%c3%A9+"), "\u{e9}+");
}

#[test]
fn nobody_is_waited_for_longer_than_five_minutes() {
    assert_eq!(AUTH_TIMEOUT_SECONDS, 300);
    assert_eq!(sign_in_wait(0).unwrap(), 300_000);
    assert_eq!(sign_in_wait(299_999).unwrap(), 1);
    for elapsed in [300_000, 300_001, u64::MAX] {
        match sign_in_wait(elapsed).unwrap_err() {
            SpotifyError::Network(message) => assert_eq!(message, "Sign-in timed out"),
            other => panic!("{other:?}"),
        }
    }
}

#[test]
fn other_callbacks_do_not_sign_in() {
    let shown = |line: Option<&str>| {
        let callback = wait_for_callback("xyz", line);
        assert!(callback.end.is_none());
        callback.shown
    };
    let failed = "Sign-in failed. You can close this tab.";
    assert_eq!(shown(None), failed);
    assert_eq!(shown(Some("GET")), failed);
    assert_eq!(shown(Some("GET /callback HTTP/1.1")), failed);
    assert_eq!(shown(Some("GET /other?code=1&state=xyz HTTP/1.1")), "Not found.");
    assert_eq!(shown(Some("GET /callback?code=1&state=abc HTTP/1.1")), failed);
    assert_eq!(shown(Some("GET /callback?code=1 HTTP/1.1")), failed);
    assert_eq!(shown(Some("GET /callback?state=xyz HTTP/1.1")), failed);
    let cancelled = wait_for_callback(
        "xyz",
        Some("GET /callback?error=access_denied&state=xyz HTTP/1.1"),
    );
    assert_eq!(
        cancelled.shown,
        "Sign-in was cancelled. You can close this tab."
    );
    assert_eq!(
        cancelled.end.unwrap().unwrap_err().message(),
        "Spotify returned: access_denied"
    );
}

#[test]
fn the_browser_is_sent_a_page_of_the_length_it_says() {
    let response = respond("Signed in – done.");
    let (head, body) = response.split_once("\r\n\r\n").unwrap();
    assert!(head.starts_with("HTTP/1.1 200 OK\r\n"));
    assert!(head.contains(&format!("Content-Length: {}\r\n", body.len())));
    assert!(body.contains("<p>Signed in – done.</p>"));
    assert!(body.contains("body{background:#121212;"));
}
