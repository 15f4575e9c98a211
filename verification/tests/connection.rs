use hakuro::connection::{
    authorizing_status, connecting_status, connection_notice, failed_status, plan_connection,
    spotify_connected, ytmusic_connected, Connect, Event, Next, SignIn,
};
use hakuro::http::{Fault, Reply};
use hakuro::player::PlayerKind;
use hakuro::session::Session;
use hakuro::settings::Settings;
use hakuro::spotify::{Spotify, SpotifyError};

fn answered(status: u16, body: &str) -> Event {
    Event::Reply(Reply::Answered {
        status,
        body: Ok(body.as_bytes().to_vec()),
    })
}

#[test]
fn a_stored_session_resumes_silently() {
    let mut sign_in = SignIn::new("id".into());
    let Next::Send(request) = sign_in.advance(Event::Token(Some("stored".into()))) else {
        panic!("the token is refreshed")
    };
    assert_eq!(request.form[1].1, "stored");
    let next = sign_in.advance(answered(200, r#"{"access_token":"a","refresh_token":"b"}"#));
    let Next::Store(token) = next else {
        panic!("the rotated token is stored")
    };
    assert_eq!(token, "b");
    assert!(matches!(sign_in.advance(Event::Stored(true)), Next::Ready));
    assert_eq!(sign_in.account.access_token, "a");
}

#[test]
fn a_first_run_goes_through_the_browser() {
    let mut sign_in = SignIn::new("id".into());
    let next = sign_in.advance(Event::Token(None));
    assert!(matches!(
        next,
        Next::Authorize {
            clear_stored: false
        }
    ));
    let page = sign_in.authorize();
    let Next::AwaitCallback { state } = sign_in.advance(Event::Opened(true)) else {
        panic!("the callback is waited for")
    };
    assert!(page.ends_with(&format!("&state={state}")));
    let Next::Send(request) = sign_in.advance(Event::Callback(Ok("code".into()))) else {
        panic!("the code is traded")
    };
    assert_eq!(request.form[1].1, "code");
    assert!((43..=128).contains(&request.form[4].1.len()));
    let next = sign_in.advance(answered(200, r#"{"access_token":"a"}"#));
    assert!(matches!(next, Next::Ready));
}

#[test]
fn only_a_refusal_clears_the_stored_session() {
    let start = || {
        let mut sign_in = SignIn::new("id".into());
        sign_in.advance(Event::Token(Some("stored".into())));
        sign_in
    };
    let mut sign_in = start();
    assert!(matches!(
        sign_in.advance(answered(400, "")),
        Next::Authorize { clear_stored: true }
    ));
    assert!(sign_in.account.refresh_token.is_none());

    let mut sign_in = start();
    let blip = Event::Reply(Reply::Failed(Fault {
        timeout: true,
        decode: false,
    }));
    let Next::Failed(error) = sign_in.advance(blip) else {
        panic!("the connection fails")
    };
    assert_eq!(error, "Spotify did not respond in time");
    assert_eq!(sign_in.account.refresh_token.as_deref(), Some("stored"));

    // A token from before playback control was asked for is upgraded in the browser.
    let mut sign_in = start();
    let next = sign_in.advance(answered(200, r#"{"scope":"user-read-playback-state"}"#));
    assert!(matches!(
        next,
        Next::Authorize {
            clear_stored: false
        }
    ));
}

#[test]
fn a_sign_in_fails_in_words() {
    let mut sign_in = SignIn::new("id".into());
    sign_in.advance(Event::Token(None));
    sign_in.authorize();
    let Next::Failed(error) = sign_in.advance(Event::Opened(false)) else {
        panic!("no browser")
    };
    assert_eq!(error, "Cannot open the browser for Spotify authorization.");

    let mut sign_in = SignIn::new("id".into());
    sign_in.advance(Event::Token(None));
    sign_in.authorize();
    sign_in.advance(Event::Opened(true));
    let denied = SpotifyError::Config("Spotify returned: access_denied".into());
    let Next::Failed(error) = sign_in.advance(Event::Callback(Err(denied))) else {
        panic!("denied")
    };
    assert_eq!(error, "Spotify returned: access_denied");
    assert!(matches!(sign_in.advance(Event::Opened(true)), Next::Ignored));
}

#[test]
fn the_settings_decide_how_to_connect() {
    let mut session = Session::new();
    let mut settings = Settings::default();
    let Connect::NeedsClientId(event) = plan_connection(&session, &settings) else {
        panic!("no Client ID")
    };
    assert_eq!(event.state, "needs-client-id");
    assert_eq!(event.notice, "Enter your Spotify Client ID in Settings.");
    settings.client_id = " abc ".into();
    let Connect::Spotify(id) = plan_connection(&session, &settings) else {
        panic!("Spotify")
    };
    assert_eq!(id, "abc");
    settings.player = PlayerKind::Ytmusic;
    assert!(matches!(plan_connection(&session, &settings), Connect::Ytmusic));
    session.connected(1);
    assert!(matches!(plan_connection(&session, &settings), Connect::Already));
}

#[test]
fn a_connection_is_refused_if_the_settings_changed_meanwhile() {
    let mut session = Session::new();
    let mut settings = Settings::default();
    let account = Spotify::new("abc".into());
    assert_eq!(
        spotify_connected(&mut session, &settings, &account, None, 4).unwrap_err(),
        "Client ID changed during authorization. Connect again."
    );
    assert_eq!(session.player, None);
    settings.client_id = "abc".into();
    let event = spotify_connected(&mut session, &settings, &account, Some("W"), 4).unwrap();
    assert_eq!((event.state, event.notice.as_str()), ("connected", "W"));
    assert_eq!(session.player, Some(4));
    assert_eq!(
        ytmusic_connected(&mut session, &settings, None, 5).unwrap_err(),
        "The player changed while connecting. Connect again."
    );
    settings.player = PlayerKind::Ytmusic;
    let event = ytmusic_connected(&mut session, &settings, None, 5).unwrap();
    assert_eq!(event.notice, "");
    assert_eq!(session.player, Some(5));
}

#[test]
fn warnings_are_said_together() {
    assert_eq!(connection_notice("", None), "");
    assert_eq!(connection_notice("a", None), "a");
    assert_eq!(connection_notice("", Some("b")), "b");
    assert_eq!(connection_notice("a", Some("b")), "a b");
    assert_eq!(
        connecting_status(PlayerKind::Ytmusic).message,
        "Connecting to YouTube Music…"
    );
    assert_eq!(
        authorizing_status().message,
        "Waiting for Spotify authorization in your browser…"
    );
    assert_eq!(failed_status("why").notice, "why");
}
