use base64::Engine;
use hakuro::http::{Fault, HttpRequest, Method, Reply};
use hakuro::providers::{
    fetch_lyrics, lrclib, netease, qqmusic, request_json, source_of, Chain, Lookup, LyricsResult,
    ProviderError, ProviderResult, Source, Step, TrackQuery,
};

fn query() -> TrackQuery {
    TrackQuery {
        track: "Title".into(),
        artists: vec!["First".into(), "Second".into()],
        album: "Album".into(),
        duration_ms: 180_500,
        spotify_id: None,
    }
}

fn answered(status: u16, body: &str) -> Reply {
    Reply::Answered {
        status,
        body: Ok(body.as_bytes().to_vec()),
    }
}

fn asked(step: Step) -> HttpRequest {
    match step {
        Step::Ask(request) => request,
        Step::Done(result) => panic!("no request: {result:?}"),
    }
}

fn done(step: Step) -> ProviderResult {
    match step {
        Step::Ask(request) => panic!("a request: {request:?}"),
        Step::Done(result) => result,
    }
}

fn pair(name: &str, value: &str) -> (String, String) {
    (name.to_string(), value.to_string())
}

#[test]
fn synced_payload_wins_over_its_own_plain_text() {
    let result = LyricsResult::from_raw("[00:01]LINE_A\n[00:02]LINE_B", "test");
    assert_eq!(result.cues.len(), 2);
    assert_eq!(result.text, "LINE_A\nLINE_B");
}

#[test]
fn blank_timeline_is_treated_as_no_timeline() {
    let result = LyricsResult::from_raw("[00:01]\n[00:02]", "test");
    assert!(result.cues.is_empty());
    assert!(result.text.is_empty());
}

#[test]
fn plain_payload_keeps_its_text_and_drops_metadata_tags() {
    let result = LyricsResult::from_raw("[ar:Someone]\nLINE_A\nLINE_B", "test");
    assert!(result.cues.is_empty());
    assert_eq!(result.text, "LINE_A\nLINE_B");
}

#[test]
fn search_phrase_joins_title_and_first_artist() {
    let query = TrackQuery {
        track: "Title".into(),
        artists: vec!["First".into(), "Second".into()],
        album: "Album".into(),
        duration_ms: 180_000,
        spotify_id: None,
    };
    assert_eq!(query.search_phrase(), "Title First");
    assert_eq!(query.primary_artist(), "First");
}

#[test]
fn an_empty_result_is_empty() {
    assert!(LyricsResult::empty("LRCLIB").is_empty());
    assert_eq!(LyricsResult::empty("LRCLIB").source, "LRCLIB");
    assert!(!LyricsResult::from_raw("WORDS", "x").is_empty());
    assert_eq!(LyricsResult::default().source, "");
}

#[test]
fn html_entities_in_a_payload_are_decoded() {
    assert_eq!(LyricsResult::from_raw("a &lt;b&gt;", "x").text, "a <b>");
}

#[test]
fn lrclib_is_asked_for_the_exact_recording() {
    let request = asked(lrclib(&query(), &[]));
    assert_eq!(request.method, Method::Get);
    assert_eq!(request.url, "https://lrclib.net/api/get");
    assert_eq!(
        request.query,
        vec![
            pair("track_name", "Title"),
            pair("artist_name", "First"),
            pair("album_name", "Album"),
            pair("duration", "181"),
        ]
    );
    assert_eq!(request.headers, vec![pair("Accept", "application/json")]);
}

#[test]
fn lrclib_gives_the_timeline_before_the_words() {
    let entry = |rest: &str| {
        answered(
            200,
            &format!(r#"{{"trackName":"title","artistName":"first","duration":180.0{rest}}}"#),
        )
    };
    let read = |reply: Reply| done(lrclib(&query(), &[reply])).unwrap();
    let result = read(entry(r#","syncedLyrics":"[00:01]A","plainLyrics":"B""#));
    assert_eq!((result.text.as_str(), result.cues.len()), ("A", 1));
    let result = read(entry(r#","syncedLyrics":"","plainLyrics":"B""#));
    assert_eq!((result.text.as_str(), result.cues.len()), ("B", 0));
    let result = read(entry(r#","syncedLyrics":"C""#));
    assert_eq!(result.text, "C");
    assert_eq!(result.source, "LRCLIB");
    // Another recording is no answer.
    let other = answered(
        200,
        r#"{"trackName":"Title (Live)","artistName":"First","duration":180,"plainLyrics":"B"}"#,
    );
    assert!(read(other).is_empty());
    // No entry is no failure.
    assert!(read(answered(404, "")).is_empty());
}

#[test]
fn every_failure_of_lrclib_has_its_kind() {
    let kind = |reply: Reply| done(lrclib(&query(), &[reply])).unwrap_err();
    assert_eq!(kind(answered(500, "")), ProviderError::Http);
    assert_eq!(kind(answered(200, "no json")), ProviderError::BadJson);
    let failed = |timeout, decode| Reply::Failed(Fault { timeout, decode });
    assert_eq!(kind(failed(true, true)), ProviderError::Timeout);
    assert_eq!(kind(failed(false, true)), ProviderError::BadJson);
    assert_eq!(kind(failed(false, false)), ProviderError::Http);
    let cut = Reply::Answered {
        status: 200,
        body: Err(Fault {
            timeout: true,
            decode: false,
        }),
    };
    assert_eq!(kind(cut), ProviderError::Timeout);
}

#[test]
fn bounded_replies_are_read_past_a_byte_order_mark() {
    assert!(request_json(&answered(200, "\u{feff}{}")).is_ok());
    assert!(request_json(&answered(200, "{}")).is_ok());
    assert_eq!(
        request_json(&answered(200, "\u{feff}\u{feff}{}")).err(),
        Some(ProviderError::BadJson)
    );
    // What is no UTF-8 is replaced, not refused.
    let broken = Reply::Answered {
        status: 200,
        body: Ok(b"\"a\xff\"".to_vec()),
    };
    let json = request_json(&broken).unwrap();
    assert_eq!(hakuro::json::as_text(Some(&json)), Some("a\u{fffd}".to_string()));
    let large = |size| Reply::Answered {
        status: 500,
        body: Ok(vec![b' '; size]),
    };
    assert_eq!(
        request_json(&large(2_000_001)).err(),
        Some(ProviderError::TooLarge)
    );
    assert_eq!(
        request_json(&large(2_000_000)).err(),
        Some(ProviderError::Http)
    );
}

#[test]
fn netease_prefers_the_wanted_album() {
    let request = asked(netease(&query(), &[]));
    assert_eq!(request.method, Method::Post);
    assert_eq!(request.form[0], pair("s", "Title First"));
    assert_eq!(request.headers[1], pair("Referer", "https://music.163.com/"));

    let song = |id: i64, name: &str, album: &str| {
        format!(
            r#"{{"id":{id},"name":"{name}","artists":[{{"name":"Second"}}],"album":{{"name":"{album}"}},"duration":181000}}"#
        )
    };
    let search = |songs: &[String]| {
        answered(
            200,
            &format!(r#"{{"code":200,"result":{{"songs":[{}]}}}}"#, songs.join(",")),
        )
    };
    let list = [
        song(1, "Title", "Best Of"),
        song(2, "Other", "Album"),
        song(3, "Title", "ALBUM"),
    ];
    let request = asked(netease(&query(), &[search(&list)]));
    assert_eq!(request.url, "https://music.163.com/api/song/lyric");
    assert_eq!(request.query[0], pair("id", "3"));
    let request = asked(netease(&query(), &[search(&list[..2])]));
    assert_eq!(request.query[0], pair("id", "1"));
    assert!(done(netease(&query(), &[search(&list[1..2])])).unwrap().is_empty());

    let words = answered(200, r#"{"code":200,"lrc":{"lyric":"[00:02]X"}}"#);
    let result = done(netease(&query(), &[search(&list), words])).unwrap();
    assert_eq!((result.source.as_str(), result.cues[0].time_ms), ("NetEase", 2000));
}

#[test]
fn a_refused_search_is_rejected() {
    let refused = || answered(200, r#"{"code":-460}"#);
    assert_eq!(
        done(netease(&query(), &[refused()])).unwrap_err(),
        ProviderError::Rejected
    );
    assert_eq!(
        done(netease(&query(), &[refused(), refused()])).unwrap_err(),
        ProviderError::Rejected
    );
    assert_eq!(
        done(qqmusic(&query(), &[refused()])).unwrap_err(),
        ProviderError::Rejected
    );
    assert_eq!(
        done(qqmusic(&query(), &[refused(), refused()])).unwrap_err(),
        ProviderError::Rejected
    );
}

#[test]
fn qq_music_lyrics_come_in_base64() {
    let search = answered(
        200,
        r#"{"code":0,"data":{"song":{"list":[{"songmid":"","songname":"Title","singer":[{"name":"First"}],"albumname":"Album","interval":180},{"songmid":"m2","songname":"Title","singer":[{"name":"First"}],"albumname":"x","interval":181}]}}}"#,
    );
    let request = asked(qqmusic(&query(), &[search]));
    assert_eq!(request.query[0], pair("songmid", "m2"));
    assert_eq!(
        request.headers[1],
        pair("Referer", "https://y.qq.com/portal/player.html")
    );

    let lyric = |payload: &[u8]| {
        let encoded = base64::engine::general_purpose::STANDARD.encode(payload);
        [
            answered(200, "{}"),
            answered(200, &format!(r#"{{"code":0,"lyric":"{encoded}"}}"#)),
        ]
    };
    let result = done(qqmusic(&query(), &lyric("[00:01]歌".as_bytes()))).unwrap();
    assert_eq!(result.source, "QQ Music");
    assert_eq!(result.text, "歌");
    assert_eq!(
        done(qqmusic(&query(), &lyric(b"\xff"))).unwrap_err(),
        ProviderError::BadPayload
    );
    let broken = [
        answered(200, "{}"),
        answered(200, r#"{"code":0,"lyric":"*"}"#),
    ];
    assert_eq!(
        done(qqmusic(&query(), &broken)).unwrap_err(),
        ProviderError::BadPayload
    );
}

fn order(ids: &[&str]) -> Vec<String> {
    ids.iter().map(|id| id.to_string()).collect()
}

#[test]
fn the_first_timeline_of_the_order_wins() {
    let lyrics = fetch_lyrics(
        &order(&["lrclib", "ghost", "petitlyrics", "netease", "qqmusic"]),
        vec![
            Ok(LyricsResult::from_raw("PLAIN", "LRCLIB")),
            Err(ProviderError::Timeout),
            Ok(LyricsResult::from_raw("[00:01]SYNCED", "NetEase")),
            Ok(LyricsResult::from_raw("[00:01]LATER", "QQ Music")),
        ],
    );
    assert_eq!(lyrics.source, "NetEase");
    assert_eq!(lyrics.errors, vec!["PetitLyrics: Timeout"]);
}

#[test]
fn plain_words_are_kept_where_no_source_has_a_timeline() {
    let lyrics = fetch_lyrics(
        &order(&["lrclib", "petitlyrics", "musixmatch", "netease"]),
        vec![
            Ok(LyricsResult::empty("LRCLIB")),
            Ok(LyricsResult::from_raw("FIRST", "PetitLyrics")),
            Err(ProviderError::Rejected),
            Ok(LyricsResult::from_raw("SECOND", "NetEase")),
        ],
    );
    assert_eq!(lyrics.text, "FIRST");
    assert_eq!(lyrics.errors, vec!["Musixmatch: Rejected"]);

    let nothing = fetch_lyrics(&order(&["lrclib"]), vec![Err(ProviderError::Http)]);
    assert!(nothing.is_empty());
    assert_eq!(nothing.errors, vec!["LRCLIB: Http"]);
}

#[test]
fn a_lookup_asks_one_source_after_the_other() {
    let mut lookup = Lookup::new(&order(&["qqmusic", "lrclib"]));
    assert_eq!(lookup.next(), Some(Source::QqMusic));
    assert!(lookup.answer(Err(ProviderError::BadPayload)).is_none());
    assert_eq!(lookup.next(), Some(Source::Lrclib));
    assert!(lookup.answer(Ok(LyricsResult::empty("LRCLIB"))).is_none());
    assert_eq!(lookup.next(), None);
    assert_eq!(lookup.finish().errors, vec!["QQ Music: BadPayload"]);
}

#[test]
fn every_kind_of_failure_has_its_name() {
    let mut chain = Chain::new();
    for error in [
        ProviderError::Http,
        ProviderError::Timeout,
        ProviderError::TooLarge,
        ProviderError::BadJson,
        ProviderError::Rejected,
        ProviderError::BadPayload,
    ] {
        assert!(chain.consider("x", Err(error)).is_none());
    }
    assert_eq!(
        chain.finish().errors,
        vec![
            "x: Http",
            "x: Timeout",
            "x: TooLarge",
            "x: BadJson",
            "x: Rejected",
            "x: BadPayload"
        ]
    );
}

#[test]
fn every_listed_source_can_be_asked() {
    for (id, label) in hakuro::settings::PROVIDERS {
        assert_eq!(source_of(id).unwrap().name(), label);
    }
    assert_eq!(source_of("ghost"), None);
}

#[test]
fn a_query_without_artists_searches_the_title_alone() {
    let query = TrackQuery {
        artists: Vec::new(),
        ..query()
    };
    assert_eq!(query.search_phrase(), "Title");
    assert_eq!(query.primary_artist(), "");
}
