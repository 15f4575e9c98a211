use base64::Engine;
use hakuro::http::{Fault, Method, Reply};
use hakuro::lrc::Cue;
use hakuro::petitlyrics::{fetch, parse_mxm_subtitle, parse_word_synced, read_reply};
use hakuro::providers::{ProviderError, Step, TrackQuery};

fn query() -> TrackQuery {
    TrackQuery {
        track: "Ａ Song".into(),
        artists: vec!["Singer".into()],
        album: "Album".into(),
        duration_ms: 180_000,
        spotify_id: None,
    }
}

fn song(title: &str, payload: &str) -> Reply {
    let encoded = base64::engine::general_purpose::STANDARD.encode(payload);
    let (front, back) = encoded.split_at(encoded.len() / 2);
    let body = format!(
        "<response><songs><song><title>{title}</title><lyricsData>{front}\n {back}</lyricsData></song></songs></response>"
    );
    Reply::Answered {
        status: 200,
        body: Ok(body.into_bytes()),
    }
}

const SYNCED: &str = "<wsy><line><linestring>LINE_A</linestring><word><starttime>10</starttime></word></line></wsy>";

#[test]
fn word_timings_collapse_to_one_cue_per_line() {
    let xml = "<wsy><line><linestring>LINE_A</linestring>\
               <word><starttime>0</starttime><endtime>450</endtime><wordstring>W1</wordstring></word>\
               <word><starttime>450</starttime><endtime>900</endtime><wordstring>W2</wordstring></word></line>\
               <line><linestring>LINE_B</linestring>\
               <word><starttime>1200</starttime><endtime>1800</endtime><wordstring>W3</wordstring></word></line></wsy>";
    let cues = parse_word_synced(xml).unwrap();
    assert_eq!(cues.len(), 2);
    assert_eq!(
        cues[0],
        Cue {
            time_ms: 0,
            text: "LINE_A".into()
        }
    );
    assert_eq!(
        cues[1],
        Cue {
            time_ms: 1200,
            text: "LINE_B".into()
        }
    );
}

#[test]
fn lines_are_found_at_any_depth() {
    for depth in [1, 201, 100_000] {
        let xml = format!("{}{SYNCED}{}", "<a>".repeat(depth), "</a>".repeat(depth));
        let cues = parse_word_synced(&xml).unwrap();
        assert_eq!(cues.len(), 1);
        assert_eq!(cues[0].time_ms, 10);
        assert_eq!(cues[0].text, "LINE_A");
    }
    // A deep text that never closes is no document.
    assert!(parse_word_synced(&"<a>".repeat(100_000)).is_none());
}

#[test]
fn a_deep_reply_is_read_like_any_other() {
    let depth = 100_000;
    let song = format!(
        "<song><title>A Song</title><lyricsData>{}</lyricsData></song>",
        base64::engine::general_purpose::STANDARD.encode(SYNCED)
    );
    let body = format!("{}{song}{}", "<a>".repeat(depth), "</a>".repeat(depth));
    let reply = Reply::Answered {
        status: 200,
        body: Ok(body.into_bytes()),
    };
    let payload = read_reply(&query(), &reply).unwrap();
    assert_eq!(payload.as_deref(), Some(SYNCED));
    let garbled = Reply::Answered {
        status: 200,
        body: Ok(b"no document".to_vec()),
    };
    assert_eq!(
        read_reply(&query(), &garbled).unwrap_err(),
        ProviderError::BadPayload
    );
}

#[test]
fn comments_sections_and_entities_are_read_as_xml_has_them() {
    let xml = "<?xml version=\"1.0\"?><wsy><!-- </wsy> --><line x='/>'>\
               <linestring><![CDATA[A <B>]]> &amp; C</linestring>\
               <word><starttime> 10 </starttime></word></line></wsy>";
    let cues = parse_word_synced(xml).unwrap();
    assert_eq!(cues[0].text, "A <B> & C");
}

#[test]
fn missing_linestring_falls_back_to_joined_words() {
    let xml = "<wsy><line>\
               <word><starttime>500</starttime><wordstring>W1</wordstring></word>\
               <word><starttime>900</starttime><wordstring>W2</wordstring></word></line></wsy>";
    let cues = parse_word_synced(xml).unwrap();
    assert_eq!(
        cues[0],
        Cue {
            time_ms: 500,
            text: "W1W2".into()
        }
    );
}

#[test]
fn lines_without_timings_are_dropped_and_payloads_without_lines_fail() {
    assert!(
        parse_word_synced("<wsy><line><linestring>LINE_A</linestring></line></wsy>").is_none()
    );
    assert!(parse_word_synced("not xml at all").is_none());
}

#[test]
fn mxm_subtitle_cues_convert_seconds_to_milliseconds() {
    let body =
        r#"[{"text":"LINE_A","time":{"total":12.34}},{"text":"LINE_B","time":{"total":0.5}}]"#;
    let cues = parse_mxm_subtitle(body).unwrap();
    assert_eq!(
        cues[0],
        Cue {
            time_ms: 500,
            text: "LINE_B".into()
        }
    );
    assert_eq!(
        cues[1],
        Cue {
            time_ms: 12_340,
            text: "LINE_A".into()
        }
    );
}

#[test]
fn mxm_subtitle_rejects_non_cue_payloads() {
    assert!(parse_mxm_subtitle("").is_none());
    assert!(parse_mxm_subtitle("[]").is_none());
    assert!(parse_mxm_subtitle(r#"{"not":"an array"}"#).is_none());
}

#[test]
fn one_entry_without_a_time_spoils_a_cue_list() {
    assert!(parse_mxm_subtitle(r#"[{"text":"A","time":{"total":1}},{"text":"B"}]"#).is_none());
}

#[test]
fn cues_of_one_time_stay_in_the_order_they_had() {
    let body = r#"[{"text":"B","time":{"total":2}},{"text":"A1","time":{"total":1}},{"text":"A2","time":{"total":1}}]"#;
    let texts: Vec<String> = parse_mxm_subtitle(body)
        .unwrap()
        .into_iter()
        .map(|cue| cue.text)
        .collect();
    assert_eq!(texts, vec!["A1", "A2", "B"]);
}

#[test]
fn a_word_without_a_readable_time_is_passed_over() {
    let xml = "<wsy><line><word><starttime>x</starttime><wordstring>W1</wordstring></word>\
               <word><starttime> -5 </starttime><wordstring>W2</wordstring></word></line></wsy>";
    assert_eq!(
        parse_word_synced(xml).unwrap(),
        vec![Cue {
            time_ms: 0,
            text: "W1W2".into()
        }]
    );
}

#[test]
fn word_synced_lyrics_are_asked_for_first() {
    let Step::Ask(request) = fetch(&query(), &[]) else {
        panic!("a request")
    };
    assert_eq!(request.method, Method::Post);
    assert_eq!(
        request.url,
        "https://p1.petitlyrics.com/api/GetPetitLyricsData.php"
    );
    assert!(request.form.contains(&("lyricsType".to_string(), "3".to_string())));
    assert!(request.form.contains(&("key_artist".to_string(), "Singer".to_string())));

    let Step::Done(Ok(result)) = fetch(&query(), &[song("a song", SYNCED)]) else {
        panic!("lyrics")
    };
    assert_eq!(result.source, "PetitLyrics");
    assert_eq!(result.text, "LINE_A");
    assert_eq!(result.cues[0].time_ms, 10);
}

#[test]
fn plain_words_are_asked_for_second() {
    let first = song("Other Song", SYNCED);
    let Step::Ask(request) = fetch(&query(), &[first]) else {
        panic!("a second request")
    };
    assert!(request.form.contains(&("lyricsType".to_string(), "1".to_string())));

    let replies = [song("Other Song", SYNCED), song("", " WORDS ")];
    let Step::Done(Ok(result)) = fetch(&query(), &replies) else {
        panic!("lyrics")
    };
    assert_eq!(result.text, "WORDS");
    assert!(result.cues.is_empty());
}

#[test]
fn every_failure_has_its_kind() {
    let kind = |reply: Reply| match fetch(&query(), &[reply]) {
        Step::Done(Err(error)) => Some(error),
        _ => None,
    };
    let answered = |status: u16, body: &str| Reply::Answered {
        status,
        body: Ok(body.as_bytes().to_vec()),
    };
    assert_eq!(
        kind(Reply::Failed(Fault {
            timeout: true,
            decode: false
        })),
        Some(ProviderError::Timeout)
    );
    assert_eq!(kind(answered(500, "")), Some(ProviderError::Http));
    assert_eq!(kind(answered(200, "no xml")), Some(ProviderError::BadPayload));
    assert_eq!(
        kind(answered(200, "<song><lyricsData>***</lyricsData></song>")),
        Some(ProviderError::BadPayload)
    );
    assert_eq!(
        kind(answered(200, "<song><lyricsData>/w==</lyricsData></song>")),
        Some(ProviderError::BadPayload)
    );
    assert_eq!(kind(answered(200, "<none/>")), None);
}
