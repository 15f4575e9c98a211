use hakuro::lrc::{active_line, parse_lrc, strip_tags, unescape, Cue};

fn cues(pairs: &[(i64, &str)]) -> Vec<Cue> {
    pairs
        .iter()
        .map(|(time_ms, text)| Cue {
            time_ms: *time_ms,
            text: (*text).to_string(),
        })
        .collect()
}

#[test]
fn tags_offset_merge_and_blank() {
    let raw = "[ar:Test]\n[00:02.50][00:01.005]LINE_A\n[00:02.50]LINE_B\n[00:02.50]LINE_A\n[00:04]\n[offset:+500]";
    assert_eq!(
        parse_lrc(raw),
        cues(&[(505, "LINE_A"), (2000, "LINE_A\nLINE_B"), (3500, "")])
    );
}

#[test]
fn negative_offset_and_invalid_input() {
    assert_eq!(
        parse_lrc("[offset:-100]\n[00:00.1]LINE_A\n[00:70]LINE_B\n[ti:test]"),
        cues(&[(200, "LINE_A")])
    );
    assert_eq!(parse_lrc("plain lyrics"), cues(&[]));
    // Offsets never push a cue below zero.
    assert_eq!(
        parse_lrc("[offset:900]\n[00:00.1]LINE_A"),
        cues(&[(0, "LINE_A")])
    );
}

#[test]
fn an_offset_moves_every_cue_by_exactly_that_amount() {
    let body = "[00:02.50][00:01.005]LINE_A\n[00:02.50]LINE_B &amp; C\n[ti:x]\n[00:04]";
    let plain = parse_lrc(body);
    assert_eq!(plain.len(), 3);
    for n in [0i64, 1, 1005, -250] {
        let moved = parse_lrc(&format!("[offset:{n}]\n{body}"));
        assert_eq!(moved.len(), plain.len());
        for (cue, before) in moved.iter().zip(&plain) {
            assert_eq!(cue.time_ms, before.time_ms - n);
            assert_eq!(cue.text, before.text);
        }
    }
    // One that would come before the start is held at zero.
    assert_eq!(parse_lrc(&format!("[offset:2000]\n{body}"))[0].time_ms, 0);
    assert_eq!(parse_lrc(&format!("[offset:9000]\n{body}")).len(), 1);
}

#[test]
fn what_stands_before_an_entity_is_kept() {
    assert_eq!(unescape("a;b#c &lt;"), "a;b#c <");
    assert_eq!(unescape("a;b#c"), "a;b#c");
    assert_eq!(unescape(""), "");
    assert_eq!(unescape(&format!("x{}", "& &amp;")), format!("x{}", unescape("& &amp;")));
}

#[test]
fn carriage_return_only_files_still_parse() {
    assert_eq!(
        parse_lrc("[00:01]LINE_A\r[00:02]LINE_B"),
        cues(&[(1000, "LINE_A"), (2000, "LINE_B")])
    );
}

#[test]
fn line_boundaries_and_seek_back() {
    let parsed = cues(&[(1000, "LINE_A"), (2000, "LINE_B")]);
    assert_eq!(active_line(&parsed, 999), -1);
    assert_eq!(active_line(&parsed, 1000), 0);
    assert_eq!(active_line(&parsed, 1500), 0);
    assert_eq!(active_line(&parsed, 2000), 1);
    assert_eq!(active_line(&[], 999), -1);
}

#[test]
fn html_entities_are_decoded_before_the_lines_are_read() {
    assert_eq!(unescape("a &amp; b &#39;c&#39;"), "a & b 'c'");
    assert_eq!(
        parse_lrc("[00:01]Tom &amp; Jerry"),
        cues(&[(1000, "Tom & Jerry")])
    );
}

#[test]
fn tags_are_stripped_from_plain_text() {
    assert_eq!(strip_tags("[ti:Song]\n[00:01.50]LINE_A"), "LINE_A");
    assert_eq!(strip_tags("  LINE_A [x] "), "LINE_A [x]");
}

/// The grammar as patterns: stamps, metadata tags, and the offset tag.
fn patterns() -> (regex::Regex, regex::Regex, regex::Regex) {
    (
        regex::Regex::new(r"\[(\d{1,3}):([0-5]\d)(?:[.:](\d{1,3}))?\]").unwrap(),
        regex::Regex::new(r"(?i)\[(?:ar|ti|al|by|re|ve|length|offset):[^\]]*\]").unwrap(),
        regex::Regex::new(r"(?i)\[offset:([+-]?\d+)\]").unwrap(),
    )
}

/// Texts made of pieces that tags are made of, in every order a small generator comes up with.
fn tag_soup() -> Vec<String> {
    let pieces = [
        "[", "]", ":", ".", "0", "1", "5", "9", "00:01", "[00:02.5]", "[01:02:345]", "offset:",
        "OFFSET:", "[offset:+50]", "[offset:-20]", "[ar:x]", "[TI:", "length", "a", " ", "\n",
        "\r", "+", "-", "\u{0661}", "\u{017f}", "\u{212a}", "re:", "&amp;", "12",
    ];
    let mut seed: u64 = 7;
    let mut texts = Vec::new();
    for _ in 0..3000 {
        let mut text = String::new();
        for _ in 0..12 {
            seed = seed.wrapping_mul(6364136223846793005).wrapping_add(1442695040888963407);
            text.push_str(pieces[((seed >> 33) % pieces.len() as u64) as usize]);
        }
        texts.push(text);
    }
    texts
}

#[test]
fn tags_are_stripped_as_the_patterns_say() {
    let (stamp, meta, _) = patterns();
    for text in tag_soup() {
        let without_meta = meta.replace_all(&text, "");
        let expected = stamp.replace_all(&without_meta, "").trim().to_string();
        assert_eq!(strip_tags(&text), expected, "{text:?}");
    }
}

#[test]
fn cues_are_read_as_the_patterns_say() {
    let (stamp, _, offset) = patterns();
    for text in tag_soup() {
        let shift: i64 = offset
            .captures_iter(&text)
            .last()
            .and_then(|caps| caps[1].parse().ok())
            .unwrap_or(0);
        let mut grouped: std::collections::BTreeMap<i64, Vec<String>> = Default::default();
        for line in unescape(&text).split(['\n', '\r']) {
            let words = strip_tags(line);
            for caps in stamp.captures_iter(line) {
                let minutes: i64 = caps[1].parse().unwrap_or(0);
                let seconds: i64 = caps[2].parse().unwrap_or(0);
                let fraction: i64 = caps
                    .get(3)
                    .map(|m| format!("{:0<3}", m.as_str()).parse().unwrap_or(0))
                    .unwrap_or(0);
                let time = ((minutes * 60 + seconds) * 1000 + fraction - shift).max(0);
                let bucket = grouped.entry(time).or_default();
                if !words.is_empty() && !bucket.contains(&words) {
                    bucket.push(words.clone());
                }
            }
        }
        let expected: Vec<Cue> = grouped
            .into_iter()
            .map(|(time_ms, words)| Cue {
                time_ms,
                text: words.join("\n"),
            })
            .collect();
        assert_eq!(parse_lrc(&text), expected, "{text:?}");
    }
}

#[test]
fn fractions_are_read_from_the_left() {
    assert_eq!(parse_lrc("[00:00.5]a")[0].time_ms, 500);
    assert_eq!(parse_lrc("[00:00.05]a")[0].time_ms, 50);
    assert_eq!(parse_lrc("[00:00.005]a")[0].time_ms, 5);
    assert_eq!(parse_lrc("[01:02.345]a")[0].time_ms, 62_345);
}

#[test]
fn cues_run_forward_and_never_share_a_time() {
    let parsed = parse_lrc("[00:03]c\n[00:01]a\n[00:02]b\n[00:01]d");
    let times: Vec<i64> = parsed.iter().map(|cue| cue.time_ms).collect();
    assert_eq!(times, vec![1000, 2000, 3000]);
    assert_eq!(parsed[0].text, "a\nd");
}

#[test]
fn digits_of_other_scripts_count_as_the_pattern_counts_them() {
    let pattern = regex::Regex::new(r"\[\d:\d\d\]").unwrap();
    let raw = "[\u{0661}:00]a";
    assert!(pattern.is_match(raw));
    assert_eq!(strip_tags(raw), "a");
}
