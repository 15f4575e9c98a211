fn artists(names: &[&str]) -> Vec<String> {
    names.iter().map(|n| n.to_string()).collect()
}

#[test]
fn requires_artist_duration_and_version() {
    let check = |title: &str, artist: &str, duration: Option<i64>| {
        // Fullwidth "Ａ" must fold to ASCII "a" through NFKC.
        hakuro::matching::matches(
            "Ａ Song",
            &artists(&["Singer"]),
            180_000,
            title,
            &artists(&[artist]),
            duration,
        )
    };
    assert!(check("a song", "SINGER", Some(182_000)));
    assert!(!check("A Song (Live)", "Singer", Some(180_000)));
    assert!(!check("A Song", "Cover Artist", Some(180_000)));
    assert!(!check("A Song", "Singer", Some(185_000)));
    assert!(!check("A Song", "Singer", None));
}

#[test]
fn chinese_matching_converts_only_the_comparison() {
    assert!(hakuro::matching::matches(
        "測試曲目",
        &artists(&["測試歌手"]),
        256_000,
        "测试曲目",
        &artists(&["测试歌手"]),
        Some(257_000)
    ));
    assert!(!hakuro::matching::matches(
        "測試曲目",
        &artists(&["測試歌手"]),
        269_000,
        "测试曲目 (Live)",
        &artists(&["测试歌手"]),
        Some(269_000)
    ));
    // A romanized artist name is not treated as the same artist.
    assert!(!hakuro::matching::matches(
        "測試曲目",
        &artists(&["測試歌手"]),
        269_000,
        "测试曲目",
        &artists(&["Ceshi Geshou"]),
        Some(269_000)
    ));
}

#[test]
fn empty_title_never_matches() {
    assert!(!hakuro::matching::matches(
        "",
        &artists(&["Singer"]),
        180_000,
        "",
        &artists(&["Singer"]),
        Some(180_000)
    ));
}

#[test]
fn keys_fold_width_case_script_and_punctuation() {
    assert_eq!(hakuro::matching::normalize("Ａ-b &amp; C!"), "abc");
    assert_eq!(hakuro::matching::normalize("STRASSE"), "strasse");
    assert_eq!(hakuro::matching::normalize("Straße"), "strasse");
    assert_eq!(hakuro::matching::normalize("測試"), "测试");
}

#[test]
fn matching_does_not_depend_on_the_side() {
    let check = |a: &str, b: &str, one: i64, two: i64| {
        let forth = hakuro::matching::matches(a, &artists(&["X"]), one, b, &artists(&["x"]), Some(two));
        let back = hakuro::matching::matches(b, &artists(&["x"]), two, a, &artists(&["X"]), Some(one));
        assert_eq!(forth, back);
        forth
    };
    assert!(check("Song", "song", 100_000, 104_000));
    assert!(!check("Song", "song", 100_000, 104_001));
}
