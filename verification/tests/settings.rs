use hakuro::settings::{
    load, provider_label, validate_client_id, Settings, SourcePreference, PROVIDERS,
};

#[test]
fn defaults_list_every_provider_in_lookup_order() {
    let settings = Settings::default();
    let ids: Vec<&str> = settings.sources.iter().map(|s| s.id.as_str()).collect();
    assert_eq!(ids, PROVIDERS.map(|(id, _)| id).to_vec());
    assert!(settings.client_id.is_empty());
}

#[test]
fn normalize_drops_unknown_and_duplicate_sources_and_appends_missing_ones() {
    let mut settings = Settings {
        sources: vec![
            SourcePreference {
                id: "qqmusic".into(),
                enabled: false,
            },
            SourcePreference {
                id: "ghost".into(),
                enabled: true,
            },
            SourcePreference {
                id: "qqmusic".into(),
                enabled: true,
            },
        ],
        ..Settings::default()
    };
    settings.normalize();

    let ids: Vec<&str> = settings.sources.iter().map(|s| s.id.as_str()).collect();
    assert_eq!(ids[0], "qqmusic", "the stored order is kept");
    assert_eq!(
        ids.len(),
        PROVIDERS.len(),
        "every provider is present exactly once"
    );
    assert!(!ids.contains(&"ghost"));
    assert!(!settings.sources[0].enabled, "the stored flag is kept");
}

#[test]
fn lookup_order_keeps_only_enabled_sources() {
    let mut settings = Settings::default();
    settings.sources[0].enabled = false;
    settings.sources[2].enabled = false;
    assert_eq!(
        settings.lookup_order(),
        vec!["petitlyrics", "netease", "qqmusic"]
    );
}

/// Disabling everything must not mean "never fetch lyrics again".
#[test]
fn disabling_every_source_falls_back_to_the_full_order() {
    let mut settings = Settings::default();
    for source in &mut settings.sources {
        source.enabled = false;
    }
    assert_eq!(settings.lookup_order().len(), PROVIDERS.len());
}

#[test]
fn client_id_validation_rejects_blank_and_punctuation_but_accepts_alphanumerics() {
    assert!(validate_client_id("  ").is_err());
    assert!(validate_client_id("SPOTIFY_CLIENT_ID=abc").is_err());
    assert_eq!(validate_client_id("  abc123  ").unwrap(), "abc123");
}

#[test]
fn a_file_that_cannot_be_read_counts_as_defaults() {
    assert_eq!(load(None), Settings::default());
    let stored = Settings {
        client_id: " abc ".into(),
        sources: Vec::new(),
        ..Settings::default()
    };
    let settings = load(Some(stored));
    assert_eq!(settings.client_id, "abc");
    assert_eq!(settings, {
        let mut again = settings.clone();
        again.normalize();
        again
    });
    assert_eq!(settings.sources, Settings::default().sources);
}

#[test]
fn labels_are_found_by_id() {
    assert_eq!(provider_label("qqmusic"), Some("QQ Music"));
    assert_eq!(provider_label("ghost"), None);
}

#[test]
fn a_client_id_is_refused_in_words() {
    assert_eq!(
        validate_client_id("").unwrap_err(),
        "Enter your Spotify Client ID in Settings."
    );
    assert_eq!(
        validate_client_id("a-b").unwrap_err(),
        "The Client ID should be letters and digits only. Use the Client ID, not the client secret."
    );
}

#[test]
fn the_stored_order_is_kept_while_missing_sources_come_behind() {
    let mut settings = Settings {
        sources: ["netease", "lrclib"]
            .iter()
            .map(|id| SourcePreference {
                id: id.to_string(),
                enabled: true,
            })
            .collect(),
        ..Settings::default()
    };
    settings.normalize();
    assert_eq!(
        settings.lookup_order(),
        vec!["netease", "lrclib", "petitlyrics", "musixmatch", "qqmusic"]
    );
}
