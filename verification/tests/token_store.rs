use hakuro::token_store::{
    check_payload, entropy_bytes, is_encrypted_size, load_refresh_token, save_refresh_token,
    StoredSession,
};

#[test]
fn rejects_empty_input() {
    assert!(save_refresh_token("", "token").is_err());
    assert!(save_refresh_token("client", "").is_err());
}

#[test]
fn a_session_is_read_back_for_its_client_only() {
    let stored = || save_refresh_token("client-one", "dummy-refresh-token").ok();
    assert_eq!(
        load_refresh_token("client-one", stored()).as_deref(),
        Some("dummy-refresh-token")
    );
    assert!(load_refresh_token("client-two", stored()).is_none());
    assert!(load_refresh_token("client-one", None).is_none());
    let blank = StoredSession {
        client_id: "client-one".into(),
        refresh_token: String::new(),
    };
    assert!(load_refresh_token("client-one", Some(blank)).is_none());
}

#[test]
fn the_entropy_names_the_client() {
    assert_eq!(entropy_bytes("abc"), b"SpotifyOriginalLyrics:abc".to_vec());
    assert_ne!(entropy_bytes("a"), entropy_bytes("b"));
}

#[test]
fn sizes_are_bounded() {
    assert!(!is_encrypted_size(0));
    assert!(is_encrypted_size(131_072));
    assert!(!is_encrypted_size(131_073));
    assert!(check_payload(65_536).is_ok());
    assert_eq!(check_payload(65_537).unwrap_err(), "Session data is too large");
    assert_eq!(
        save_refresh_token("", "x").unwrap_err(),
        "Client ID and refresh token are required"
    );
}
