//! Spotify Web API: Authorization Code with PKCE, playback state, transport control.
//!
//! The redirect address must use the literal loopback address: Spotify disallows `localhost` for
//! new authorizations.

use vstd::prelude::*;
use vstd::utf8::encode_utf8;

use crate::codec::{
    all_percent_safe, all_url_safe, base64_url, base64_url_encoded, percent_decode,
    percent_decoded, percent_encode, percent_encoded, percent_encoding_is_undone, random_bytes,
    sha256, sha256_digest,
};
use crate::http::{
    is_success, no_pairs, push_pair, success, Fault, HttpRequest, Method, Reply, ReplyView,
    RequestView,
};
use crate::json::{
    as_array, as_bool, as_i64, as_text, as_text_or_empty, bool_in, field, get_within, integer_in,
    is_object, items_in, json_in_bytes, parse_bytes, text_in, text_or_empty, viewed, within, Json,
    JsonView,
};
use crate::player::{nothing_playing, Control, Playback, PlaybackView, PlayerError, PlayerKind};
use crate::text::{
    chars_of, concat3, cut_once, decimal, decimal_text, join, join_text, list_contains, parse_u64,
    parsed_u64, same, split, split_any, split_once, split_words, words,
};

verus! {

pub const REDIRECT_URI: &'static str = "http://127.0.0.1:8787/callback";

pub const CALLBACK_ADDRESS: &'static str = "127.0.0.1:8787";

/// Playback control needs `user-modify-playback-state`; a refresh token minted without it stays
/// without it, so the reader authorizes once more after upgrading.
pub const SCOPES: &'static str = "user-read-currently-playing user-read-playback-state user-modify-playback-state";

pub const AUTHORIZE_URL: &'static str = "https://accounts.spotify.com/authorize";

pub const TOKEN_URL: &'static str = "https://accounts.spotify.com/api/token";

pub const API_BASE: &'static str = "https://api.spotify.com/v1";

/// The browser tab is opened by the app; if nobody completes the form, stop waiting.
pub const AUTH_TIMEOUT_SECONDS: u64 = 300;

// ---------------------------------------------------------------------------- errors

#[derive(Debug)]
pub enum SpotifyError {
    /// The cached session is gone or rejected: the reader has to authorize again.
    LoginRequired,
    Config(String),
    Network(String),
    /// Spotify said no, with its own wording, including the Premium refusal, whose exact text is
    /// not documented, so it is passed through as received.
    Refused { status: u16, message: String },
    RateLimited { retry_after: u64 },
}

/// What a [`SpotifyError`] says.
pub ghost enum SpotifyErrorView {
    LoginRequired,
    Config(Seq<char>),
    Network(Seq<char>),
    Refused { status: u16, message: Seq<char> },
    RateLimited { retry_after: u64 },
}

impl View for SpotifyError {
    type V = SpotifyErrorView;

    open spec fn view(&self) -> SpotifyErrorView {
        match *self {
            SpotifyError::LoginRequired => SpotifyErrorView::LoginRequired,
            SpotifyError::Config(text) => SpotifyErrorView::Config(text@),
            SpotifyError::Network(text) => SpotifyErrorView::Network(text@),
            SpotifyError::Refused { status, message } => SpotifyErrorView::Refused {
                status,
                message: message@,
            },
            SpotifyError::RateLimited { retry_after } => SpotifyErrorView::RateLimited {
                retry_after,
            },
        }
    }
}

/// The sentence shown for an error.
pub open spec fn spotify_error_text(error: SpotifyErrorView) -> Seq<char> {
    match error {
        SpotifyErrorView::LoginRequired => "Spotify authorization is required"@,
        SpotifyErrorView::Config(text) => text,
        SpotifyErrorView::Network(text) => text,
        SpotifyErrorView::Refused { status, message } => message,
        SpotifyErrorView::RateLimited { retry_after } => "Spotify rate limit"@,
    }
}

/// The error that a transport fault is.
pub open spec fn fault_in_spotify(fault: Fault) -> SpotifyErrorView {
    if fault.timeout {
        SpotifyErrorView::Network("Spotify did not respond in time"@)
    } else {
        SpotifyErrorView::Network("Spotify is unreachable"@)
    }
}

impl SpotifyError {
    /// The sentence shown for this error.
    pub fn message(&self) -> (text: String)
        ensures
            text@ == spotify_error_text(self@),
    {
        match self {
            SpotifyError::LoginRequired => "Spotify authorization is required".to_owned(),
            SpotifyError::Config(text) => text.clone(),
            SpotifyError::Network(text) => text.clone(),
            SpotifyError::Refused { status: _, message } => message.clone(),
            SpotifyError::RateLimited { retry_after: _ } => "Spotify rate limit".to_owned(),
        }
    }

    /// The error that a transport fault is.
    pub fn from_fault(fault: Fault) -> (error: SpotifyError)
        ensures
            error@ == fault_in_spotify(fault),
    {
        if fault.timeout {
            SpotifyError::Network("Spotify did not respond in time".to_owned())
        } else {
            SpotifyError::Network("Spotify is unreachable".to_owned())
        }
    }
}

/// The error in the terms that both players share. The status is dropped: nothing downstream
/// branches on it, and the message is Spotify's own wording, which is what gets shown.
impl From<SpotifyError> for PlayerError {
    fn from(error: SpotifyError) -> (shared: PlayerError) {
        match error {
            SpotifyError::LoginRequired => PlayerError::NeedsAuth,
            SpotifyError::Config(message) => PlayerError::Config(message),
            SpotifyError::Network(message) => PlayerError::Network(message),
            SpotifyError::Refused { status: _, message } => PlayerError::Refused { message },
            SpotifyError::RateLimited { retry_after } => PlayerError::RateLimited { retry_after },
        }
    }
}

impl vstd::std_specs::convert::FromSpecImpl<SpotifyError> for PlayerError {
    open spec fn obeys_from_spec() -> bool {
        true
    }

    open spec fn from_spec(error: SpotifyError) -> PlayerError {
        match error {
            SpotifyError::LoginRequired => PlayerError::NeedsAuth,
            SpotifyError::Config(message) => PlayerError::Config(message),
            SpotifyError::Network(message) => PlayerError::Network(message),
            SpotifyError::Refused { status, message } => PlayerError::Refused { message },
            SpotifyError::RateLimited { retry_after } => PlayerError::RateLimited { retry_after },
        }
    }
}

// ------------------------------------------------------------------------------ PKCE

/// The challenge that a verifier answers.
pub open spec fn challenge_for(verifier: Seq<char>) -> Seq<char> {
    base64_url_encoded(sha256(encode_utf8(verifier)))
}

/// The challenge that a verifier answers.
pub fn challenge_of(verifier: &str) -> (challenge: String)
    ensures
        challenge@ == challenge_for(verifier@),
        challenge@.len() == 43,
        all_url_safe(challenge@),
{
    let digest = sha256_digest(verifier.as_bytes());
    base64_url(&digest)
}

/// The verifier that random bytes make.
pub fn verifier_from(raw: &[u8]) -> (verifier: String)
    requires
        raw@.len() == 64,
    ensures
        verifier@ == base64_url_encoded(raw@),
        verifier@.len() == 86,
        all_url_safe(verifier@),
{
    base64_url(raw)
}

/// A random verifier and its challenge. A verifier has to have 43 to 128 characters.
pub fn pkce_pair() -> (pair: (String, String))
    ensures
        pair.0@.len() == 86,
        exists|raw: Seq<u8>| raw.len() == 64 && pair.0@ == #[trigger] base64_url_encoded(raw),
        all_url_safe(pair.0@),
        pair.1@ == challenge_for(pair.0@),
        all_url_safe(pair.1@),
{
    let raw = random_bytes(64);
    let verifier = verifier_from(&raw);
    let challenge = challenge_of(verifier.as_str());
    (verifier, challenge)
}

// ----------------------------------------------------------------------- the account

/// What is known of the account that is signed in.
#[derive(Debug)]
pub struct Spotify {
    pub client_id: String,
    pub access_token: String,
    pub refresh_token: Option<String>,
    /// Non-fatal note shown in the interface, such as that the session could not be cached.
    pub cache_warning: String,
    /// The scopes Spotify says this token carries, when it says so at all.
    pub granted_scopes: Option<String>,
}

/// What a [`Spotify`] says.
pub ghost struct SpotifyView {
    pub client_id: Seq<char>,
    pub access_token: Seq<char>,
    pub refresh_token: Option<Seq<char>>,
    pub cache_warning: Seq<char>,
    pub granted_scopes: Option<Seq<char>>,
}

impl View for Spotify {
    type V = SpotifyView;

    open spec fn view(&self) -> SpotifyView {
        SpotifyView {
            client_id: self.client_id@,
            access_token: self.access_token@,
            refresh_token: self.refresh_token.deep_view(),
            cache_warning: self.cache_warning@,
            granted_scopes: self.granted_scopes.deep_view(),
        }
    }
}

/// Nobody has signed in yet.
pub open spec fn signed_out(client_id: Seq<char>) -> SpotifyView {
    SpotifyView {
        client_id,
        access_token: Seq::empty(),
        refresh_token: None,
        cache_warning: Seq::empty(),
        granted_scopes: None,
    }
}

/// Whether a token with these scopes may control playback. Where Spotify does not tell, it is
/// assumed rather than forcing a needless sign-in.
pub open spec fn may_control(granted_scopes: Option<Seq<char>>) -> bool {
    match granted_scopes {
        Some(granted) => words(granted).contains("user-modify-playback-state"@),
        None => true,
    }
}

/// The page on which the reader authorizes the app.
pub open spec fn authorization_page(
    client_id: Seq<char>,
    challenge: Seq<char>,
    state: Seq<char>,
) -> Seq<char> {
    AUTHORIZE_URL@ + "?"@ + join(
        seq![
            "client_id="@ + percent_encoded(client_id),
            "response_type="@ + percent_encoded("code"@),
            "redirect_uri="@ + percent_encoded(REDIRECT_URI@),
            "code_challenge_method="@ + percent_encoded("S256"@),
            "code_challenge="@ + percent_encoded(challenge),
            "scope="@ + percent_encoded(SCOPES@),
            "state="@ + percent_encoded(state),
        ],
        "&"@,
    )
}

/// One parameter of an address.
fn parameter(name: &str, value: &str) -> (text: String)
    ensures
        text@ == name@ + percent_encoded(value@),
{
    let mut text = name.to_owned();
    let encoded = percent_encode(value);
    text.append(encoded.as_str());
    text
}

/// Ask for tokens.
pub open spec fn token_asks(form: Seq<(Seq<char>, Seq<char>)>) -> RequestView {
    RequestView {
        method: Method::Post,
        url: TOKEN_URL@,
        query: Seq::empty(),
        form,
        headers: Seq::empty(),
    }
}

/// The form that trades a refresh token for an access token.
pub open spec fn refresh_form(client_id: Seq<char>, token: Seq<char>) -> Seq<
    (Seq<char>, Seq<char>),
> {
    seq![
        ("grant_type"@, "refresh_token"@),
        ("refresh_token"@, token),
        ("client_id"@, client_id),
    ]
}

/// The form that trades an authorization code for tokens.
pub open spec fn code_form(client_id: Seq<char>, code: Seq<char>, verifier: Seq<char>) -> Seq<
    (Seq<char>, Seq<char>),
> {
    seq![
        ("grant_type"@, "authorization_code"@),
        ("code"@, code),
        ("redirect_uri"@, REDIRECT_URI@),
        ("client_id"@, client_id),
        ("code_verifier"@, verifier),
    ]
}

fn token_request(form: Vec<(String, String)>) -> (request: HttpRequest)
    ensures
        request@ == token_asks(form.deep_view()),
{
    HttpRequest {
        method: Method::Post,
        url: TOKEN_URL.to_owned(),
        query: no_pairs(),
        form,
        headers: no_pairs(),
    }
}

/// The document in a body, nothing where there is none.
pub open spec fn body_json(body: Result<Seq<u8>, Fault>) -> Option<JsonView> {
    match body {
        Ok(bytes) => json_in_bytes(bytes),
        Err(_) => None,
    }
}

fn read_body(body: &Result<Vec<u8>, Fault>) -> (json: Option<Json>)
    ensures
        match json {
            Some(json) => body_json(
                match *body {
                    Ok(bytes) => Ok(bytes@),
                    Err(fault) => Err(fault),
                },
            ) == Some(json@),
            None => body_json(
                match *body {
                    Ok(bytes) => Ok(bytes@),
                    Err(fault) => Err(fault),
                },
            ) is None,
        },
{
    match body {
        Ok(bytes) => parse_bytes(bytes),
        Err(_) => None,
    }
}

/// Why a request for tokens was turned down. `invalid_grant` is Spotify saying this refresh token
/// is finished.
pub open spec fn token_refusal(status: u16, body: Option<JsonView>) -> SpotifyErrorView {
    if text_or_empty(within(body, "error"@)) == "invalid_grant"@ || status == 400 {
        SpotifyErrorView::LoginRequired
    } else {
        SpotifyErrorView::Network(
            "Spotify refused the sign-in ("@ + decimal(status as int) + ")"@,
        )
    }
}

/// The document in the reply to a request for tokens. Where the body of a success cannot be read
/// it is an empty one.
pub open spec fn token_answers(reply: ReplyView) -> Result<Option<JsonView>, SpotifyErrorView> {
    match reply {
        ReplyView::Failed(fault) => Err(fault_in_spotify(fault)),
        ReplyView::Answered { status, body } => if success(status) {
            Ok(body_json(body))
        } else {
            Err(token_refusal(status, body_json(body)))
        },
    }
}

/// What a document that was read says.
pub open spec fn json_view(json: Result<Option<Json>, SpotifyError>) -> Result<
    Option<JsonView>,
    SpotifyErrorView,
> {
    match json {
        Ok(Some(json)) => Ok(Some(json@)),
        Ok(None) => Ok(None),
        Err(error) => Err(error@),
    }
}

/// Why a request for tokens was turned down.
pub fn refusal_of(status: u16, body: Option<&Json>) -> (error: SpotifyError)
    ensures
        error@ == token_refusal(status, viewed(body)),
{
    let error = as_text_or_empty(get_within(body, "error"));
    if same(error.as_str(), "invalid_grant") || status == 400 {
        SpotifyError::LoginRequired
    } else {
        let code = decimal_text(status as i64);
        SpotifyError::Network(concat3("Spotify refused the sign-in (", code.as_str(), ")"))
    }
}

/// Read the reply to a request for tokens.
pub fn post_token(reply: &Reply) -> (json: Result<Option<Json>, SpotifyError>)
    ensures
        json_view(json) == token_answers(reply@),
{
    match reply {
        Reply::Failed(fault) => Err(SpotifyError::from_fault(*fault)),
        Reply::Answered { status, body } => {
            let json = read_body(body);
            if is_success(*status) {
                Ok(json)
            } else {
                Err(refusal_of(*status, json.as_ref()))
            }
        },
    }
}

/// The account after tokens came. Scopes are optional in the answer; their absence means
/// "unchanged", not "none". Spotify rotates refresh tokens; whichever one came back is kept.
pub open spec fn with_tokens(account: SpotifyView, data: Option<JsonView>) -> SpotifyView {
    SpotifyView {
        access_token: match text_in(within(data, "access_token"@)) {
            Some(access) => access,
            None => account.access_token,
        },
        granted_scopes: match text_in(within(data, "scope"@)) {
            Some(scope) => Some(scope),
            None => account.granted_scopes,
        },
        refresh_token: match text_in(within(data, "refresh_token"@)) {
            Some(token) => Some(token),
            None => account.refresh_token,
        },
        ..account
    }
}

/// What is said of a session that could not be saved.
pub open spec fn unsaved_warning() -> Seq<char> {
    "The sign-in could not be saved; you may need to authorize again next time."@
}

/// How a stored session is taken up.
#[derive(Debug)]
pub enum Resume {
    /// Trade the stored token for a new one: send this.
    Refresh(HttpRequest),
    /// Nothing is stored: the reader authorizes in the browser.
    Browser,
}

/// What taking up a stored session came to.
#[derive(Debug)]
pub struct Resumed {
    /// Whether the reader still has to authorize in the browser.
    pub needs_browser: Result<bool, SpotifyError>,
    /// Whether the stored session is to be cleared.
    pub clear_stored: bool,
    /// The refresh token to store.
    pub to_store: Option<String>,
}

impl Spotify {
    pub fn new(client_id: String) -> (account: Self)
        ensures
            account@ == signed_out(client_id@),
    {
        Spotify {
            client_id,
            access_token: String::new(),
            refresh_token: None,
            cache_warning: String::new(),
            granted_scopes: None,
        }
    }

    pub fn cache_warning(&self) -> (warning: String)
        ensures
            warning@ == self@.cache_warning,
    {
        self.cache_warning.clone()
    }

    /// Whether the current token may control playback.
    ///
    /// A refresh token minted before `user-modify-playback-state` was requested still refreshes
    /// successfully, but every transport call would fail with a refusal the reader cannot act on.
    pub fn has_control_scope(&self) -> (r: bool)
        ensures
            r == may_control(self@.granted_scopes),
    {
        match &self.granted_scopes {
            Some(granted) => {
                let scopes = split_words(granted.as_str());
                list_contains(&scopes, "user-modify-playback-state")
            },
            None => true,
        }
    }

    /// The page on which the reader authorizes the app.
    pub fn authorization_url(&self, challenge: &str, state: &str) -> (url: String)
        ensures
            url@ == authorization_page(self@.client_id, challenge@, state@),
    {
        let mut parts: Vec<String> = Vec::new();
        parts.push(parameter("client_id=", self.client_id.as_str()));
        parts.push(parameter("response_type=", "code"));
        parts.push(parameter("redirect_uri=", REDIRECT_URI));
        parts.push(parameter("code_challenge_method=", "S256"));
        parts.push(parameter("code_challenge=", challenge));
        parts.push(parameter("scope=", SCOPES));
        parts.push(parameter("state=", state));
        let query = join_text(&parts, "&");
        assert(parts.deep_view() =~= seq![
            "client_id="@ + percent_encoded(self@.client_id),
            "response_type="@ + percent_encoded("code"@),
            "redirect_uri="@ + percent_encoded(REDIRECT_URI@),
            "code_challenge_method="@ + percent_encoded("S256"@),
            "code_challenge="@ + percent_encoded(challenge@),
            "scope="@ + percent_encoded(SCOPES@),
            "state="@ + percent_encoded(state@),
        ]);
        concat3(AUTHORIZE_URL, "?", query.as_str())
    }

    /// The page the reader has to open, the verifier that goes with it, and the state to check
    /// the answer against. The verifier and the state are random.
    pub fn authorization_request(&self) -> (request: (String, String, String))
        ensures
            request.0@ == authorization_page(
                self@.client_id,
                challenge_for(request.1@),
                request.2@,
            ),
            request.1@.len() == 86,
            exists|raw: Seq<u8>|
                raw.len() == 64 && request.1@ == #[trigger] base64_url_encoded(raw),
            request.2@.len() == 32,
            exists|raw: Seq<u8>|
                raw.len() == 24 && request.2@ == #[trigger] base64_url_encoded(raw),
            all_url_safe(request.1@),
            all_url_safe(request.2@),
    {
        let (verifier, challenge) = pkce_pair();
        let raw = random_bytes(24);
        let state = base64_url(&raw);
        let url = self.authorization_url(challenge.as_str(), state.as_str());
        (url, verifier, state)
    }

    /// Trade an authorization code for tokens.
    pub fn complete_authorization(&self, code: &str, verifier: &str) -> (request: HttpRequest)
        ensures
            request@ == token_asks(code_form(self@.client_id, code@, verifier@)),
    {
        let mut form = no_pairs();
        push_pair(&mut form, "grant_type", "authorization_code");
        push_pair(&mut form, "code", code);
        push_pair(&mut form, "redirect_uri", REDIRECT_URI);
        push_pair(&mut form, "client_id", self.client_id.as_str());
        push_pair(&mut form, "code_verifier", verifier);
        assert(form.deep_view() =~= code_form(self@.client_id, code@, verifier@));
        token_request(form)
    }

    /// Trade the refresh token for a new access token.
    pub fn refresh_request(&self) -> (request: Result<HttpRequest, SpotifyError>)
        ensures
            match request {
                Ok(request) => self@.refresh_token matches Some(token) && request@ == token_asks(
                    refresh_form(self@.client_id, token),
                ),
                Err(error) => self@.refresh_token is None && error@
                    == SpotifyErrorView::LoginRequired,
            },
    {
        match &self.refresh_token {
            Some(token) => {
                let mut form = no_pairs();
                push_pair(&mut form, "grant_type", "refresh_token");
                push_pair(&mut form, "refresh_token", token.as_str());
                push_pair(&mut form, "client_id", self.client_id.as_str());
                assert(form.deep_view() =~= refresh_form(self@.client_id, token@));
                Ok(token_request(form))
            },
            None => Err(SpotifyError::LoginRequired),
        }
    }

    /// Take tokens that came. Returns the refresh token to store, where there is a new one.
    pub fn accept_token(&mut self, data: Option<&Json>) -> (to_store: Option<String>)
        ensures
            final(self)@ == with_tokens(old(self)@, viewed(data)),
            to_store.deep_view() == text_in(within(viewed(data), "refresh_token"@)),
    {
        if let Some(access) = as_text(get_within(data, "access_token")) {
            self.access_token = access;
        }
        if let Some(scope) = as_text(get_within(data, "scope")) {
            self.granted_scopes = Some(scope);
        }
        match as_text(get_within(data, "refresh_token")) {
            Some(token) => {
                self.refresh_token = Some(token.clone());
                Some(token)
            },
            None => None,
        }
    }

    /// Note whether a refresh token could be stored.
    pub fn stored(&mut self, saved: bool)
        ensures
            final(self)@ == (SpotifyView {
                cache_warning: if saved {
                    Seq::empty()
                } else {
                    unsaved_warning()
                },
                ..old(self)@
            }),
    {
        if saved {
            self.cache_warning = String::new();
        } else {
            self.cache_warning =
            "The sign-in could not be saved; you may need to authorize again next time.".to_owned();
        }
    }

    /// Take the reply to a request for tokens. Returns the refresh token to store, where there
    /// is a new one.
    pub fn take_tokens(&mut self, reply: &Reply) -> (to_store: Result<Option<String>, SpotifyError>)
        ensures
            match to_store {
                Ok(to_store) => {
                    &&& token_answers(reply@) matches Ok(data) && final(self)@ == with_tokens(
                        old(self)@,
                        data,
                    ) && to_store.deep_view() == text_in(within(data, "refresh_token"@))
                },
                Err(error) => token_answers(reply@) == Err::<Option<JsonView>, _>(error@)
                    && final(self)@ == old(self)@,
            },
    {
        match post_token(reply) {
            Ok(data) => Ok(self.accept_token(data.as_ref())),
            Err(error) => Err(error),
        }
    }

    /// Take up the stored session, given the refresh token that was stored.
    pub fn connect_session(&mut self, stored: Option<String>) -> (resume: Resume)
        ensures
            match stored {
                Some(token) => {
                    &&& final(self)@ == (SpotifyView {
                        refresh_token: Some(token@),
                        ..old(self)@
                    })
                    &&& resume matches Resume::Refresh(request) && request@ == token_asks(
                        refresh_form(old(self)@.client_id, token@),
                    )
                },
                None => final(self)@ == old(self)@ && resume == Resume::Browser,
            },
    {
        match stored {
            Some(token) => {
                self.refresh_token = Some(token);
                match self.refresh_request() {
                    Ok(request) => Resume::Refresh(request),
                    Err(_) => Resume::Browser,
                }
            },
            None => Resume::Browser,
        }
    }

    /// Take up the stored session, given the reply to the request for new tokens. Only an
    /// explicit rejection clears the stored session; a network blip must not.
    pub fn session_resumed(&mut self, reply: &Reply) -> (resumed: Resumed)
        ensures
            match token_answers(reply@) {
                Ok(data) => {
                    &&& final(self)@ == with_tokens(old(self)@, data)
                    &&& resumed.needs_browser == Ok::<bool, SpotifyError>(
                        !may_control(final(self)@.granted_scopes),
                    )
                    &&& !resumed.clear_stored
                    &&& resumed.to_store.deep_view() == text_in(within(data, "refresh_token"@))
                },
                Err(SpotifyErrorView::LoginRequired) => {
                    &&& final(self)@ == (SpotifyView {
                        refresh_token: None,
                        granted_scopes: None,
                        ..old(self)@
                    })
                    &&& resumed.needs_browser == Ok::<bool, SpotifyError>(true)
                    &&& resumed.clear_stored
                    &&& resumed.to_store is None
                },
                Err(error) => {
                    &&& final(self)@ == old(self)@
                    &&& resumed.needs_browser matches Err(shown) && shown@ == error
                    &&& !resumed.clear_stored
                    &&& resumed.to_store is None
                },
            },
    {
        match self.take_tokens(reply) {
            Ok(to_store) => Resumed {
                needs_browser: Ok(!self.has_control_scope()),
                clear_stored: false,
                to_store,
            },
            Err(SpotifyError::LoginRequired) => {
                self.refresh_token = None;
                self.granted_scopes = None;
                Resumed { needs_browser: Ok(true), clear_stored: true, to_store: None }
            },
            Err(error) => Resumed {
                needs_browser: Err(error),
                clear_stored: false,
                to_store: None,
            },
        }
    }
}

/// A stored session is only ever given up where Spotify itself answered and said so: nothing that
/// goes wrong on the way does it, nor any answer but a refusal.
pub proof fn a_network_blip_never_clears_the_session(reply: ReplyView)
    requires
        token_answers(reply) == Err::<Option<JsonView>, _>(SpotifyErrorView::LoginRequired),
    ensures
        reply matches ReplyView::Answered { status, body } && !success(status) && (status == 400
            || text_or_empty(within(body_json(body), "error"@)) == "invalid_grant"@),
{
}

// ----------------------------------------------------------------------------- calls

/// One call that is made with the access token.
pub open spec fn call_asks(
    access_token: Seq<char>,
    method: Method,
    path: Seq<char>,
    query: Seq<(Seq<char>, Seq<char>)>,
) -> RequestView {
    RequestView {
        method,
        url: API_BASE@ + path,
        query,
        form: Seq::empty(),
        headers: seq![("Authorization"@, "Bearer "@ + access_token), ("Content-Length"@, "0"@)],
    }
}

/// What the reply to a call comes to.
#[derive(Debug)]
pub enum Called {
    /// The access token has expired: refresh it and make the call once more.
    Refresh,
    Done(Result<Option<Json>, SpotifyError>),
}

/// What a [`Called`] says.
pub ghost enum CalledView {
    Refresh,
    Done(Result<Option<JsonView>, SpotifyErrorView>),
}

impl View for Called {
    type V = CalledView;

    open spec fn view(&self) -> CalledView {
        match *self {
            Called::Refresh => CalledView::Refresh,
            Called::Done(json) => CalledView::Done(json_view(json)),
        }
    }
}

/// How long Spotify wants to be left alone, in seconds.
pub open spec fn pause_asked(retry_after: Option<Seq<char>>) -> u64 {
    match retry_after {
        Some(text) => match parsed_u64(text) {
            Some(seconds) => seconds,
            None => 10,
        },
        None => 10,
    }
}

/// What Spotify says of a call that it turned down.
pub open spec fn refusal_message(body: Option<JsonView>) -> Seq<char> {
    match text_in(within(within(body, "error"@), "message"@)) {
        Some(message) => message,
        None => "Spotify rejected the request"@,
    }
}

/// What the reply to a call comes to, `first` where it is the first time that it is made.
pub open spec fn call_answers(
    reply: ReplyView,
    retry_after: Option<Seq<char>>,
    first: bool,
) -> CalledView {
    match reply {
        ReplyView::Failed(fault) => CalledView::Done(Err(fault_in_spotify(fault))),
        ReplyView::Answered { status, body } => if status == 401 && first {
            CalledView::Refresh
        } else if status == 429 {
            CalledView::Done(
                Err(SpotifyErrorView::RateLimited { retry_after: pause_asked(retry_after) }),
            )
        } else if status == 204 {
            CalledView::Done(Ok(None))
        } else if success(status) {
            match body {
                Err(fault) => CalledView::Done(Err(fault_in_spotify(fault))),
                Ok(bytes) => CalledView::Done(
                    Ok(
                        if bytes.len() == 0 {
                            None
                        } else {
                            json_in_bytes(bytes)
                        },
                    ),
                ),
            }
        } else {
            CalledView::Done(
                Err(
                    SpotifyErrorView::Refused { status, message: refusal_message(body_json(body)) },
                ),
            )
        },
    }
}

/// What Spotify says of a call that it turned down.
pub fn message_of(body: Option<&Json>) -> (message: String)
    ensures
        message@ == refusal_message(viewed(body)),
{
    match as_text(get_within(get_within(body, "error"), "message")) {
        Some(message) => message,
        None => "Spotify rejected the request".to_owned(),
    }
}

/// Read the reply to a call, `first` where it is the first time that it is made.
pub fn read_call(reply: &Reply, retry_after: Option<&str>, first: bool) -> (called: Called)
    ensures
        called@ == call_answers(
            reply@,
            match retry_after {
                Some(text) => Some(text@),
                None => None,
            },
            first,
        ),
{
    match reply {
        Reply::Failed(fault) => Called::Done(Err(SpotifyError::from_fault(*fault))),
        Reply::Answered { status, body } => {
            let status = *status;
            if status == 401 && first {
                return Called::Refresh;
            }
            if status == 429 {
                let seconds = match retry_after {
                    Some(text) => match parse_u64(&chars_of(text)) {
                        Some(seconds) => seconds,
                        None => 10,
                    },
                    None => 10,
                };
                return Called::Done(Err(SpotifyError::RateLimited { retry_after: seconds }));
            }
            if status == 204 {
                return Called::Done(Ok(None));
            }
            if is_success(status) {
                return match body {
                    Err(fault) => Called::Done(Err(SpotifyError::from_fault(*fault))),
                    Ok(bytes) => if bytes.len() == 0 {
                        Called::Done(Ok(None))
                    } else {
                        Called::Done(Ok(parse_bytes(bytes)))
                    },
                };
            }
            let json = read_body(body);
            Called::Done(
                Err(SpotifyError::Refused { status, message: message_of(json.as_ref()) }),
            )
        },
    }
}

/// Ask for the player state.
pub open spec fn playback_asks(access_token: Seq<char>) -> RequestView {
    call_asks(access_token, Method::Get, "/me/player"@, Seq::empty())
}

/// Ask for a transport action. The position is a query parameter, not a body field.
pub open spec fn control_asks(access_token: Seq<char>, control: Control) -> RequestView {
    match control {
        Control::Play => call_asks(access_token, Method::Put, "/me/player/play"@, Seq::empty()),
        Control::Pause => call_asks(access_token, Method::Put, "/me/player/pause"@, Seq::empty()),
        Control::Next => call_asks(access_token, Method::Post, "/me/player/next"@, Seq::empty()),
        Control::Previous => call_asks(
            access_token,
            Method::Post,
            "/me/player/previous"@,
            Seq::empty(),
        ),
        Control::Seek(position_ms) => call_asks(
            access_token,
            Method::Put,
            "/me/player/seek"@,
            seq![
                (
                    "position_ms"@,
                    decimal(
                        if position_ms < 0 {
                            0
                        } else {
                            position_ms as int
                        },
                    ),
                ),
            ],
        ),
    }
}

impl Spotify {
    fn call(&self, method: Method, path: &str, query: Vec<(String, String)>) -> (request:
        HttpRequest)
        ensures
            request@ == call_asks(self@.access_token, method, path@, query.deep_view()),
    {
        let mut url = API_BASE.to_owned();
        url.append(path);
        let mut bearer = "Bearer ".to_owned();
        bearer.append(self.access_token.as_str());
        let mut headers = no_pairs();
        push_pair(&mut headers, "Authorization", bearer.as_str());
        push_pair(&mut headers, "Content-Length", "0");
        let request = HttpRequest { method, url, query, form: no_pairs(), headers };
        assert(request@.headers =~= call_asks(
            self@.access_token,
            method,
            path@,
            query.deep_view(),
        ).headers);
        request
    }

    /// Ask for the player state: it reports which transport actions Spotify will currently
    /// accept.
    pub fn playback_request(&self) -> (request: HttpRequest)
        ensures
            request@ == playback_asks(self@.access_token),
    {
        self.call(Method::Get, "/me/player", no_pairs())
    }

    /// Ask for a transport action.
    pub fn control_request(&self, control: Control) -> (request: HttpRequest)
        ensures
            request@ == control_asks(self@.access_token, control),
    {
        match control {
            Control::Play => self.call(Method::Put, "/me/player/play", no_pairs()),
            Control::Pause => self.call(Method::Put, "/me/player/pause", no_pairs()),
            Control::Next => self.call(Method::Post, "/me/player/next", no_pairs()),
            Control::Previous => self.call(Method::Post, "/me/player/previous", no_pairs()),
            Control::Seek(position_ms) => {
                let position = decimal_text(
                    if position_ms < 0 {
                        0
                    } else {
                        position_ms
                    },
                );
                let mut params = no_pairs();
                push_pair(&mut params, "position_ms", position.as_str());
                assert(params.deep_view() =~= control_asks(self@.access_token, control).query);
                self.call(Method::Put, "/me/player/seek", params)
            },
        }
    }
}

/// What a call is made for.
#[derive(Debug, Clone, Copy, PartialEq, Eq, Structural)]
pub enum Purpose {
    Playback,
    Control(Control),
}

/// The call for a purpose.
pub open spec fn purpose_asks(access_token: Seq<char>, purpose: Purpose) -> RequestView {
    match purpose {
        Purpose::Playback => playback_asks(access_token),
        Purpose::Control(control) => control_asks(access_token, control),
    }
}

/// What the reply that is waited for is to.
#[derive(Debug, Clone, Copy, PartialEq, Eq, Structural)]
pub enum CallStage {
    /// The call.
    First,
    /// The request for a new access token.
    Refreshing,
    /// The call, made once more.
    Second,
}

/// How a call goes on.
#[derive(Debug)]
pub enum CallNext {
    /// Store the refresh token, where there is one, then send the request.
    Send { stage: CallStage, to_store: Option<String>, request: HttpRequest },
    Done(Result<Option<Json>, SpotifyError>),
}

/// What a [`CallNext`] says.
pub ghost enum CallNextView {
    Send { stage: CallStage, to_store: Option<Seq<char>>, request: RequestView },
    Done(Result<Option<JsonView>, SpotifyErrorView>),
}

impl View for CallNext {
    type V = CallNextView;

    open spec fn view(&self) -> CallNextView {
        match *self {
            CallNext::Send { stage, to_store, request } => CallNextView::Send {
                stage,
                to_store: to_store.deep_view(),
                request: request@,
            },
            CallNext::Done(json) => CallNextView::Done(json_view(json)),
        }
    }
}

/// The account after a reply, and how the call goes on.
pub open spec fn call_goes_on(
    account: SpotifyView,
    purpose: Purpose,
    stage: CallStage,
    reply: ReplyView,
    retry_after: Option<Seq<char>>,
) -> (SpotifyView, CallNextView) {
    match stage {
        CallStage::First => match call_answers(reply, retry_after, true) {
            CalledView::Done(json) => (account, CallNextView::Done(json)),
            CalledView::Refresh => match account.refresh_token {
                Some(token) => (
                    account,
                    CallNextView::Send {
                        stage: CallStage::Refreshing,
                        to_store: None,
                        request: token_asks(refresh_form(account.client_id, token)),
                    },
                ),
                None => (account, CallNextView::Done(Err(SpotifyErrorView::LoginRequired))),
            },
        },
        CallStage::Refreshing => match token_answers(reply) {
            Ok(data) => (
                with_tokens(account, data),
                CallNextView::Send {
                    stage: CallStage::Second,
                    to_store: text_in(within(data, "refresh_token"@)),
                    request: purpose_asks(with_tokens(account, data).access_token, purpose),
                },
            ),
            Err(error) => (account, CallNextView::Done(Err(error))),
        },
        CallStage::Second => match call_answers(reply, retry_after, false) {
            CalledView::Done(json) => (account, CallNextView::Done(json)),
            CalledView::Refresh => (
                account,
                CallNextView::Done(Err(SpotifyErrorView::LoginRequired)),
            ),
        },
    }
}

impl Spotify {
    /// Make a call.
    pub fn start_call(&self, purpose: Purpose) -> (request: HttpRequest)
        ensures
            request@ == purpose_asks(self@.access_token, purpose),
    {
        match purpose {
            Purpose::Playback => self.playback_request(),
            Purpose::Control(control) => self.control_request(control),
        }
    }

    /// Go on with a call after a reply: it is made once more after refreshing an expired token.
    pub fn continue_call(
        &mut self,
        purpose: Purpose,
        stage: CallStage,
        reply: &Reply,
        retry_after: Option<&str>,
    ) -> (next: CallNext)
        ensures
            (final(self)@, next@) == call_goes_on(
                old(self)@,
                purpose,
                stage,
                reply@,
                match retry_after {
                    Some(text) => Some(text@),
                    None => None,
                },
            ),
    {
        match stage {
            CallStage::First => match read_call(reply, retry_after, true) {
                Called::Done(json) => CallNext::Done(json),
                Called::Refresh => match self.refresh_request() {
                    Ok(request) => CallNext::Send {
                        stage: CallStage::Refreshing,
                        to_store: None,
                        request,
                    },
                    Err(error) => CallNext::Done(Err(error)),
                },
            },
            CallStage::Refreshing => match self.take_tokens(reply) {
                Ok(to_store) => CallNext::Send {
                    stage: CallStage::Second,
                    to_store,
                    request: self.start_call(purpose),
                },
                Err(error) => CallNext::Done(Err(error)),
            },
            CallStage::Second => match read_call(reply, retry_after, false) {
                Called::Done(json) => CallNext::Done(json),
                Called::Refresh => CallNext::Done(Err(SpotifyError::LoginRequired)),
            },
        }
    }
}

/// A call comes to an end after three replies at most: the token is refreshed once, and the call
/// is made once more.
pub proof fn a_call_is_made_at_most_twice(
    account: SpotifyView,
    purpose: Purpose,
    first: ReplyView,
    second: ReplyView,
    third: ReplyView,
    retry_after: Option<Seq<char>>,
)
    ensures
        ({
            let (a, x) = call_goes_on(account, purpose, CallStage::First, first, retry_after);
            let (b, y) = call_goes_on(a, purpose, CallStage::Refreshing, second, retry_after);
            let (c, z) = call_goes_on(b, purpose, CallStage::Second, third, retry_after);
            &&& x matches CallNextView::Send { stage, .. } ==> stage == CallStage::Refreshing
            &&& y matches CallNextView::Send { stage, .. } ==> stage == CallStage::Second
            &&& z is Done
        }),
{
}

// -------------------------------------------------------------------------- playback

/// Whether the item that is playing is a track.
pub open spec fn plays_track(item: Option<JsonView>) -> bool {
    match text_in(within(item, "type"@)) {
        Some(kind) => kind == "track"@,
        None => item matches Some(JsonView::Object(_)),
    }
}

/// The names of those of the first `n` artists that have one.
pub open spec fn names_of_artists(artists: Seq<JsonView>, n: int) -> Seq<Seq<char>>
    decreases n,
{
    if n <= 0 {
        Seq::empty()
    } else {
        match text_in(field(artists[n - 1], "name"@)) {
            Some(name) => names_of_artists(artists, n - 1).push(name),
            None => names_of_artists(artists, n - 1),
        }
    }
}

/// The names in a list of artists.
pub open spec fn artists_in(list: Option<JsonView>) -> Seq<Seq<char>> {
    match items_in(list) {
        Some(artists) => names_of_artists(artists, artists.len() as int),
        None => Seq::empty(),
    }
}

/// The address of the first picture in a list, which Spotify has widest first.
pub open spec fn first_picture(list: Option<JsonView>) -> Option<Seq<char>> {
    match items_in(list) {
        Some(images) if images.len() > 0 => text_in(field(images[0], "url"@)),
        _ => None,
    }
}

/// Whether a transport action is not among those that Spotify disallows.
pub open spec fn allowed(data: JsonView, action: Seq<char>) -> bool {
    bool_in(within(within(field(data, "actions"@), "disallows"@), action)) != Some(true)
}

/// What the player state says is playing.
pub open spec fn playback_in(data: Option<JsonView>) -> PlaybackView {
    match data {
        None => nothing_playing(PlayerKind::Spotify),
        Some(data) => {
            let item = field(data, "item"@);
            if !plays_track(item) {
                nothing_playing(PlayerKind::Spotify)
            } else {
                PlaybackView {
                    track_id: text_or_empty(within(item, "id"@)),
                    name: text_or_empty(within(item, "name"@)),
                    artists: artists_in(within(item, "artists"@)),
                    album: text_or_empty(within(within(item, "album"@), "name"@)),
                    album_art: first_picture(within(within(item, "album"@), "images"@)),
                    duration_ms: match integer_in(within(item, "duration_ms"@)) {
                        Some(ms) => ms,
                        None => 0,
                    },
                    progress_ms: integer_in(field(data, "progress_ms"@)),
                    is_playing: bool_in(field(data, "is_playing"@)) == Some(true),
                    has_track: true,
                    can_skip_next: allowed(data, "skipping_next"@),
                    can_skip_previous: allowed(data, "skipping_prev"@),
                    can_seek: allowed(data, "seeking"@),
                    device_name: text_in(within(field(data, "device"@), "name"@)),
                    source: PlayerKind::Spotify,
                }
            }
        },
    }
}

fn read_artists(list: Option<&Json>) -> (names: Vec<String>)
    ensures
        names.deep_view() == artists_in(viewed(list)),
{
    let mut names: Vec<String> = Vec::new();
    assert(names.deep_view() =~= Seq::empty());
    if let Some(artists) = as_array(list) {
        let ghost views = items_in(viewed(list))->0;
        let mut i: usize = 0;
        while i < artists.len()
            invariant
                i <= artists@.len(),
                views == items_in(viewed(list))->0,
                views.len() == artists@.len(),
                forall|j: int| 0 <= j < artists@.len() ==> (#[trigger] artists@[j])@ == views[j],
                names.deep_view() == names_of_artists(views, i as int),
            decreases artists@.len() - i,
        {
            let ghost before = names.deep_view();
            if let Some(name) = as_text(artists[i].get("name")) {
                let ghost view = name@;
                names.push(name);
                assert(names.deep_view() =~= before.push(view));
            }
            i += 1;
        }
    }
    names
}

fn read_picture(list: Option<&Json>) -> (address: Option<String>)
    ensures
        address.deep_view() == first_picture(viewed(list)),
{
    match as_array(list) {
        Some(images) => if images.len() > 0 {
            assert(images@[0]@ == items_in(viewed(list))->0[0]);
            as_text(images[0].get("url"))
        } else {
            None
        },
        None => None,
    }
}

fn is_allowed(data: &Json, action: &str) -> (r: bool)
    ensures
        r == allowed(data@, action@),
{
    match as_bool(get_within(get_within(data.get("actions"), "disallows"), action)) {
        Some(disallowed) => !disallowed,
        None => true,
    }
}

/// What the player state says is playing.
pub fn playback(data: Option<&Json>) -> (playback: Playback)
    ensures
        playback@ == playback_in(viewed(data)),
{
    let data = match data {
        Some(data) => data,
        None => return Playback::nothing(PlayerKind::Spotify),
    };
    let item = data.get("item");
    let is_track = match as_text(get_within(item, "type")) {
        Some(kind) => same(kind.as_str(), "track"),
        None => is_object(item),
    };
    if !is_track {
        return Playback::nothing(PlayerKind::Spotify);
    }
    let album = get_within(item, "album");
    Playback {
        track_id: as_text_or_empty(get_within(item, "id")),
        name: as_text_or_empty(get_within(item, "name")),
        artists: read_artists(get_within(item, "artists")),
        album: as_text_or_empty(get_within(album, "name")),
        album_art: read_picture(get_within(album, "images")),
        duration_ms: match as_i64(get_within(item, "duration_ms")) {
            Some(ms) => ms,
            None => 0,
        },
        progress_ms: as_i64(data.get("progress_ms")),
        is_playing: match as_bool(data.get("is_playing")) {
            Some(playing) => playing,
            None => false,
        },
        has_track: true,
        can_skip_next: is_allowed(data, "skipping_next"),
        can_skip_previous: is_allowed(data, "skipping_prev"),
        can_seek: is_allowed(data, "seeking"),
        device_name: as_text(get_within(data.get("device"), "name")),
        source: PlayerKind::Spotify,
    }
}

// -------------------------------------------------------------------------- callback

/// What the browser brings back.
#[derive(Debug)]
pub struct Fields {
    pub code: Option<String>,
    pub state: Option<String>,
    pub error: Option<String>,
}

/// What a [`Fields`] says.
pub ghost struct FieldsView {
    pub code: Option<Seq<char>>,
    pub state: Option<Seq<char>>,
    pub error: Option<Seq<char>>,
}

impl View for Fields {
    type V = FieldsView;

    open spec fn view(&self) -> FieldsView {
        FieldsView {
            code: self.code.deep_view(),
            state: self.state.deep_view(),
            error: self.error.deep_view(),
        }
    }
}

/// What to do about one request to the loopback address.
#[derive(Debug)]
pub struct Callback {
    /// What the browser shows.
    pub shown: &'static str,
    /// What the sign-in came to; `None` where the right request is still waited for.
    pub end: Option<Result<String, SpotifyError>>,
}

/// What a [`Callback`] says.
pub ghost struct CallbackView {
    pub shown: Seq<char>,
    pub end: Option<Result<Seq<char>, SpotifyErrorView>>,
}

impl View for Callback {
    type V = CallbackView;

    open spec fn view(&self) -> CallbackView {
        CallbackView {
            shown: self.shown@,
            end: match self.end {
                Some(Ok(code)) => Some(Ok(code@)),
                Some(Err(error)) => Some(Err(error@)),
                None => None,
            },
        }
    }
}

/// The value of a parameter, empty where it cannot be decoded.
pub open spec fn value_of(encoded: Seq<char>) -> Seq<char> {
    match percent_decoded(encoded) {
        Some(value) => value,
        None => Seq::empty(),
    }
}

/// The value that a pair gives to a parameter, where it gives it one.
pub open spec fn pair_value(pair: Seq<char>, name: Seq<char>) -> Option<Seq<char>> {
    match split_once(pair, '=') {
        Some((key, encoded)) if key == name => Some(value_of(encoded)),
        _ => None,
    }
}

/// The value that the last of the first `n` pairs to name a parameter gives it.
pub open spec fn last_value(pairs: Seq<Seq<char>>, name: Seq<char>, n: int) -> Option<Seq<char>>
    decreases n,
{
    if n <= 0 {
        None
    } else {
        match pair_value(pairs[n - 1], name) {
            Some(value) => Some(value),
            None => last_value(pairs, name, n - 1),
        }
    }
}

/// The parameters behind an address.
pub open spec fn pairs_in(query: Seq<char>) -> Seq<Seq<char>> {
    split(query, crate::text::at_any(seq!['&']))
}

/// The fields in the parameters behind an address.
pub open spec fn fields_in(query: Seq<char>) -> FieldsView {
    let pairs = pairs_in(query);
    FieldsView {
        code: last_value(pairs, "code"@, pairs.len() as int),
        state: last_value(pairs, "state"@, pairs.len() as int),
        error: last_value(pairs, "error"@, pairs.len() as int),
    }
}

/// What a request that is not the right one is answered.
pub open spec fn sign_in_failed() -> CallbackView {
    CallbackView { shown: "Sign-in failed. You can close this tab."@, end: None }
}

/// What the fields of a callback come to. A mismatched state means that this callback did not
/// come from this app's request.
pub open spec fn fields_outcome(expected_state: Seq<char>, fields: FieldsView) -> CallbackView {
    if fields.error is Some {
        CallbackView {
            shown: "Sign-in was cancelled. You can close this tab."@,
            end: Some(Err(SpotifyErrorView::Config("Spotify returned: "@ + fields.error->0))),
        }
    } else if fields.state != Some(expected_state) {
        sign_in_failed()
    } else {
        match fields.code {
            Some(code) => CallbackView {
                shown: "Signed in. You can close this tab."@,
                end: Some(Ok(code)),
            },
            None => sign_in_failed(),
        }
    }
}

/// What a request for this target comes to.
pub open spec fn target_outcome(expected_state: Seq<char>, target: Seq<char>) -> CallbackView {
    match split_once(target, '?') {
        None => sign_in_failed(),
        Some((path, query)) => if path != "/callback"@ {
            CallbackView { shown: "Not found."@, end: None }
        } else {
            fields_outcome(expected_state, fields_in(query))
        },
    }
}

/// The target that a request line asks for.
pub open spec fn target_in(line: Seq<char>) -> Option<Seq<char>> {
    if words(line).len() > 1 {
        Some(words(line)[1])
    } else {
        None
    }
}

/// What a request with this first line comes to, `None` where none could be read.
pub open spec fn callback_outcome(expected_state: Seq<char>, line: Option<Seq<char>>) -> CallbackView {
    match line {
        None => sign_in_failed(),
        Some(line) => match target_in(line) {
            None => sign_in_failed(),
            Some(target) => target_outcome(expected_state, target),
        },
    }
}

/// The target that a request line asks for.
pub fn read_request_target(line: &str) -> (target: Option<String>)
    ensures
        target.deep_view() == target_in(line@),
{
    let list = split_words(line);
    assert(list@.len() == list.deep_view().len());
    if list.len() > 1 {
        assert(list.deep_view()[1] == list@[1]@);
        Some(list[1].clone())
    } else {
        None
    }
}

/// The fields in the parameters behind an address.
pub fn read_fields(query: &str) -> (fields: Fields)
    ensures
        fields@ == fields_in(query@),
{
    let separators = ['&'];
    assert(separators@ =~= seq!['&']);
    let pairs = split_any(&chars_of(query), &separators);
    let ghost views = pairs_in(query@);
    let mut code: Option<String> = None;
    let mut state: Option<String> = None;
    let mut error: Option<String> = None;
    let mut i: usize = 0;
    proof {
        reveal_strlit("code");
        reveal_strlit("state");
        reveal_strlit("error");
        assert("state"@[0] == 's' && "error"@[0] == 'e' && "code"@[0] == 'c');
    }
    while i < pairs.len()
        invariant
            i <= pairs@.len(),
            views == pairs.deep_view(),
            "code"@ != "state"@,
            "code"@ != "error"@,
            "state"@ != "error"@,
            code.deep_view() == last_value(views, "code"@, i as int),
            state.deep_view() == last_value(views, "state"@, i as int),
            error.deep_view() == last_value(views, "error"@, i as int),
        decreases pairs@.len() - i,
    {
        assert(views[i as int] == pairs@[i as int]@);
        if let Some((key, encoded)) = cut_once(pairs[i].as_str(), '=') {
            let value = match percent_decode(encoded.as_str()) {
                Some(value) => value,
                None => String::new(),
            };
            if same(key.as_str(), "code") {
                code = Some(value);
            } else if same(key.as_str(), "state") {
                state = Some(value);
            } else if same(key.as_str(), "error") {
                error = Some(value);
            }
        }
        i += 1;
    }
    Fields { code, state, error }
}

/// What the fields of a callback come to.
pub fn check_fields(expected_state: &str, fields: Fields) -> (callback: Callback)
    ensures
        callback@ == fields_outcome(expected_state@, fields@),
{
    if let Some(error) = fields.error {
        let mut text = "Spotify returned: ".to_owned();
        text.append(error.as_str());
        return Callback {
            shown: "Sign-in was cancelled. You can close this tab.",
            end: Some(Err(SpotifyError::Config(text))),
        };
    }
    let ours = match &fields.state {
        Some(state) => same(state.as_str(), expected_state),
        None => false,
    };
    if !ours {
        return Callback { shown: "Sign-in failed. You can close this tab.", end: None };
    }
    match fields.code {
        Some(code) => Callback { shown: "Signed in. You can close this tab.", end: Some(Ok(code)) },
        None => Callback { shown: "Sign-in failed. You can close this tab.", end: None },
    }
}

/// How many more milliseconds to wait for the callback, this long after the page was opened.
/// Nobody is waited for longer than [`AUTH_TIMEOUT_SECONDS`].
pub fn sign_in_wait(elapsed_ms: u64) -> (left: Result<u64, SpotifyError>)
    ensures
        match left {
            Ok(ms) => elapsed_ms < AUTH_TIMEOUT_SECONDS * 1000 && ms == AUTH_TIMEOUT_SECONDS * 1000
                - elapsed_ms,
            Err(error) => elapsed_ms >= AUTH_TIMEOUT_SECONDS * 1000 && error@
                == SpotifyErrorView::Network("Sign-in timed out"@),
        },
{
    if elapsed_ms < AUTH_TIMEOUT_SECONDS * 1000 {
        Ok(AUTH_TIMEOUT_SECONDS * 1000 - elapsed_ms)
    } else {
        Err(SpotifyError::Network("Sign-in timed out".to_owned()))
    }
}

/// What a request with this first line comes to, `None` where none could be read.
pub fn wait_for_callback(expected_state: &str, line: Option<&str>) -> (callback: Callback)
    ensures
        callback@ == callback_outcome(
            expected_state@,
            match line {
                Some(line) => Some(line@),
                None => None,
            },
        ),
{
    let target = match line {
        Some(line) => read_request_target(line),
        None => None,
    };
    match target {
        None => Callback { shown: "Sign-in failed. You can close this tab.", end: None },
        Some(target) => match cut_once(target.as_str(), '?') {
            None => Callback { shown: "Sign-in failed. You can close this tab.", end: None },
            Some((path, query)) => if !same(path.as_str(), "/callback") {
                Callback { shown: "Not found.", end: None }
            } else {
                check_fields(expected_state, read_fields(query.as_str()))
            },
        },
    }
}

/// A sign-in only ever succeeds on a callback that carries the state of this app's own request.
pub proof fn a_foreign_callback_never_signs_in(expected_state: Seq<char>, target: Seq<char>)
    ensures
        target_outcome(expected_state, target).end matches Some(Ok(code)) ==> exists|
            path: Seq<char>,
            query: Seq<char>,
        | #[trigger]
            is_cut(target, path, query) && fields_in(query).state == Some(expected_state)
                && fields_in(query).code == Some(code),
{
    if let Some((path, query)) = split_once(target, '?') {
        assert(is_cut(target, path, query));
    }
}

/// Whether a target is this path with these parameters behind it.
pub open spec fn is_cut(target: Seq<char>, path: Seq<char>, query: Seq<char>) -> bool {
    split_once(target, '?') == Some((path, query))
}

/// The callback that Spotify sends after the reader said yes is accepted: with the state of the
/// request and a code, both percent-encoded, the sign-in ends with that code.
pub proof fn the_right_callback_signs_in(state: Seq<char>, code: Seq<char>)
    ensures
        target_outcome(
            state,
            "/callback?code="@ + percent_encoded(code) + "&state="@ + percent_encoded(state),
        ) == (CallbackView {
            shown: "Signed in. You can close this tab."@,
            end: Some(Ok(code)),
        }),
{
    percent_encoding_is_undone(state);
    percent_encoding_is_undone(code);
    any_right_callback_signs_in(state, code, percent_encoded(state), percent_encoded(code));
}

/// However the state and the code are escaped, what they decode to counts.
proof fn any_right_callback_signs_in(
    state: Seq<char>,
    code: Seq<char>,
    state_encoded: Seq<char>,
    code_encoded: Seq<char>,
)
    requires
        all_percent_safe(state_encoded),
        all_percent_safe(code_encoded),
        percent_decoded(state_encoded) == Some(state),
        percent_decoded(code_encoded) == Some(code),
    ensures
        target_outcome(
            state,
            "/callback?code="@ + code_encoded + "&state="@ + state_encoded,
        ) == (CallbackView {
            shown: "Signed in. You can close this tab."@,
            end: Some(Ok(code)),
        }),
{
    reveal_strlit("/callback?code=");
    reveal_strlit("/callback");
    reveal_strlit("&state=");
    reveal_strlit("code");
    reveal_strlit("state");
    reveal_strlit("error");
    let cut = crate::text::at_any(seq!['&']);
    assert(seq!['&'].contains('&')) by {
        assert(seq!['&'][0] == '&');
    }
    let target = "/callback?code="@ + code_encoded + "&state="@ + state_encoded;
    let first = "code"@.push('=') + code_encoded;
    let second = "state"@.push('=') + state_encoded;
    let query = first.push('&') + second;
    assert("/callback"@.push('?') + query =~= target);
    assert(!"/callback"@.contains('?'));
    crate::text::the_first_separator_cuts("/callback"@, '?', query);

    assert forall|i: int| 0 <= i < first.len() implies !cut(#[trigger] first[i]) by {
        if i >= 5 {
            assert(first[i] == code_encoded[i - 5]);
        }
    }
    assert forall|i: int| 0 <= i < second.len() implies !cut(#[trigger] second[i]) by {
        if i >= 6 {
            assert(second[i] == state_encoded[i - 6]);
        }
    }
    crate::text::a_text_without_cuts_is_one_piece(first, cut);
    crate::text::a_text_without_cuts_is_one_piece(second, cut);
    crate::text::a_cut_parts_the_pieces(first, '&', second, cut);
    assert(pairs_in(query) =~= seq![first, second]);

    assert(!"code"@.contains('='));
    assert(!"state"@.contains('='));
    crate::text::the_first_separator_cuts("code"@, '=', code_encoded);
    crate::text::the_first_separator_cuts("state"@, '=', state_encoded);
    assert("state"@[0] == 's' && "error"@[0] == 'e' && "code"@[0] == 'c');
    let pairs = pairs_in(query);
    reveal_with_fuel(last_value, 3);
    assert(pair_value(pairs[0], "code"@) == Some(code));
    assert(pair_value(pairs[1], "state"@) == Some(state));
    assert(pair_value(pairs[1], "code"@) is None);
    assert(pair_value(pairs[0], "error"@) is None);
    assert(pair_value(pairs[1], "error"@) is None);
}

/// The request line that a browser sends for a target asks for that target.
pub proof fn a_browser_asks_for_the_target(target: Seq<char>)
    requires
        target.len() > 0,
        forall|i: int| 0 <= i < target.len() ==> !crate::text::white_space(#[trigger] target[i]),
    ensures
        target_in("GET "@ + target + " HTTP/1.1\r\n"@) == Some(target),
{
    reveal_strlit("GET ");
    reveal_strlit("GET");
    reveal_strlit(" HTTP/1.1\r\n");
    reveal_strlit("HTTP/1.1\r\n");
    let line = "GET "@ + target + " HTTP/1.1\r\n"@;
    let front = "GET"@.push(' ') + target;
    assert(line =~= front.push(' ') + "HTTP/1.1\r\n"@);
    crate::text::white_space_parts_the_words(front, ' ', "HTTP/1.1\r\n"@);
    crate::text::white_space_parts_the_words("GET"@, ' ', target);
    crate::text::a_text_without_white_space_is_one_word("GET"@);
    crate::text::a_text_without_white_space_is_one_word(target);
    assert(words(line)[1] == target);
}

/// The page that the browser shows.
pub open spec fn page(message: Seq<char>) -> Seq<char> {
    "<!DOCTYPE html><html><head><meta charset=\"utf-8\"><title>Hakuro</title><style>body{background:#121212;color:#e8e8e8;font-family:system-ui,sans-serif;display:grid;place-items:center;height:100vh;margin:0}</style></head><body><p>"@
        + message + "</p></body></html>"@
}

/// The answer that the browser is sent, with the page and its length in bytes.
pub open spec fn page_response(message: Seq<char>) -> Seq<char> {
    "HTTP/1.1 200 OK\r\nContent-Type: text/html; charset=utf-8\r\nContent-Length: "@ + decimal(
        encode_utf8(page(message)).len() as int,
    ) + "\r\nConnection: close\r\n\r\n"@ + page(message)
}

/// The answer that the browser is sent.
pub fn respond(message: &str) -> (response: String)
    ensures
        response@ == page_response(message@),
{
    let body = concat3(
        "<!DOCTYPE html><html><head><meta charset=\"utf-8\"><title>Hakuro</title><style>body{background:#121212;color:#e8e8e8;font-family:system-ui,sans-serif;display:grid;place-items:center;height:100vh;margin:0}</style></head><body><p>",
        message,
        "</p></body></html>",
    );
    let length = crate::text::length_text(body.as_str().as_bytes().len());
    let mut response = concat3(
        "HTTP/1.1 200 OK\r\nContent-Type: text/html; charset=utf-8\r\nContent-Length: ",
        length.as_str(),
        "\r\nConnection: close\r\n\r\n",
    );
    response.append(body.as_str());
    response
}

} // verus!
