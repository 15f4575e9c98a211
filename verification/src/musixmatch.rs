//! Musixmatch (unofficial endpoint), the supplier behind Spotify's own lyrics, and the reason a
//! Japan-region track usually has a timeline somewhere.
//!
//! The classic desktop identity has been retired upstream and answers with a decoy all-zero
//! token, so it is deliberately not used. The live host limits its callers and can answer an
//! inner `401 captcha` inside an HTTP 200. Every failure mode here must therefore be
//! recoverable: the provider chain simply moves on.

use vstd::prelude::*;

use crate::double::{seconds_rounded, whole_seconds};
use crate::http::{
    is_success, no_pairs, push_pair, success, HttpRequest, Method, Reply, ReplyView, RequestView,
};
use crate::json::{
    as_array, as_double_bits, as_i64, as_text, as_text_or_empty, double_in, field, get_within,
    integer_in, items_in, json_in_bytes, parse_bytes, text_in, text_or_empty, viewed, within, Json,
    JsonView,
};
use crate::lrc::{lrc_cues, parse_lrc, Cue, CueView};
use crate::matching::is_match;
use crate::petitlyrics::{cues_view, mxm_subtitle, parse_mxm_subtitle};
use crate::providers::{
    any_words, fault_error, first_artist, has_words, lyrics_from_raw, no_lyrics, outcome,
    seconds_to_millis, single, str_field, text_field, timed, timed_lyrics, to_millis, LyricsResult,
    LyricsView, ProviderError, ProviderResult, QueryView, TrackQuery,
};
use crate::text::{chars_of, decimal, decimal_text, same, trim, trim_text};

verus! {

/// How long a token is used, in nanoseconds. The service documents no lifetime.
pub const TOKEN_TTL: u64 = 540_000_000_000;

/// How long no token is asked for after a refusal, in nanoseconds. Retrying on every track
/// change guarantees a permanent refusal.
pub const MINT_COOLDOWN: u64 = 600_000_000_000;

/// The identities under which a token is asked for, in this order; a refused identity is not a
/// dead provider.
#[derive(Debug, Clone, Copy, PartialEq, Eq, Structural)]
pub enum Identity {
    Android,
    Mac,
}

/// The identity, as the service calls it.
pub open spec fn app_id_of(identity: Identity) -> Seq<char> {
    match identity {
        Identity::Android => "android-player-v1.0"@,
        Identity::Mac => "mac-ios-v2.0"@,
    }
}

impl Identity {
    /// The identity, as the service calls it.
    pub fn app_id(self) -> (text: &'static str)
        ensures
            text@ == app_id_of(self),
    {
        match self {
            Identity::Android => "android-player-v1.0",
            Identity::Mac => "mac-ios-v2.0",
        }
    }
}

// -------------------------------------------------------------------------- sessions

/// An anonymous user token, and when it came, in nanoseconds on a clock that never goes back.
#[derive(Debug)]
pub struct Token {
    pub app_id: String,
    pub value: String,
    pub minted: u64,
}

/// What a [`Token`] says.
pub ghost struct TokenView {
    pub app_id: Seq<char>,
    pub value: Seq<char>,
    pub minted: u64,
}

impl View for Token {
    type V = TokenView;

    open spec fn view(&self) -> TokenView {
        TokenView { app_id: self.app_id@, value: self.value@, minted: self.minted }
    }
}

/// Holds the anonymous user token between lookups so every track change does not mint a new
/// one: rapid minting is exactly what triggers the captcha gate.
#[derive(Debug)]
pub struct Session {
    pub cached: Option<Token>,
    /// When the last mint was refused.
    pub refused_at: Option<u64>,
}

/// What a [`Session`] says.
pub ghost struct SessionView {
    pub cached: Option<TokenView>,
    pub refused_at: Option<u64>,
}

impl View for Session {
    type V = SessionView;

    open spec fn view(&self) -> SessionView {
        SessionView {
            cached: match self.cached {
                Some(token) => Some(token@),
                None => None,
            },
            refused_at: self.refused_at,
        }
    }
}

/// Whether less than a span has passed.
pub open spec fn within_span(since: u64, now: u64, span: u64) -> bool {
    now - since < span
}

/// The token to use now, where one is still good.
pub open spec fn good_token(session: SessionView, now: u64) -> Option<TokenView> {
    match session.cached {
        Some(token) if within_span(token.minted, now, TOKEN_TTL) => Some(token),
        _ => None,
    }
}

/// Whether a refusal is too recent to ask again.
pub open spec fn cooling_down(session: SessionView, now: u64) -> bool {
    session.refused_at matches Some(refused) && within_span(refused, now, MINT_COOLDOWN)
}

impl Session {
    pub fn new() -> (session: Self)
        ensures
            session@ == (SessionView { cached: None, refused_at: None }),
    {
        Session { cached: None, refused_at: None }
    }

    /// The token to use now, with the identity it belongs to, where one is still good.
    pub fn token(&self, now: u64) -> (token: Option<(String, String)>)
        ensures
            match token {
                Some(token) => good_token(self@, now) matches Some(good) && token.0@ == good.app_id
                    && token.1@ == good.value,
                None => good_token(self@, now) is None,
            },
    {
        match &self.cached {
            Some(token) => {
                let fresh = now < token.minted || now - token.minted < TOKEN_TTL;
                if fresh {
                    Some((token.app_id.clone(), token.value.clone()))
                } else {
                    None
                }
            },
            None => None,
        }
    }

    /// Whether a refusal is too recent to ask again.
    pub fn is_cooling_down(&self, now: u64) -> (r: bool)
        ensures
            r == cooling_down(self@, now),
    {
        match self.refused_at {
            Some(refused) => now < refused || now - refused < MINT_COOLDOWN,
            None => false,
        }
    }

    /// Keep a token that came now.
    fn keep(&mut self, app_id: &str, value: &str, now: u64)
        ensures
            final(self)@ == (SessionView {
                cached: Some(TokenView { app_id: app_id@, value: value@, minted: now }),
                refused_at: None,
            }),
    {
        self.cached = Some(
            Token { app_id: app_id.to_owned(), value: value.to_owned(), minted: now },
        );
        self.refused_at = None;
    }

    /// Note that no token was handed out now.
    fn refuse(&mut self, now: u64)
        ensures
            final(self)@ == (SessionView { refused_at: Some(now), ..old(self)@ }),
    {
        self.refused_at = Some(now);
    }

    /// Drop the token, so that the next lookup asks for another.
    pub fn forget(&mut self)
        ensures
            final(self)@ == (SessionView { cached: None, ..old(self)@ }),
    {
        self.cached = None;
    }
}

// --------------------------------------------------------------------------- minting

/// Ask for a token.
pub open spec fn mint_asks(identity: Identity) -> RequestView {
    RequestView {
        method: Method::Get,
        url: "https://apic.musixmatch.com/ws/1.1/token.get"@,
        query: seq![("app_id"@, app_id_of(identity)), ("user_language"@, "en"@)],
        form: Seq::empty(),
        headers: Seq::empty(),
    }
}

fn mint_request(identity: Identity) -> (request: HttpRequest)
    ensures
        request@ == mint_asks(identity),
{
    let mut params = no_pairs();
    push_pair(&mut params, "app_id", identity.app_id());
    push_pair(&mut params, "user_language", "en");
    let request = HttpRequest {
        method: Method::Get,
        url: "https://apic.musixmatch.com/ws/1.1/token.get".to_owned(),
        query: params,
        form: no_pairs(),
        headers: no_pairs(),
    };
    assert(request@.query =~= mint_asks(identity).query);
    request
}

/// The status inside the envelope. The transport can say 200 while the envelope says 401.
pub open spec fn envelope_status(data: JsonView) -> Option<i64> {
    integer_in(within(within(field(data, "message"@), "header"@), "status_code"@))
}

pub fn inner_status(data: &Json) -> (status: Option<i64>)
    ensures
        status == envelope_status(data@),
{
    as_i64(get_within(get_within(data.get("message"), "header"), "status_code"))
}

/// Whether a token is one of the sentinels this endpoint is known to hand out instead of one: an
/// empty text, one character repeated (the all-zero decoy), and `UpgradeRequired`.
pub open spec fn degenerate(token: Seq<char>) -> bool {
    token == "UpgradeRequired"@ || forall|i: int|
        0 <= i < token.len() ==> #[trigger] token[i] == token[0]
}

pub fn is_degenerate(token: &str) -> (r: bool)
    ensures
        r == degenerate(token@),
{
    if same(token, "UpgradeRequired") {
        return true;
    }
    let chars = chars_of(token);
    let mut i: usize = 0;
    while i < chars.len()
        invariant
            i <= chars@.len(),
            chars@ == token@,
            token@ != "UpgradeRequired"@,
            forall|j: int| 0 <= j < i ==> #[trigger] token@[j] == token@[0],
        decreases chars@.len() - i,
    {
        if chars[i] != chars[0] {
            assert(token@[i as int] != token@[0]);
            return false;
        }
        i += 1;
    }
    true
}

/// The token in an answer.
pub open spec fn minted_token(data: JsonView) -> Result<Seq<char>, ProviderError> {
    let token = text_or_empty(
        within(within(field(data, "message"@), "body"@), "user_token"@),
    );
    if envelope_status(data) != Some(200i64) {
        Err(ProviderError::Rejected)
    } else if degenerate(token) {
        Err(ProviderError::Rejected)
    } else {
        Ok(token)
    }
}

/// The token in a reply.
pub open spec fn mint_answers(reply: ReplyView) -> Result<Seq<char>, ProviderError> {
    match reply {
        ReplyView::Failed(fault) => Err(fault_error(fault)),
        ReplyView::Answered { status, body } => if !success(status) {
            Err(ProviderError::Http)
        } else {
            match body {
                Err(_) => Err(ProviderError::BadJson),
                Ok(bytes) => match json_in_bytes(bytes) {
                    None => Err(ProviderError::BadJson),
                    Some(data) => minted_token(data),
                },
            }
        },
    }
}

/// What a token that was read says.
pub open spec fn token_view(token: Result<String, ProviderError>) -> Result<
    Seq<char>,
    ProviderError,
> {
    match token {
        Ok(token) => Ok(token@),
        Err(error) => Err(error),
    }
}

/// Read the token in an answer.
pub fn read_token(data: &Json) -> (token: Result<String, ProviderError>)
    ensures
        token_view(token) == minted_token(data@),
{
    if inner_status(data) != Some(200) {
        return Err(ProviderError::Rejected);
    }
    let token = as_text_or_empty(
        get_within(get_within(data.get("message"), "body"), "user_token"),
    );
    if is_degenerate(token.as_str()) {
        return Err(ProviderError::Rejected);
    }
    Ok(token)
}

/// Read the token in a reply.
pub fn mint_token(reply: &Reply) -> (token: Result<String, ProviderError>)
    ensures
        token_view(token) == mint_answers(reply@),
{
    match reply {
        Reply::Failed(fault) => Err(ProviderError::from_fault(*fault)),
        Reply::Answered { status, body } => {
            if !is_success(*status) {
                return Err(ProviderError::Http);
            }
            match body {
                Err(_) => Err(ProviderError::BadJson),
                Ok(bytes) => match parse_bytes(bytes) {
                    None => Err(ProviderError::BadJson),
                    Some(data) => read_token(&data),
                },
            }
        },
    }
}

// --------------------------------------------------------------------------- the song

/// Ask for the subtitles of a song. The Spotify id is the strongest matching key this endpoint
/// accepts.
pub open spec fn subtitles_asks(
    query: QueryView,
    app_id: Seq<char>,
    token: Seq<char>,
) -> RequestView {
    let seconds = decimal(whole_seconds(query.duration_ms));
    let params = seq![
        ("format"@, "json"@),
        ("namespace"@, "lyrics_richsynched"@),
        ("subtitle_format"@, "lrc"@),
        ("app_id"@, app_id),
        ("usertoken"@, token),
        ("q_track"@, query.track),
        ("q_artist"@, first_artist(query.artists)),
        ("q_artists"@, first_artist(query.artists)),
        ("q_album"@, query.album),
        ("q_duration"@, seconds),
        ("f_subtitle_length"@, seconds),
    ];
    RequestView {
        method: Method::Get,
        url: "https://apic.musixmatch.com/ws/1.1/macro.subtitles.get"@,
        query: match query.spotify_id {
            Some(id) if id.len() > 0 => params.push(("track_spotify_id"@, id)),
            _ => params,
        },
        form: Seq::empty(),
        headers: Seq::empty(),
    }
}

fn subtitles_request(query: &TrackQuery, app_id: &str, token: &str) -> (request: HttpRequest)
    ensures
        request@ == subtitles_asks(query@, app_id@, token@),
{
    let seconds = decimal_text(seconds_rounded(query.duration_ms));
    let artist = query.primary_artist();
    let mut params = no_pairs();
    push_pair(&mut params, "format", "json");
    push_pair(&mut params, "namespace", "lyrics_richsynched");
    // `lrc` hands back ready LRC text; cue JSON is handled too, because sources disagree on
    // which format this identity actually honours.
    push_pair(&mut params, "subtitle_format", "lrc");
    push_pair(&mut params, "app_id", app_id);
    push_pair(&mut params, "usertoken", token);
    push_pair(&mut params, "q_track", query.track.as_str());
    push_pair(&mut params, "q_artist", artist.as_str());
    push_pair(&mut params, "q_artists", artist.as_str());
    push_pair(&mut params, "q_album", query.album.as_str());
    push_pair(&mut params, "q_duration", seconds.as_str());
    push_pair(&mut params, "f_subtitle_length", seconds.as_str());
    if let Some(id) = &query.spotify_id {
        if !id.as_str().is_empty() {
            push_pair(&mut params, "track_spotify_id", id.as_str());
        }
    }
    let request = HttpRequest {
        method: Method::Get,
        url: "https://apic.musixmatch.com/ws/1.1/macro.subtitles.get".to_owned(),
        query: params,
        form: no_pairs(),
        headers: no_pairs(),
    };
    assert(request@.query =~= subtitles_asks(query@, app_id@, token@).query);
    request
}

/// The body of one of the answers that an answer is made of.
pub open spec fn call_body(calls: Option<JsonView>, name: Seq<char>) -> Option<JsonView> {
    within(within(within(calls, name), "message"@), "body"@)
}

fn body_of_call<'a>(calls: Option<&'a Json>, name: &str) -> (body: Option<&'a Json>)
    ensures
        viewed(body) == call_body(viewed(calls), name@),
{
    get_within(get_within(get_within(calls, name), "message"), "body")
}

/// Whether the recording that was actually chosen is the wanted one. With no identity block at
/// all, the query that was sent is trusted.
pub open spec fn right_recording(calls: Option<JsonView>, query: QueryView) -> bool {
    match within(call_body(calls, "matcher.track.get"@), "track"@) {
        None => true,
        Some(track) => is_match(
            query.track,
            query.artists,
            query.duration_ms as int,
            text_field(track, "track_name"@),
            seq![text_field(track, "artist_name"@)],
            seconds_to_millis(double_in(field(track, "track_length"@))),
        ),
    }
}

/// The service matches fuzzily; verify the recording it actually chose.
pub fn identity_matches(calls: Option<&Json>, query: &TrackQuery) -> (r: bool)
    ensures
        r == right_recording(viewed(calls), query@),
{
    match get_within(body_of_call(calls, "matcher.track.get"), "track") {
        None => true,
        Some(track) => {
            let title = str_field(track, "track_name");
            let artists = single(str_field(track, "artist_name"));
            crate::matching::matches(
                query.track.as_str(),
                &query.artists,
                query.duration_ms,
                title.as_str(),
                &artists,
                to_millis(as_double_bits(track.get("track_length"))),
            )
        },
    }
}

/// The subtitles in an answer.
pub open spec fn subtitle_text(calls: Option<JsonView>) -> Option<Seq<char>> {
    match items_in(within(call_body(calls, "track.subtitles.get"@), "subtitle_list"@)) {
        Some(list) if list.len() > 0 => text_in(
            within(field(list[0], "subtitle"@), "subtitle_body"@),
        ),
        _ => None,
    }
}

pub fn subtitle_body(calls: Option<&Json>) -> (text: Option<String>)
    ensures
        text.deep_view() == subtitle_text(viewed(calls)),
{
    match as_array(get_within(body_of_call(calls, "track.subtitles.get"), "subtitle_list")) {
        Some(list) => if list.len() > 0 {
            assert(list@[0]@ == items_in(
                within(call_body(viewed(calls), "track.subtitles.get"@), "subtitle_list"@),
            )->0[0]);
            as_text(get_within(list[0].get("subtitle"), "subtitle_body"))
        } else {
            None
        },
        None => None,
    }
}

/// The plain words in an answer.
pub open spec fn plain_text(calls: Option<JsonView>) -> Option<Seq<char>> {
    text_in(within(within(call_body(calls, "track.lyrics.get"@), "lyrics"@), "lyrics_body"@))
}

pub fn plain_body(calls: Option<&Json>) -> (text: Option<String>)
    ensures
        text.deep_view() == plain_text(viewed(calls)),
{
    as_text(get_within(get_within(body_of_call(calls, "track.lyrics.get"), "lyrics"), "lyrics_body"))
}

/// The timeline in a subtitle body, given the cue list that was read from it: LRC text, or cue
/// JSON. A timeline where every line is blank is not a timeline.
pub open spec fn cues_of_body(trimmed: Seq<char>, list: Option<Seq<CueView>>) -> Option<
    Seq<CueView>,
> {
    if trimmed.len() == 0 {
        None
    } else if trimmed[0] == '[' && list is Some && has_words(list->0) {
        list
    } else if has_words(lrc_cues(trimmed)) {
        Some(lrc_cues(trimmed))
    } else {
        None
    }
}

/// The timeline in a subtitle body.
pub open spec fn cues_in_body(body: Seq<char>) -> Option<Seq<CueView>> {
    cues_of_body(trim(body), mxm_subtitle(trim(body)))
}

/// The timeline in a subtitle body, given the cue list that was read from it.
pub fn choose_cues(trimmed: &str, list: Option<Vec<Cue>>) -> (cues: Option<Vec<Cue>>)
    ensures
        cues_view(cues) == cues_of_body(trimmed@, cues_view(list)),
{
    let chars = chars_of(trimmed);
    if chars.len() == 0 {
        return None;
    }
    if chars[0] == '[' {
        if let Some(list) = list {
            if any_words(&list) {
                return Some(list);
            }
        }
    }
    let cues = parse_lrc(trimmed);
    if any_words(&cues) {
        Some(cues)
    } else {
        None
    }
}

/// Accept either shape this endpoint may return: LRC text, or the `mxm` cue JSON.
pub fn subtitle_cues(body: &str) -> (cues: Option<Vec<Cue>>)
    ensures
        cues_view(cues) == cues_in_body(body@),
{
    let trimmed = trim_text(body);
    let list = parse_mxm_subtitle(trimmed.as_str());
    choose_cues(trimmed.as_str(), list)
}

/// The lyrics in an answer of status 200.
pub open spec fn song_lyrics(query: QueryView, calls: Option<JsonView>) -> LyricsView {
    let cues = match subtitle_text(calls) {
        Some(body) => cues_in_body(body),
        None => None,
    };
    if !right_recording(calls, query) {
        no_lyrics("Musixmatch"@)
    } else if cues is Some {
        timed_lyrics(cues->0, "Musixmatch"@)
    } else {
        match plain_text(calls) {
            Some(plain) if trim(plain).len() > 0 => lyrics_from_raw(plain, "Musixmatch"@),
            _ => no_lyrics("Musixmatch"@),
        }
    }
}

/// Read the lyrics in an answer of status 200.
pub fn read_song(query: &TrackQuery, calls: Option<&Json>) -> (result: LyricsResult)
    ensures
        result@ == song_lyrics(query@, viewed(calls)),
{
    if !identity_matches(calls, query) {
        return LyricsResult::empty("Musixmatch");
    }
    if let Some(body) = subtitle_body(calls) {
        if let Some(cues) = subtitle_cues(body.as_str()) {
            return timed(cues, "Musixmatch");
        }
    }
    if let Some(plain) = plain_body(calls) {
        let trimmed = trim_text(plain.as_str());
        if !trimmed.as_str().is_empty() {
            return LyricsResult::from_raw(plain.as_str(), "Musixmatch");
        }
    }
    LyricsResult::empty("Musixmatch")
}

/// What an answer comes to, and whether the token went stale or got gated.
pub open spec fn answer_of(query: QueryView, data: JsonView) -> (
    Result<LyricsView, ProviderError>,
    bool,
) {
    if envelope_status(data) == Some(200i64) {
        (
            Ok(
                song_lyrics(
                    query,
                    within(within(field(data, "message"@), "body"@), "macro_calls"@),
                ),
            ),
            false,
        )
    } else {
        (Err(ProviderError::Rejected), envelope_status(data) == Some(401i64))
    }
}

/// What a reply comes to, and whether the token went stale or got gated.
pub open spec fn reply_answer(query: QueryView, reply: ReplyView) -> (
    Result<LyricsView, ProviderError>,
    bool,
) {
    match reply {
        ReplyView::Failed(fault) => (Err(fault_error(fault)), false),
        ReplyView::Answered { status, body } => if status == 401 || status == 403 {
            (Err(ProviderError::Rejected), true)
        } else if !success(status) {
            (Err(ProviderError::Http), false)
        } else {
            match body {
                Err(_) => (Err(ProviderError::BadJson), false),
                Ok(bytes) => match json_in_bytes(bytes) {
                    None => (Err(ProviderError::BadJson), false),
                    Some(data) => answer_of(query, data),
                },
            }
        },
    }
}

/// Read an answer, and whether the token went stale or got gated.
pub fn read_answer(query: &TrackQuery, data: &Json) -> (answer: (ProviderResult, bool))
    ensures
        (outcome(answer.0), answer.1) == answer_of(query@, data@),
{
    match inner_status(data) {
        Some(status) => if status == 200 {
            let calls = get_within(get_within(data.get("message"), "body"), "macro_calls");
            (Ok(read_song(query, calls)), false)
        } else {
            (Err(ProviderError::Rejected), status == 401)
        },
        None => (Err(ProviderError::Rejected), false),
    }
}

/// Read a reply, and whether the token went stale or got gated.
pub fn read_reply(query: &TrackQuery, reply: &Reply) -> (answer: (ProviderResult, bool))
    ensures
        (outcome(answer.0), answer.1) == reply_answer(query@, reply@),
{
    match reply {
        Reply::Failed(fault) => (Err(ProviderError::from_fault(*fault)), false),
        Reply::Answered { status, body } => {
            if *status == 401 || *status == 403 {
                return (Err(ProviderError::Rejected), true);
            }
            if !is_success(*status) {
                return (Err(ProviderError::Http), false);
            }
            match body {
                Err(_) => (Err(ProviderError::BadJson), false),
                Ok(bytes) => match parse_bytes(bytes) {
                    None => (Err(ProviderError::BadJson), false),
                    Some(data) => read_answer(query, &data),
                },
            }
        },
    }
}

// ------------------------------------------------------------------------ the source

/// What the reply that is waited for is to.
#[derive(Debug, Clone, Copy, PartialEq, Eq, Structural)]
pub enum Stage {
    /// Asking for a token under this identity.
    Minting(Identity),
    /// Asking for the song.
    Asking,
}

/// What to do next.
#[derive(Debug)]
pub enum Turn {
    /// Send this and come back with the reply.
    Ask(Stage, HttpRequest),
    Done(ProviderResult),
}

/// What a [`Turn`] says.
pub ghost enum TurnView {
    Ask(Stage, RequestView),
    Done(Result<LyricsView, ProviderError>),
}

impl View for Turn {
    type V = TurnView;

    open spec fn view(&self) -> TurnView {
        match *self {
            Turn::Ask(stage, request) => TurnView::Ask(stage, request@),
            Turn::Done(result) => TurnView::Done(outcome(result)),
        }
    }
}

/// How a lookup begins.
pub open spec fn first_turn(session: SessionView, query: QueryView, now: u64) -> TurnView {
    match good_token(session, now) {
        Some(token) => TurnView::Ask(
            Stage::Asking,
            subtitles_asks(query, token.app_id, token.value),
        ),
        None => if cooling_down(session, now) {
            TurnView::Done(Err(ProviderError::Rejected))
        } else {
            TurnView::Ask(Stage::Minting(Identity::Android), mint_asks(Identity::Android))
        },
    }
}

/// How a lookup goes on after a reply, and what becomes of the session.
pub open spec fn next_turn(
    session: SessionView,
    stage: Stage,
    query: QueryView,
    reply: ReplyView,
    now: u64,
) -> (SessionView, TurnView) {
    match stage {
        Stage::Minting(identity) => match mint_answers(reply) {
            Ok(token) => (
                SessionView {
                    cached: Some(
                        TokenView { app_id: app_id_of(identity), value: token, minted: now },
                    ),
                    refused_at: None,
                },
                TurnView::Ask(Stage::Asking, subtitles_asks(query, app_id_of(identity), token)),
            ),
            Err(error) => match identity {
                Identity::Android => (
                    session,
                    TurnView::Ask(Stage::Minting(Identity::Mac), mint_asks(Identity::Mac)),
                ),
                Identity::Mac => (
                    SessionView { refused_at: Some(now), ..session },
                    TurnView::Done(Err(error)),
                ),
            },
        },
        Stage::Asking => {
            let (result, stale) = reply_answer(query, reply);
            (
                if stale {
                    SessionView { cached: None, ..session }
                } else {
                    session
                },
                TurnView::Done(result),
            )
        },
    }
}

/// Begin a lookup.
pub fn fetch(session: &Session, query: &TrackQuery, now: u64) -> (turn: Turn)
    ensures
        turn@ == first_turn(session@, query@, now),
{
    match session.token(now) {
        Some((app_id, token)) => Turn::Ask(
            Stage::Asking,
            subtitles_request(query, app_id.as_str(), token.as_str()),
        ),
        None => if session.is_cooling_down(now) {
            Turn::Done(Err(ProviderError::Rejected))
        } else {
            Turn::Ask(Stage::Minting(Identity::Android), mint_request(Identity::Android))
        },
    }
}

/// Go on with a lookup after a reply.
pub fn go_on(
    session: &mut Session,
    stage: Stage,
    query: &TrackQuery,
    reply: &Reply,
    now: u64,
) -> (turn: Turn)
    ensures
        (final(session)@, turn@) == next_turn(old(session)@, stage, query@, reply@, now),
{
    match stage {
        Stage::Minting(identity) => match mint_token(reply) {
            Ok(token) => {
                session.keep(identity.app_id(), token.as_str(), now);
                Turn::Ask(
                    Stage::Asking,
                    subtitles_request(query, identity.app_id(), token.as_str()),
                )
            },
            Err(error) => match identity {
                Identity::Android => Turn::Ask(
                    Stage::Minting(Identity::Mac),
                    mint_request(Identity::Mac),
                ),
                Identity::Mac => {
                    session.refuse(now);
                    Turn::Done(Err(error))
                },
            },
        },
        Stage::Asking => {
            let (result, stale) = read_reply(query, reply);
            if stale {
                session.forget();
            }
            Turn::Done(result)
        },
    }
}

/// A token that was handed out is used again, without asking for another, as long as its time
/// lasts.
pub proof fn a_token_is_reused_while_it_lasts(
    session: SessionView,
    identity: Identity,
    query: QueryView,
    reply: ReplyView,
    now: u64,
    later: u64,
    next: QueryView,
)
    requires
        mint_answers(reply) is Ok,
        now <= later,
        later - now < TOKEN_TTL,
    ensures
        first_turn(next_turn(session, Stage::Minting(identity), query, reply, now).0, next, later)
            == TurnView::Ask(
            Stage::Asking,
            subtitles_asks(next, app_id_of(identity), mint_answers(reply)->Ok_0),
        ),
{
}

/// After both identities were refused, nothing at all is asked until the pause is over.
pub proof fn a_refusal_is_waited_out(
    session: SessionView,
    query: QueryView,
    reply: ReplyView,
    now: u64,
    later: u64,
    next: QueryView,
)
    requires
        good_token(session, now) is None,
        mint_answers(reply) is Err,
        now <= later,
        later - now < MINT_COOLDOWN,
    ensures
        first_turn(
            next_turn(session, Stage::Minting(Identity::Mac), query, reply, now).0,
            next,
            later,
        ) == TurnView::Done(Err(ProviderError::Rejected)),
{
}

/// A token that went stale is not used again.
pub proof fn a_stale_token_is_dropped(
    session: SessionView,
    query: QueryView,
    reply: ReplyView,
    now: u64,
    later: u64,
)
    requires
        reply_answer(query, reply).1,
    ensures
        good_token(next_turn(session, Stage::Asking, query, reply, now).0, later) is None,
{
}

/// A decoy is never kept as a token.
pub proof fn decoys_are_never_kept(
    session: SessionView,
    stage: Stage,
    query: QueryView,
    reply: ReplyView,
    now: u64,
)
    requires
        session.cached matches Some(token) ==> !degenerate(token.value),
    ensures
        next_turn(session, stage, query, reply, now).0.cached matches Some(token) ==> !degenerate(
            token.value,
        ),
{
}

/// How many more requests can follow the one that a stage waits for.
pub open spec fn requests_left(stage: Stage) -> nat {
    match stage {
        Stage::Minting(Identity::Android) => 2,
        Stage::Minting(Identity::Mac) => 1,
        Stage::Asking => 0,
    }
}

/// A lookup always comes to an end: with every reply fewer requests can follow.
pub proof fn a_lookup_comes_to_an_end(
    session: SessionView,
    stage: Stage,
    query: QueryView,
    reply: ReplyView,
    now: u64,
)
    ensures
        next_turn(session, stage, query, reply, now).1 matches TurnView::Ask(next, _)
            ==> requests_left(next) < requests_left(stage),
{
}

} // verus!
