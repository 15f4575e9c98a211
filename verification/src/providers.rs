//! Bounded public lyric lookups; no credentials and no audio downloads.
//!
//! NetEase and QQ Music are unofficial public endpoints and can change or block access at any
//! time, so a failing provider must never break the chain.
//!
//! Each source is a request to send, and a function from what came back to lyrics or to the
//! next request.

use vstd::prelude::*;

use crate::codec::{
    base64_decode, base64_decoded, lossy_text, text_from_utf8, text_from_utf8_lossy, utf8_text,
};
use crate::double::{millis_cut_off, seconds_rounded, truncated_millis, whole_seconds};
use crate::http::{
    accept_json, is_success, no_pairs, push_pair, replies_of, success, Fault, HttpRequest, Method,
    Reply, ReplyView, RequestView,
};
use crate::json::{
    as_array, as_double_bits, as_i64, as_text_or_empty, double_in, field, get_within, integer_in,
    items_or_empty, json_in_bytes, json_in_text, parse_bytes, parse_text, text_or_empty, within,
    Json, JsonView,
};
use crate::lrc::{
    html_decoded, lrc_cues, offset_of, parse_lrc, plain_text_has_no_cues, strip_tags, stripped,
    unescape, Cue, CueView,
};
use crate::matching::{is_match, key_of, normalize};
use crate::petitlyrics::petitlyrics_step;
use crate::settings::{label_for, label_from, PROVIDERS};
use crate::text::{chars_of, concat3, decimal, decimal_text, join, join_text, same, string_of};

verus! {

/// A body larger than this is not an answer to a lyric lookup.
pub const MAX_RESPONSE_BYTES: usize = 2_000_000;

// -------------------------------------------------------------------------- results

/// What a lookup found.
#[derive(Debug, Clone)]
pub struct LyricsResult {
    pub text: String,
    pub source: String,
    pub cues: Vec<Cue>,
    pub errors: Vec<String>,
}

/// What a [`LyricsResult`] says.
pub ghost struct LyricsView {
    pub text: Seq<char>,
    pub source: Seq<char>,
    pub cues: Seq<CueView>,
    pub errors: Seq<Seq<char>>,
}

impl View for LyricsResult {
    type V = LyricsView;

    open spec fn view(&self) -> LyricsView {
        LyricsView {
            text: self.text@,
            source: self.source@,
            cues: self.cues.deep_view(),
            errors: self.errors.deep_view(),
        }
    }
}

/// No lyrics, from this source.
pub open spec fn no_lyrics(source: Seq<char>) -> LyricsView {
    LyricsView { text: Seq::empty(), source, cues: Seq::empty(), errors: Seq::empty() }
}

/// Whether any cue has words. A "timeline" where every line is blank is not a timeline.
pub open spec fn has_words(cues: Seq<CueView>) -> bool {
    exists|i: int| 0 <= i < cues.len() && (#[trigger] cues[i]).text.len() > 0
}

/// The words of the cues, line by line.
pub open spec fn words_of(cues: Seq<CueView>) -> Seq<char> {
    join(Seq::new(cues.len(), |i: int| cues[i].text), "\n"@)
}

/// The lyrics that a timeline is.
pub open spec fn timed_lyrics(cues: Seq<CueView>, source: Seq<char>) -> LyricsView {
    LyricsView { text: words_of(cues), source, cues, errors: Seq::empty() }
}

/// The lyrics in a payload whose HTML entities have been decoded, `cues` being its timeline.
pub open spec fn lyrics_of(decoded: Seq<char>, cues: Seq<CueView>, source: Seq<char>) -> LyricsView {
    if has_words(cues) {
        timed_lyrics(cues, source)
    } else {
        LyricsView {
            text: stripped(decoded),
            source,
            cues: Seq::empty(),
            errors: Seq::empty(),
        }
    }
}

/// The lyrics in a raw LRC or plain-text payload.
pub open spec fn lyrics_from_raw(raw: Seq<char>, source: Seq<char>) -> LyricsView {
    lyrics_of(html_decoded(raw), lrc_cues(html_decoded(raw)), source)
}

/// Whether any cue has words.
pub fn any_words(cues: &[Cue]) -> (r: bool)
    ensures
        r == has_words(cues.deep_view()),
{
    let mut i: usize = 0;
    while i < cues.len()
        invariant
            i <= cues@.len(),
            forall|j: int| 0 <= j < i ==> (#[trigger] cues.deep_view()[j]).text.len() == 0,
        decreases cues@.len() - i,
    {
        assert(cues.deep_view()[i as int] == cues@[i as int]@);
        if !cues[i].text.as_str().is_empty() {
            return true;
        }
        i += 1;
    }
    false
}

/// The words of the cues, line by line.
pub fn joined_words(cues: &[Cue]) -> (text: String)
    ensures
        text@ == words_of(cues.deep_view()),
{
    let mut lines: Vec<String> = Vec::new();
    let mut i: usize = 0;
    while i < cues.len()
        invariant
            i <= cues@.len(),
            lines@.len() == i,
            forall|j: int| 0 <= j < i ==> (#[trigger] lines@[j])@ == cues@[j].text@,
        decreases cues@.len() - i,
    {
        lines.push(cues[i].text.clone());
        i += 1;
    }
    let ghost views = cues.deep_view();
    assert(lines.deep_view() =~= Seq::new(views.len(), |i: int| views[i].text));
    join_text(&lines, "\n")
}

/// The lyrics that a timeline is.
pub fn timed(cues: Vec<Cue>, source: &str) -> (result: LyricsResult)
    ensures
        result@ == timed_lyrics(cues.deep_view(), source@),
{
    let text = joined_words(&cues);
    let result = LyricsResult { text, source: source.to_owned(), cues, errors: Vec::new() };
    assert(result@.errors =~= Seq::empty());
    result
}

impl LyricsResult {
    /// No lyrics, from this source.
    pub fn empty(source: &str) -> (result: Self)
        ensures
            result@ == no_lyrics(source@),
    {
        let result = Self {
            text: String::new(),
            source: source.to_owned(),
            cues: Vec::new(),
            errors: Vec::new(),
        };
        assert(result@.cues =~= Seq::empty());
        assert(result@.errors =~= Seq::empty());
        result
    }

    /// Build a result from a payload whose HTML entities have been decoded, and its timeline.
    pub fn from_decoded(decoded: &str, cues: Vec<Cue>, source: &str) -> (result: Self)
        ensures
            result@ == lyrics_of(decoded@, cues.deep_view(), source@),
    {
        if any_words(&cues) {
            timed(cues, source)
        } else {
            let result = Self {
                text: strip_tags(decoded),
                source: source.to_owned(),
                cues: Vec::new(),
                errors: Vec::new(),
            };
            assert(result@.cues =~= Seq::empty());
            assert(result@.errors =~= Seq::empty());
            result
        }
    }

    /// Build a result from a raw LRC or plain-text payload.
    pub fn from_raw(raw: &str, source: &str) -> (result: Self)
        ensures
            result@ == lyrics_from_raw(raw@, source@),
    {
        let decoded = unescape(raw);
        let cues = parse_lrc(decoded.as_str());
        Self::from_decoded(decoded.as_str(), cues, source)
    }

    /// Whether there are neither words nor cues.
    pub fn is_empty(&self) -> (r: bool)
        ensures
            r == (self@.text.len() == 0 && self@.cues.len() == 0),
    {
        self.text.as_str().is_empty() && self.cues.len() == 0
    }
}

impl Default for LyricsResult {
    fn default() -> (result: Self)
        ensures
            result@ == no_lyrics(Seq::empty()),
    {
        let result = LyricsResult {
            text: String::new(),
            source: String::new(),
            cues: Vec::new(),
            errors: Vec::new(),
        };
        assert(result@.cues =~= Seq::empty());
        assert(result@.errors =~= Seq::empty());
        result
    }
}

/// A payload keeps its timeline exactly where the timeline has words; then its text is the
/// words of the timeline.
pub proof fn a_timeline_wins_over_plain_text(raw: Seq<char>, source: Seq<char>)
    ensures
        lyrics_from_raw(raw, source).cues.len() > 0 <==> has_words(lrc_cues(html_decoded(raw))),
        lyrics_from_raw(raw, source).cues.len() > 0 ==> lyrics_from_raw(raw, source).text
            == words_of(lyrics_from_raw(raw, source).cues),
        lyrics_from_raw(raw, source).cues.len() == 0 ==> lyrics_from_raw(raw, source).text
            == stripped(html_decoded(raw)),
{
}

/// No timings are invented: a payload without stamps has its words and no timeline.
pub proof fn plain_words_get_no_times(raw: Seq<char>, source: Seq<char>)
    requires
        !html_decoded(html_decoded(raw)).contains('['),
    ensures
        lyrics_from_raw(raw, source).cues.len() == 0,
        lyrics_from_raw(raw, source).text == stripped(html_decoded(raw)),
{
    plain_text_has_no_cues(html_decoded(html_decoded(raw)), offset_of(html_decoded(raw)));
}

// -------------------------------------------------------------------------- queries

/// What the player knows about the track being looked up.
#[derive(Debug, Clone)]
pub struct TrackQuery {
    pub track: String,
    pub artists: Vec<String>,
    pub album: String,
    pub duration_ms: i64,
    /// The strongest matching key Musixmatch accepts; the other providers ignore it.
    pub spotify_id: Option<String>,
}

/// What a [`TrackQuery`] asks for.
pub ghost struct QueryView {
    pub track: Seq<char>,
    pub artists: Seq<Seq<char>>,
    pub album: Seq<char>,
    pub duration_ms: i64,
    pub spotify_id: Option<Seq<char>>,
}

impl View for TrackQuery {
    type V = QueryView;

    open spec fn view(&self) -> QueryView {
        QueryView {
            track: self.track@,
            artists: self.artists.deep_view(),
            album: self.album@,
            duration_ms: self.duration_ms,
            spotify_id: self.spotify_id.deep_view(),
        }
    }
}

/// The first artist, empty where there is none.
pub open spec fn first_artist(artists: Seq<Seq<char>>) -> Seq<char> {
    if artists.len() > 0 {
        artists[0]
    } else {
        Seq::empty()
    }
}

/// "Title Artist" — the free-text form the Chinese search endpoints expect.
pub open spec fn phrase(query: QueryView) -> Seq<char> {
    if query.artists.len() > 0 {
        query.track + " "@ + query.artists[0]
    } else {
        query.track
    }
}

impl TrackQuery {
    pub fn primary_artist(&self) -> (artist: String)
        ensures
            artist@ == first_artist(self@.artists),
    {
        if self.artists.len() > 0 {
            self.artists[0].clone()
        } else {
            String::new()
        }
    }

    /// "Title Artist" — the free-text form the Chinese search endpoints expect.
    pub fn search_phrase(&self) -> (words: String)
        ensures
            words@ == phrase(self@),
    {
        if self.artists.len() > 0 {
            concat3(self.track.as_str(), " ", self.artists[0].as_str())
        } else {
            self.track.clone()
        }
    }
}

// --------------------------------------------------------------------------- errors

/// Why a source gave nothing. Only the kind of failure is kept: responses and addresses can
/// carry lyrics and metadata, and must not reach the interface.
#[derive(Debug, Clone, Copy, PartialEq, Eq, Structural)]
pub enum ProviderError {
    Http,
    Timeout,
    TooLarge,
    BadJson,
    Rejected,
    BadPayload,
}

/// The kind of failure, as it is shown.
pub open spec fn error_name(error: ProviderError) -> Seq<char> {
    match error {
        ProviderError::Http => "Http"@,
        ProviderError::Timeout => "Timeout"@,
        ProviderError::TooLarge => "TooLarge"@,
        ProviderError::BadJson => "BadJson"@,
        ProviderError::Rejected => "Rejected"@,
        ProviderError::BadPayload => "BadPayload"@,
    }
}

/// The error that a transport fault is.
pub open spec fn fault_error(fault: Fault) -> ProviderError {
    if fault.timeout {
        ProviderError::Timeout
    } else if fault.decode {
        ProviderError::BadJson
    } else {
        ProviderError::Http
    }
}

impl ProviderError {
    /// The kind of failure, as it is shown.
    pub fn message(&self) -> (text: &'static str)
        ensures
            text@ == error_name(*self),
    {
        match self {
            ProviderError::Http => "Http",
            ProviderError::Timeout => "Timeout",
            ProviderError::TooLarge => "TooLarge",
            ProviderError::BadJson => "BadJson",
            ProviderError::Rejected => "Rejected",
            ProviderError::BadPayload => "BadPayload",
        }
    }

    /// The error that a transport fault is.
    pub fn from_fault(fault: Fault) -> (error: ProviderError)
        ensures
            error == fault_error(fault),
    {
        if fault.timeout {
            ProviderError::Timeout
        } else if fault.decode {
            ProviderError::BadJson
        } else {
            ProviderError::Http
        }
    }
}

pub type ProviderResult = Result<LyricsResult, ProviderError>;

/// What a [`ProviderResult`] says.
pub open spec fn outcome(result: ProviderResult) -> Result<LyricsView, ProviderError> {
    match result {
        Ok(result) => Ok(result@),
        Err(error) => Err(error),
    }
}

/// What to do next about one source.
#[derive(Debug)]
pub enum Step {
    /// Send this and come back with the reply.
    Ask(HttpRequest),
    Done(ProviderResult),
}

/// What a [`Step`] says.
pub ghost enum StepView {
    Ask(RequestView),
    Done(Result<LyricsView, ProviderError>),
}

impl View for Step {
    type V = StepView;

    open spec fn view(&self) -> StepView {
        match *self {
            Step::Ask(request) => StepView::Ask(request@),
            Step::Done(result) => StepView::Done(outcome(result)),
        }
    }
}

// ---------------------------------------------------------------- reading JSON replies

/// The text without a byte order mark before it.
pub open spec fn without_mark(text: Seq<char>) -> Seq<char> {
    if text.len() > 0 && text[0] == '\u{feff}' {
        text.skip(1)
    } else {
        text
    }
}

/// The document in a bounded JSON reply.
pub open spec fn reply_json(reply: ReplyView) -> Result<JsonView, ProviderError> {
    match reply {
        ReplyView::Failed(fault) => Err(fault_error(fault)),
        ReplyView::Answered { status, body: Err(fault) } => Err(fault_error(fault)),
        ReplyView::Answered { status, body: Ok(bytes) } => if bytes.len() > MAX_RESPONSE_BYTES {
            Err(ProviderError::TooLarge)
        } else if !success(status) {
            Err(ProviderError::Http)
        } else {
            match json_in_text(without_mark(lossy_text(bytes))) {
                Some(json) => Ok(json),
                None => Err(ProviderError::BadJson),
            }
        },
    }
}

/// Drop a byte order mark before the text.
pub fn drop_mark(text: &str) -> (rest: String)
    ensures
        rest@ == without_mark(text@),
{
    let chars = chars_of(text);
    if chars.len() > 0 && chars[0] == '\u{feff}' {
        let rest = string_of(&chars, 1, chars.len());
        assert(rest@ =~= text@.skip(1));
        rest
    } else {
        text.to_owned()
    }
}

/// Read the document in a bounded JSON reply.
pub fn request_json(reply: &Reply) -> (json: Result<Json, ProviderError>)
    ensures
        match json {
            Ok(json) => reply_json(reply@) == Ok::<JsonView, ProviderError>(json@),
            Err(error) => reply_json(reply@) == Err::<JsonView, ProviderError>(error),
        },
{
    match reply {
        Reply::Failed(fault) => Err(ProviderError::from_fault(*fault)),
        Reply::Answered { status, body } => {
            match body {
                Err(fault) => Err(ProviderError::from_fault(*fault)),
                Ok(bytes) => {
                    if bytes.len() > MAX_RESPONSE_BYTES {
                        return Err(ProviderError::TooLarge);
                    }
                    if !is_success(*status) {
                        return Err(ProviderError::Http);
                    }
                    // These endpoints occasionally prefix a byte order mark.
                    let text = text_from_utf8_lossy(bytes);
                    let text = drop_mark(text.as_str());
                    match parse_text(text.as_str()) {
                        Some(json) => Ok(json),
                        None => Err(ProviderError::BadJson),
                    }
                },
            }
        },
    }
}

/// A text field, empty where it is missing or no text.
pub open spec fn text_field(value: JsonView, name: Seq<char>) -> Seq<char> {
    text_or_empty(field(value, name))
}

pub fn str_field(value: &Json, name: &str) -> (text: String)
    ensures
        text@ == text_field(value@, name@),
{
    as_text_or_empty(value.get(name))
}

/// The names of the objects in a list field.
pub open spec fn names_in(value: JsonView, name: Seq<char>) -> Seq<Seq<char>> {
    let items = items_or_empty(field(value, name));
    Seq::new(items.len(), |i: int| text_field(items[i], "name"@))
}

pub fn names(value: &Json, name: &str) -> (list: Vec<String>)
    ensures
        list.deep_view() == names_in(value@, name@),
{
    let mut list: Vec<String> = Vec::new();
    if let Some(items) = as_array(value.get(name)) {
        let mut i: usize = 0;
        while i < items.len()
            invariant
                i <= items@.len(),
                list@.len() == i,
                forall|j: int|
                    0 <= j < i ==> (#[trigger] list@[j])@ == text_field(items@[j]@, "name"@),
            decreases items@.len() - i,
        {
            list.push(str_field(&items[i], "name"));
            i += 1;
        }
    }
    assert(list.deep_view() =~= names_in(value@, name@));
    list
}

/// A length in seconds, where it is known, in milliseconds.
pub open spec fn seconds_to_millis(seconds: Option<u64>) -> Option<i64> {
    match seconds {
        Some(bits) => Some(truncated_millis(bits)),
        None => None,
    }
}

pub fn to_millis(seconds: Option<u64>) -> (millis: Option<i64>)
    ensures
        millis == seconds_to_millis(seconds),
{
    match seconds {
        Some(bits) => Some(millis_cut_off(bits)),
        None => None,
    }
}

/// A list with one string in it.
pub fn single(item: String) -> (list: Vec<String>)
    ensures
        list.deep_view() == seq![item@],
{
    let mut list: Vec<String> = Vec::new();
    list.push(item);
    assert(list.deep_view() =~= seq![item@]);
    list
}

// --------------------------------------------------------------------------- LRCLIB

/// Ask LRCLIB for exactly this recording.
pub open spec fn lrclib_asks(query: QueryView) -> RequestView {
    RequestView {
        method: Method::Get,
        url: "https://lrclib.net/api/get"@,
        query: seq![
            ("track_name"@, query.track),
            ("artist_name"@, first_artist(query.artists)),
            ("album_name"@, query.album),
            ("duration"@, decimal(whole_seconds(query.duration_ms))),
        ],
        form: Seq::empty(),
        headers: seq![accept_json()],
    }
}

pub fn lrclib_request(query: &TrackQuery) -> (request: HttpRequest)
    ensures
        request@ == lrclib_asks(query@),
{
    let mut params = no_pairs();
    push_pair(&mut params, "track_name", query.track.as_str());
    let artist = query.primary_artist();
    push_pair(&mut params, "artist_name", artist.as_str());
    push_pair(&mut params, "album_name", query.album.as_str());
    let seconds = decimal_text(seconds_rounded(query.duration_ms));
    push_pair(&mut params, "duration", seconds.as_str());
    let mut headers = no_pairs();
    push_pair(&mut headers, "Accept", "application/json");
    let request = HttpRequest {
        method: Method::Get,
        url: "https://lrclib.net/api/get".to_owned(),
        query: params,
        form: no_pairs(),
        headers,
    };
    assert(request@.query =~= lrclib_asks(query@).query);
    assert(request@.headers =~= lrclib_asks(query@).headers);
    request
}

/// The lyrics in LRCLIB's entry. The exact endpoint already matched album and duration;
/// the identity is still verified.
pub open spec fn lrclib_entry(query: QueryView, data: JsonView) -> LyricsView {
    let synced = text_field(data, "syncedLyrics"@);
    let plain = text_field(data, "plainLyrics"@);
    if !is_match(
        query.track,
        query.artists,
        query.duration_ms as int,
        text_field(data, "trackName"@),
        seq![text_field(data, "artistName"@)],
        seconds_to_millis(double_in(field(data, "duration"@))),
    ) {
        no_lyrics("LRCLIB"@)
    } else if lyrics_from_raw(synced, "LRCLIB"@).cues.len() > 0 {
        lyrics_from_raw(synced, "LRCLIB"@)
    } else if plain.len() == 0 {
        lyrics_from_raw(synced, "LRCLIB"@)
    } else {
        lyrics_from_raw(plain, "LRCLIB"@)
    }
}

/// What LRCLIB's reply comes to. 404 simply means that it has no entry for this recording.
pub open spec fn lrclib_answers(query: QueryView, reply: ReplyView) -> Result<
    LyricsView,
    ProviderError,
> {
    match reply {
        ReplyView::Failed(fault) => Err(fault_error(fault)),
        ReplyView::Answered { status, body } => if status == 404 {
            Ok(no_lyrics("LRCLIB"@))
        } else if !success(status) {
            Err(ProviderError::Http)
        } else {
            match body {
                Err(fault) => Err(fault_error(fault)),
                Ok(bytes) => match json_in_bytes(bytes) {
                    Some(data) => Ok(lrclib_entry(query, data)),
                    None => Err(ProviderError::BadJson),
                },
            }
        },
    }
}

/// Read LRCLIB's entry.
pub fn lrclib_lyrics(query: &TrackQuery, data: &Json) -> (result: LyricsResult)
    ensures
        result@ == lrclib_entry(query@, data@),
{
    let candidate_ms = to_millis(as_double_bits(data.get("duration")));
    let title = str_field(data, "trackName");
    let artists = single(str_field(data, "artistName"));
    if !crate::matching::matches(
        query.track.as_str(),
        &query.artists,
        query.duration_ms,
        title.as_str(),
        &artists,
        candidate_ms,
    ) {
        return LyricsResult::empty("LRCLIB");
    }
    let synced = str_field(data, "syncedLyrics");
    let result = LyricsResult::from_raw(synced.as_str(), "LRCLIB");
    if result.cues.len() > 0 {
        return result;
    }
    let plain = str_field(data, "plainLyrics");
    if plain.as_str().is_empty() {
        LyricsResult::from_raw(synced.as_str(), "LRCLIB")
    } else {
        LyricsResult::from_raw(plain.as_str(), "LRCLIB")
    }
}

/// Read LRCLIB's reply.
pub fn lrclib_reply(query: &TrackQuery, reply: &Reply) -> (result: ProviderResult)
    ensures
        outcome(result) == lrclib_answers(query@, reply@),
{
    match reply {
        Reply::Failed(fault) => Err(ProviderError::from_fault(*fault)),
        Reply::Answered { status, body } => {
            if *status == 404 {
                return Ok(LyricsResult::empty("LRCLIB"));
            }
            if !is_success(*status) {
                return Err(ProviderError::Http);
            }
            match body {
                Err(fault) => Err(ProviderError::from_fault(*fault)),
                Ok(bytes) => match parse_bytes(bytes) {
                    Some(data) => Ok(lrclib_lyrics(query, &data)),
                    None => Err(ProviderError::BadJson),
                },
            }
        },
    }
}

/// What to do about LRCLIB, given the replies so far.
pub open spec fn lrclib_step(query: QueryView, replies: Seq<ReplyView>) -> StepView {
    if replies.len() == 0 {
        StepView::Ask(lrclib_asks(query))
    } else {
        StepView::Done(lrclib_answers(query, replies[0]))
    }
}

/// What to do about LRCLIB, given the replies so far.
pub fn lrclib(query: &TrackQuery, replies: &[Reply]) -> (step: Step)
    ensures
        step@ == lrclib_step(query@, replies_of(replies@)),
{
    if replies.len() == 0 {
        Step::Ask(lrclib_request(query))
    } else {
        Step::Done(lrclib_reply(query, &replies[0]))
    }
}

// ------------------------------------------------------------------- choosing a song

/// The first of the songs that fits, from one of them on.
pub open spec fn first_fit(
    songs: Seq<JsonView>,
    fits: spec_fn(JsonView) -> bool,
    from: int,
) -> Option<JsonView>
    decreases songs.len() - from,
{
    if from < 0 || from >= songs.len() {
        None
    } else if fits(songs[from]) {
        Some(songs[from])
    } else {
        first_fit(songs, fits, from + 1)
    }
}

/// The first song that fits among those of the wanted album, else the first that fits among the
/// others. A compilation re-issue often has a worse timeline.
pub open spec fn chosen_song(
    songs: Seq<JsonView>,
    on_album: spec_fn(JsonView) -> bool,
    fits: spec_fn(JsonView) -> bool,
) -> Option<JsonView> {
    match first_fit(songs, |song: JsonView| on_album(song) && fits(song), 0) {
        Some(song) => Some(song),
        None => first_fit(songs, |song: JsonView| !on_album(song) && fits(song), 0),
    }
}

proof fn first_fit_fits(songs: Seq<JsonView>, fits: spec_fn(JsonView) -> bool, from: int)
    requires
        0 <= from,
    ensures
        first_fit(songs, fits, from) matches Some(song) ==> songs.contains(song) && fits(song),
        first_fit(songs, fits, from) is None ==> forall|i: int|
            from <= i < songs.len() ==> !fits(#[trigger] songs[i]),
    decreases songs.len() - from,
{
    if from < songs.len() {
        first_fit_fits(songs, fits, from + 1);
    }
}

/// A song is chosen wherever one fits, it fits, and it is of the wanted album wherever one that
/// fits is.
pub proof fn the_wanted_album_comes_first(
    songs: Seq<JsonView>,
    on_album: spec_fn(JsonView) -> bool,
    fits: spec_fn(JsonView) -> bool,
)
    ensures
        match chosen_song(songs, on_album, fits) {
            Some(song) => songs.contains(song) && fits(song) && (!on_album(song) ==> forall|i: int|
                0 <= i < songs.len() && on_album(#[trigger] songs[i]) ==> !fits(songs[i])),
            None => forall|i: int| 0 <= i < songs.len() ==> !fits(#[trigger] songs[i]),
        },
{
    first_fit_fits(songs, |song: JsonView| on_album(song) && fits(song), 0);
    first_fit_fits(songs, |song: JsonView| !on_album(song) && fits(song), 0);
}

/// A request to a search service, with the address that it expects to be called from.
pub open spec fn search_headers(referer: Seq<char>) -> Seq<(Seq<char>, Seq<char>)> {
    seq![accept_json(), ("Referer"@, referer)]
}

fn headers_from(referer: &str) -> (headers: Vec<(String, String)>)
    ensures
        headers.deep_view() == search_headers(referer@),
{
    let mut headers = no_pairs();
    push_pair(&mut headers, "Accept", "application/json");
    push_pair(&mut headers, "Referer", referer);
    assert(headers.deep_view() =~= search_headers(referer@));
    headers
}

// -------------------------------------------------------------------------- NetEase

/// Ask NetEase for songs.
pub open spec fn netease_search(query: QueryView) -> RequestView {
    RequestView {
        method: Method::Post,
        url: "https://music.163.com/api/search/get/"@,
        query: Seq::empty(),
        form: seq![
            ("s"@, phrase(query)),
            ("limit"@, "8"@),
            ("type"@, "1"@),
            ("offset"@, "0"@),
        ],
        headers: search_headers("https://music.163.com/"@),
    }
}

/// Ask NetEase for the words of a song.
pub open spec fn netease_asks(id: i64) -> RequestView {
    RequestView {
        method: Method::Get,
        url: "https://music.163.com/api/song/lyric"@,
        query: seq![("id"@, decimal(id as int)), ("lv"@, "-1"@), ("tv"@, "-1"@)],
        form: Seq::empty(),
        headers: search_headers("https://music.163.com/"@),
    }
}

/// Whether a song in NetEase's list is of the wanted album.
pub open spec fn netease_album(query: QueryView) -> spec_fn(JsonView) -> bool {
    |song: JsonView|
        key_of(text_or_empty(within(field(song, "album"@), "name"@))) == key_of(query.album)
}

/// Whether a song in NetEase's list is the wanted recording, and can be asked for.
pub open spec fn netease_fits(query: QueryView) -> spec_fn(JsonView) -> bool {
    |song: JsonView|
        is_match(
            query.track,
            query.artists,
            query.duration_ms as int,
            text_field(song, "name"@),
            names_in(song, "artists"@),
            integer_in(field(song, "duration"@)),
        ) && integer_in(field(song, "id"@)) is Some
}

/// The song to ask NetEase for, `None` where it lists none that fits.
pub open spec fn netease_picks(query: QueryView, search: JsonView) -> Result<
    Option<i64>,
    ProviderError,
> {
    if integer_in(field(search, "code"@)) != Some(200i64) {
        Err(ProviderError::Rejected)
    } else {
        let songs = items_or_empty(within(field(search, "result"@), "songs"@));
        match chosen_song(songs, netease_album(query), netease_fits(query)) {
            Some(song) => Ok(integer_in(field(song, "id"@))),
            None => Ok(None),
        }
    }
}

/// The lyrics in NetEase's answer.
pub open spec fn netease_words(lyric: JsonView) -> Result<LyricsView, ProviderError> {
    if integer_in(field(lyric, "code"@)) != Some(200i64) {
        Err(ProviderError::Rejected)
    } else {
        Ok(
            lyrics_from_raw(
                text_or_empty(within(field(lyric, "lrc"@), "lyric"@)),
                "NetEase"@,
            ),
        )
    }
}

/// What to do about NetEase, given the replies so far.
pub open spec fn netease_step(query: QueryView, replies: Seq<ReplyView>) -> StepView {
    if replies.len() == 0 {
        StepView::Ask(netease_search(query))
    } else if replies.len() == 1 {
        match reply_json(replies[0]) {
            Err(error) => StepView::Done(Err(error)),
            Ok(search) => match netease_picks(query, search) {
                Err(error) => StepView::Done(Err(error)),
                Ok(Some(id)) => StepView::Ask(netease_asks(id)),
                Ok(None) => StepView::Done(Ok(no_lyrics("NetEase"@))),
            },
        }
    } else {
        match reply_json(replies[1]) {
            Err(error) => StepView::Done(Err(error)),
            Ok(lyric) => StepView::Done(netease_words(lyric)),
        }
    }
}

fn netease_search_request(query: &TrackQuery) -> (request: HttpRequest)
    ensures
        request@ == netease_search(query@),
{
    let mut form = no_pairs();
    let words = query.search_phrase();
    push_pair(&mut form, "s", words.as_str());
    push_pair(&mut form, "limit", "8");
    push_pair(&mut form, "type", "1");
    push_pair(&mut form, "offset", "0");
    let request = HttpRequest {
        method: Method::Post,
        url: "https://music.163.com/api/search/get/".to_owned(),
        query: no_pairs(),
        form,
        headers: headers_from("https://music.163.com/"),
    };
    assert(request@.form =~= netease_search(query@).form);
    request
}

fn netease_lyric_request(id: i64) -> (request: HttpRequest)
    ensures
        request@ == netease_asks(id),
{
    let mut params = no_pairs();
    let id_text = decimal_text(id);
    push_pair(&mut params, "id", id_text.as_str());
    push_pair(&mut params, "lv", "-1");
    push_pair(&mut params, "tv", "-1");
    let request = HttpRequest {
        method: Method::Get,
        url: "https://music.163.com/api/song/lyric".to_owned(),
        query: params,
        form: no_pairs(),
        headers: headers_from("https://music.163.com/"),
    };
    assert(request@.query =~= netease_asks(id).query);
    request
}

/// Whether a song is of the wanted album, and whether it fits.
fn netease_candidate(query: &TrackQuery, wanted_album: &str, song: &Json) -> (r: (bool, bool))
    requires
        wanted_album@ == key_of(query@.album),
    ensures
        r.0 == netease_album(query@)(song@),
        r.1 == netease_fits(query@)(song@),
{
    let album = as_text_or_empty(get_within(song.get("album"), "name"));
    let album_key = normalize(album.as_str());
    let title = str_field(song, "name");
    let artists = names(song, "artists");
    let fits = crate::matching::matches(
        query.track.as_str(),
        &query.artists,
        query.duration_ms,
        title.as_str(),
        &artists,
        as_i64(song.get("duration")),
    ) && as_i64(song.get("id")).is_some();
    (same(album_key.as_str(), wanted_album), fits)
}

/// The song to ask NetEase for, `None` where it lists none that fits.
pub fn netease_song(query: &TrackQuery, search: &Json) -> (id: Result<Option<i64>, ProviderError>)
    ensures
        id == netease_picks(query@, search@),
{
    if as_i64(search.get("code")) != Some(200) {
        return Err(ProviderError::Rejected);
    }
    let wanted_album = normalize(query.album.as_str());
    let ghost songs = items_or_empty(within(field(search@, "result"@), "songs"@));
    let ghost on_album = netease_album(query@);
    let ghost fits = netease_fits(query@);
    let ghost first = |song: JsonView| on_album(song) && fits(song);
    let ghost second = |song: JsonView| !on_album(song) && fits(song);
    match as_array(get_within(search.get("result"), "songs")) {
        None => Ok(None),
        Some(list) => {
            let mut other: Option<i64> = None;
            let mut found = false;
            let mut i: usize = 0;
            while i < list.len()
                invariant
                    i <= list@.len(),
                    songs.len() == list@.len(),
                    forall|j: int| 0 <= j < list@.len() ==> (#[trigger] list@[j])@ == songs[j],
                    wanted_album@ == key_of(query@.album),
                    on_album == netease_album(query@),
                    fits == netease_fits(query@),
                    first == (|song: JsonView| on_album(song) && fits(song)),
                    second == (|song: JsonView| !on_album(song) && fits(song)),
                    songs == items_or_empty(within(field(search@, "result"@), "songs"@)),
                    integer_in(field(search@, "code"@)) == Some(200i64),
                    first_fit(songs, first, 0) == first_fit(songs, first, i as int),
                    found ==> first_fit(songs, second, 0) is Some && other == integer_in(
                        field(first_fit(songs, second, 0)->0, "id"@),
                    ),
                    !found ==> other is None && first_fit(songs, second, 0) == first_fit(
                        songs,
                        second,
                        i as int,
                    ),
                decreases list@.len() - i,
            {
                let (album, fit) = netease_candidate(query, wanted_album.as_str(), &list[i]);
                if fit && album {
                    return Ok(as_i64(list[i].get("id")));
                }
                if fit && !found {
                    found = true;
                    other = as_i64(list[i].get("id"));
                }
                i += 1;
            }
            Ok(other)
        },
    }
}

/// The lyrics in NetEase's answer.
pub fn netease_lyrics(lyric: &Json) -> (result: ProviderResult)
    ensures
        outcome(result) == netease_words(lyric@),
{
    if as_i64(lyric.get("code")) != Some(200) {
        return Err(ProviderError::Rejected);
    }
    let raw = as_text_or_empty(get_within(lyric.get("lrc"), "lyric"));
    Ok(LyricsResult::from_raw(raw.as_str(), "NetEase"))
}

/// What to do about NetEase, given the replies so far.
pub fn netease(query: &TrackQuery, replies: &[Reply]) -> (step: Step)
    ensures
        step@ == netease_step(query@, replies_of(replies@)),
{
    if replies.len() == 0 {
        return Step::Ask(netease_search_request(query));
    }
    if replies.len() == 1 {
        return match request_json(&replies[0]) {
            Err(error) => Step::Done(Err(error)),
            Ok(search) => match netease_song(query, &search) {
                Err(error) => Step::Done(Err(error)),
                Ok(Some(id)) => Step::Ask(netease_lyric_request(id)),
                Ok(None) => Step::Done(Ok(LyricsResult::empty("NetEase"))),
            },
        };
    }
    match request_json(&replies[1]) {
        Err(error) => Step::Done(Err(error)),
        Ok(lyric) => Step::Done(netease_lyrics(&lyric)),
    }
}

// ------------------------------------------------------------------------- QQ Music

/// Ask QQ Music for songs. The older schema is asked for: with the newer one this endpoint
/// answers nothing.
pub open spec fn qq_search(query: QueryView) -> RequestView {
    RequestView {
        method: Method::Get,
        url: "https://c.y.qq.com/soso/fcgi-bin/client_search_cp"@,
        query: seq![
            ("w"@, phrase(query)),
            ("n"@, "8"@),
            ("p"@, "1"@),
            ("format"@, "json"@),
            ("cr"@, "1"@),
        ],
        form: Seq::empty(),
        headers: search_headers("https://y.qq.com/"@),
    }
}

/// Ask QQ Music for the words of a song.
pub open spec fn qq_asks(songmid: Seq<char>) -> RequestView {
    RequestView {
        method: Method::Get,
        url: "https://c.y.qq.com/lyric/fcgi-bin/fcg_query_lyric_new.fcg"@,
        query: seq![
            ("songmid"@, songmid),
            ("g_tk"@, "5381"@),
            ("format"@, "json"@),
            ("platform"@, "yqq"@),
        ],
        form: Seq::empty(),
        headers: search_headers("https://y.qq.com/portal/player.html"@),
    }
}

/// Whether a song in QQ Music's list is of the wanted album.
pub open spec fn qq_album(query: QueryView) -> spec_fn(JsonView) -> bool {
    |song: JsonView| key_of(text_field(song, "albumname"@)) == key_of(query.album)
}

/// Whether a song in QQ Music's list is the wanted recording, and can be asked for.
pub open spec fn qq_fits(query: QueryView) -> spec_fn(JsonView) -> bool {
    |song: JsonView|
        is_match(
            query.track,
            query.artists,
            query.duration_ms as int,
            text_field(song, "songname"@),
            names_in(song, "singer"@),
            seconds_to_millis(double_in(field(song, "interval"@))),
        ) && text_field(song, "songmid"@).len() > 0
}

/// The song to ask QQ Music for, `None` where it lists none that fits.
pub open spec fn qq_picks(query: QueryView, search: JsonView) -> Result<
    Option<Seq<char>>,
    ProviderError,
> {
    if integer_in(field(search, "code"@)) != Some(0i64) {
        Err(ProviderError::Rejected)
    } else {
        let songs = items_or_empty(within(within(field(search, "data"@), "song"@), "list"@));
        match chosen_song(songs, qq_album(query), qq_fits(query)) {
            Some(song) => Ok(Some(text_field(song, "songmid"@))),
            None => Ok(None),
        }
    }
}

/// The lyrics in a payload of bytes, `None` where there is no payload.
pub open spec fn lyrics_in_bytes(bytes: Option<Seq<u8>>, source: Seq<char>) -> Result<
    LyricsView,
    ProviderError,
> {
    match bytes {
        None => Err(ProviderError::BadPayload),
        Some(bytes) => match utf8_text(bytes) {
            None => Err(ProviderError::BadPayload),
            Some(raw) => Ok(lyrics_from_raw(raw, source)),
        },
    }
}

/// The lyrics in QQ Music's answer.
pub open spec fn qq_words(lyric: JsonView) -> Result<LyricsView, ProviderError> {
    if integer_in(field(lyric, "code"@)) != Some(0i64) {
        Err(ProviderError::Rejected)
    } else {
        lyrics_in_bytes(base64_decoded(text_field(lyric, "lyric"@)), "QQ Music"@)
    }
}

/// What to do about QQ Music, given the replies so far.
pub open spec fn qqmusic_step(query: QueryView, replies: Seq<ReplyView>) -> StepView {
    if replies.len() == 0 {
        StepView::Ask(qq_search(query))
    } else if replies.len() == 1 {
        match reply_json(replies[0]) {
            Err(error) => StepView::Done(Err(error)),
            Ok(search) => match qq_picks(query, search) {
                Err(error) => StepView::Done(Err(error)),
                Ok(Some(songmid)) => StepView::Ask(qq_asks(songmid)),
                Ok(None) => StepView::Done(Ok(no_lyrics("QQ Music"@))),
            },
        }
    } else {
        match reply_json(replies[1]) {
            Err(error) => StepView::Done(Err(error)),
            Ok(lyric) => StepView::Done(qq_words(lyric)),
        }
    }
}

fn qq_search_request(query: &TrackQuery) -> (request: HttpRequest)
    ensures
        request@ == qq_search(query@),
{
    let mut params = no_pairs();
    let words = query.search_phrase();
    push_pair(&mut params, "w", words.as_str());
    push_pair(&mut params, "n", "8");
    push_pair(&mut params, "p", "1");
    push_pair(&mut params, "format", "json");
    push_pair(&mut params, "cr", "1");
    let request = HttpRequest {
        method: Method::Get,
        url: "https://c.y.qq.com/soso/fcgi-bin/client_search_cp".to_owned(),
        query: params,
        form: no_pairs(),
        headers: headers_from("https://y.qq.com/"),
    };
    assert(request@.query =~= qq_search(query@).query);
    request
}

fn qq_lyric_request(songmid: &str) -> (request: HttpRequest)
    ensures
        request@ == qq_asks(songmid@),
{
    let mut params = no_pairs();
    push_pair(&mut params, "songmid", songmid);
    push_pair(&mut params, "g_tk", "5381");
    push_pair(&mut params, "format", "json");
    push_pair(&mut params, "platform", "yqq");
    let request = HttpRequest {
        method: Method::Get,
        url: "https://c.y.qq.com/lyric/fcgi-bin/fcg_query_lyric_new.fcg".to_owned(),
        query: params,
        form: no_pairs(),
        headers: headers_from("https://y.qq.com/portal/player.html"),
    };
    assert(request@.query =~= qq_asks(songmid@).query);
    request
}

/// Whether a song is of the wanted album, and whether it fits.
fn qq_candidate(query: &TrackQuery, wanted_album: &str, song: &Json) -> (r: (bool, bool))
    requires
        wanted_album@ == key_of(query@.album),
    ensures
        r.0 == qq_album(query@)(song@),
        r.1 == qq_fits(query@)(song@),
{
    let album = str_field(song, "albumname");
    let album_key = normalize(album.as_str());
    let title = str_field(song, "songname");
    let artists = names(song, "singer");
    let songmid = str_field(song, "songmid");
    let fits = crate::matching::matches(
        query.track.as_str(),
        &query.artists,
        query.duration_ms,
        title.as_str(),
        &artists,
        to_millis(as_double_bits(song.get("interval"))),
    ) && !songmid.as_str().is_empty();
    (same(album_key.as_str(), wanted_album), fits)
}

/// The song to ask QQ Music for, `None` where it lists none that fits.
pub fn qq_song(query: &TrackQuery, search: &Json) -> (songmid: Result<
    Option<String>,
    ProviderError,
>)
    ensures
        match songmid {
            Ok(songmid) => qq_picks(query@, search@) == Ok::<_, ProviderError>(
                songmid.deep_view(),
            ),
            Err(error) => qq_picks(query@, search@) == Err::<Option<Seq<char>>, _>(error),
        },
{
    if as_i64(search.get("code")) != Some(0) {
        return Err(ProviderError::Rejected);
    }
    let wanted_album = normalize(query.album.as_str());
    let ghost songs = items_or_empty(within(within(field(search@, "data"@), "song"@), "list"@));
    let ghost on_album = qq_album(query@);
    let ghost fits = qq_fits(query@);
    let ghost first = |song: JsonView| on_album(song) && fits(song);
    let ghost second = |song: JsonView| !on_album(song) && fits(song);
    match as_array(get_within(get_within(search.get("data"), "song"), "list")) {
        None => Ok(None),
        Some(list) => {
            let mut other: Option<String> = None;
            let mut i: usize = 0;
            while i < list.len()
                invariant
                    i <= list@.len(),
                    songs.len() == list@.len(),
                    forall|j: int| 0 <= j < list@.len() ==> (#[trigger] list@[j])@ == songs[j],
                    wanted_album@ == key_of(query@.album),
                    on_album == qq_album(query@),
                    fits == qq_fits(query@),
                    first == (|song: JsonView| on_album(song) && fits(song)),
                    second == (|song: JsonView| !on_album(song) && fits(song)),
                    songs == items_or_empty(
                        within(within(field(search@, "data"@), "song"@), "list"@),
                    ),
                    integer_in(field(search@, "code"@)) == Some(0i64),
                    first_fit(songs, first, 0) == first_fit(songs, first, i as int),
                    other is Some ==> first_fit(songs, second, 0) is Some && other->0@
                        == text_field(first_fit(songs, second, 0)->0, "songmid"@),
                    other is None ==> first_fit(songs, second, 0) == first_fit(
                        songs,
                        second,
                        i as int,
                    ),
                decreases list@.len() - i,
            {
                let (album, fit) = qq_candidate(query, wanted_album.as_str(), &list[i]);
                if fit && album {
                    return Ok(Some(str_field(&list[i], "songmid")));
                }
                if fit && other.is_none() {
                    other = Some(str_field(&list[i], "songmid"));
                }
                i += 1;
            }
            Ok(other)
        },
    }
}

/// The lyrics in a payload of bytes, `None` where there is no payload.
pub fn lyrics_from_bytes(bytes: Option<Vec<u8>>, source: &str) -> (result: ProviderResult)
    ensures
        outcome(result) == lyrics_in_bytes(
            match bytes {
                Some(bytes) => Some(bytes@),
                None => None,
            },
            source@,
        ),
{
    match bytes {
        None => Err(ProviderError::BadPayload),
        Some(bytes) => match text_from_utf8(bytes) {
            None => Err(ProviderError::BadPayload),
            Some(raw) => Ok(LyricsResult::from_raw(raw.as_str(), source)),
        },
    }
}

/// The lyrics in QQ Music's answer.
pub fn qq_lyrics(lyric: &Json) -> (result: ProviderResult)
    ensures
        outcome(result) == qq_words(lyric@),
{
    if as_i64(lyric.get("code")) != Some(0) {
        return Err(ProviderError::Rejected);
    }
    let encoded = str_field(lyric, "lyric");
    lyrics_from_bytes(base64_decode(encoded.as_str()), "QQ Music")
}

/// What to do about QQ Music, given the replies so far.
pub fn qqmusic(query: &TrackQuery, replies: &[Reply]) -> (step: Step)
    ensures
        step@ == qqmusic_step(query@, replies_of(replies@)),
{
    if replies.len() == 0 {
        return Step::Ask(qq_search_request(query));
    }
    if replies.len() == 1 {
        return match request_json(&replies[0]) {
            Err(error) => Step::Done(Err(error)),
            Ok(search) => match qq_song(query, &search) {
                Err(error) => Step::Done(Err(error)),
                Ok(Some(songmid)) => Step::Ask(qq_lyric_request(songmid.as_str())),
                Ok(None) => Step::Done(Ok(LyricsResult::empty("QQ Music"))),
            },
        };
    }
    match request_json(&replies[1]) {
        Err(error) => Step::Done(Err(error)),
        Ok(lyric) => Step::Done(qq_lyrics(&lyric)),
    }
}

// ------------------------------------------------------------------------ the chain

/// What the sources asked so far came to.
#[derive(Debug)]
pub struct Chain {
    pub fallback: Option<LyricsResult>,
    pub errors: Vec<String>,
}

/// What a [`Chain`] says.
pub ghost struct ChainView {
    pub fallback: Option<LyricsView>,
    pub errors: Seq<Seq<char>>,
}

impl View for Chain {
    type V = ChainView;

    open spec fn view(&self) -> ChainView {
        ChainView {
            fallback: match self.fallback {
                Some(result) => Some(result@),
                None => None,
            },
            errors: self.errors.deep_view(),
        }
    }
}

/// No source was asked yet.
pub open spec fn new_chain() -> ChainView {
    ChainView { fallback: None, errors: Seq::empty() }
}

/// How a failed source is noted.
pub open spec fn error_line(name: Seq<char>, error: ProviderError) -> Seq<char> {
    name + ": "@ + error_name(error)
}

/// Whether a source came up with a timeline.
pub open spec fn is_synced(result: Result<LyricsView, ProviderError>) -> bool {
    result matches Ok(lyrics) && lyrics.cues.len() > 0
}

/// The chain after one more source, which had no timeline.
pub open spec fn considered(
    chain: ChainView,
    name: Seq<char>,
    result: Result<LyricsView, ProviderError>,
) -> ChainView {
    match result {
        Ok(lyrics) => if lyrics.text.len() > 0 && chain.fallback is None {
            ChainView { fallback: Some(lyrics), ..chain }
        } else {
            chain
        },
        Err(error) => ChainView { errors: chain.errors.push(error_line(name, error)), ..chain },
    }
}

/// The lyrics where no source had a timeline.
pub open spec fn finished(chain: ChainView) -> LyricsView {
    match chain.fallback {
        Some(lyrics) => LyricsView { errors: chain.errors, ..lyrics },
        None => LyricsView { errors: chain.errors, ..no_lyrics(Seq::empty()) },
    }
}

impl Chain {
    pub fn new() -> (chain: Self)
        ensures
            chain@ == new_chain(),
    {
        let chain = Chain { fallback: None, errors: Vec::new() };
        assert(chain@.errors =~= Seq::empty());
        chain
    }

    /// Returns the result to stop on, or `None` to keep going.
    pub fn consider(&mut self, name: &str, result: ProviderResult) -> (stop: Option<LyricsResult>)
        ensures
            is_synced(outcome(result)) ==> (stop matches Some(lyrics) && lyrics@ == (LyricsView {
                errors: old(self)@.errors,
                ..outcome(result)->Ok_0
            })) && final(self)@ == (ChainView { errors: Seq::empty(), ..old(self)@ }),
            !is_synced(outcome(result)) ==> stop is None && final(self)@ == considered(
                old(self)@,
                name@,
                outcome(result),
            ),
    {
        match result {
            Ok(lyrics) => {
                let mut lyrics = lyrics;
                if lyrics.cues.len() > 0 {
                    let mut errors: Vec<String> = Vec::new();
                    std::mem::swap(&mut errors, &mut self.errors);
                    lyrics.errors = errors;
                    assert(self@.errors =~= Seq::empty());
                    return Some(lyrics);
                }
                if !lyrics.text.as_str().is_empty() && self.fallback.is_none() {
                    self.fallback = Some(lyrics);
                }
                None
            },
            Err(error) => {
                let ghost before = self.errors.deep_view();
                // Only the kind of failure is recorded: responses and addresses can carry
                // lyrics and metadata and must not reach the interface.
                let line = concat3(name, ": ", error.message());
                self.errors.push(line);
                assert(self.errors.deep_view() =~= before.push(error_line(name@, error)));
                None
            },
        }
    }

    /// The lyrics where no source had a timeline.
    pub fn finish(self) -> (lyrics: LyricsResult)
        ensures
            lyrics@ == finished(self@),
    {
        let mut lyrics = match self.fallback {
            Some(lyrics) => lyrics,
            None => LyricsResult::default(),
        };
        lyrics.errors = self.errors;
        lyrics
    }
}

// ----------------------------------------------------------------------- the lookup

/// A lyrics source that can be asked.
#[derive(Debug, Clone, Copy, PartialEq, Eq, Structural)]
pub enum Source {
    Lrclib,
    PetitLyrics,
    Musixmatch,
    Netease,
    QqMusic,
}

/// The source with this id.
pub open spec fn source_with(id: Seq<char>) -> Option<Source> {
    if id == "lrclib"@ {
        Some(Source::Lrclib)
    } else if id == "petitlyrics"@ {
        Some(Source::PetitLyrics)
    } else if id == "musixmatch"@ {
        Some(Source::Musixmatch)
    } else if id == "netease"@ {
        Some(Source::Netease)
    } else if id == "qqmusic"@ {
        Some(Source::QqMusic)
    } else {
        None
    }
}

/// The name of a source.
pub open spec fn source_name(source: Source) -> Seq<char> {
    match source {
        Source::Lrclib => "LRCLIB"@,
        Source::PetitLyrics => "PetitLyrics"@,
        Source::Musixmatch => "Musixmatch"@,
        Source::Netease => "NetEase"@,
        Source::QqMusic => "QQ Music"@,
    }
}

/// The source with this id.
pub fn source_of(id: &str) -> (source: Option<Source>)
    ensures
        source == source_with(id@),
{
    if same(id, "lrclib") {
        Some(Source::Lrclib)
    } else if same(id, "petitlyrics") {
        Some(Source::PetitLyrics)
    } else if same(id, "musixmatch") {
        Some(Source::Musixmatch)
    } else if same(id, "netease") {
        Some(Source::Netease)
    } else if same(id, "qqmusic") {
        Some(Source::QqMusic)
    } else {
        None
    }
}

impl Source {
    /// The name of this source.
    pub fn name(self) -> (text: &'static str)
        ensures
            text@ == source_name(self),
    {
        match self {
            Source::Lrclib => "LRCLIB",
            Source::PetitLyrics => "PetitLyrics",
            Source::Musixmatch => "Musixmatch",
            Source::Netease => "NetEase",
            Source::QqMusic => "QQ Music",
        }
    }
}

/// Every source that the settings list can be asked, under the name that they list.
pub proof fn every_listed_source_can_be_asked(id: Seq<char>)
    ensures
        label_for(id) == match source_with(id) {
            Some(source) => Some(source_name(source)),
            None => None,
        },
{
    reveal_with_fuel(label_from, 6);
    assert(PROVIDERS@[0].0@ == "lrclib"@);
    assert(PROVIDERS@[1].0@ == "petitlyrics"@);
    assert(PROVIDERS@[2].0@ == "musixmatch"@);
    assert(PROVIDERS@[3].0@ == "netease"@);
    assert(PROVIDERS@[4].0@ == "qqmusic"@);
}

/// The sources to ask, in this order. Unknown ids are passed over.
pub open spec fn planned(order: Seq<Seq<char>>) -> Seq<Source>
    decreases order.len(),
{
    if order.len() == 0 {
        Seq::empty()
    } else {
        let before = planned(order.drop_last());
        match source_with(order.last()) {
            Some(source) => before.push(source),
            None => before,
        }
    }
}

fn plan_of(order: &[String]) -> (plan: Vec<Source>)
    ensures
        plan@ == planned(order.deep_view()),
{
    let ghost views = order.deep_view();
    let mut plan: Vec<Source> = Vec::new();
    let mut i: usize = 0;
    assert(plan@ =~= planned(views.take(0)));
    while i < order.len()
        invariant
            i <= order@.len(),
            views == order.deep_view(),
            plan@ == planned(views.take(i as int)),
        decreases order@.len() - i,
    {
        assert(views.take(i + 1).drop_last() =~= views.take(i as int));
        assert(views.take(i + 1).last() == order@[i as int]@);
        if let Some(source) = source_of(order[i].as_str()) {
            plan.push(source);
        }
        i += 1;
    }
    assert(views.take(i as int) =~= views);
    plan
}

/// An ordered lookup that is under way.
#[derive(Debug)]
pub struct Lookup {
    pub plan: Vec<Source>,
    /// How many of the sources have been asked.
    pub asked: usize,
    pub chain: Chain,
}

impl Lookup {
    /// Start a lookup over these sources.
    pub fn new(order: &[String]) -> (lookup: Self)
        ensures
            lookup.plan@ == planned(order.deep_view()),
            lookup.asked == 0,
            lookup.chain@ == new_chain(),
    {
        Lookup { plan: plan_of(order), asked: 0, chain: Chain::new() }
    }

    /// The source to ask next, `None` where all were asked.
    pub fn next(&self) -> (source: Option<Source>)
        ensures
            source == if self.asked < self.plan@.len() {
                Some(self.plan@[self.asked as int])
            } else {
                None
            },
    {
        if self.asked < self.plan.len() {
            Some(self.plan[self.asked])
        } else {
            None
        }
    }

    /// Take what the source asked came to. Returns the result to stop on, or `None` to go on.
    pub fn answer(&mut self, result: ProviderResult) -> (stop: Option<LyricsResult>)
        requires
            old(self).asked < old(self).plan@.len(),
        ensures
            final(self).plan == old(self).plan,
            final(self).asked == old(self).asked + 1,
            is_synced(outcome(result)) ==> (stop matches Some(lyrics) && lyrics@ == (LyricsView {
                errors: old(self).chain@.errors,
                ..outcome(result)->Ok_0
            })) && final(self).chain@ == (ChainView {
                errors: Seq::empty(),
                ..old(self).chain@
            }),
            !is_synced(outcome(result)) ==> stop is None && final(self).chain@ == considered(
                old(self).chain@,
                source_name(old(self).plan@[old(self).asked as int]),
                outcome(result),
            ),
    {
        let source = self.plan[self.asked];
        assert(self.asked < self.plan.len());
        self.asked = self.asked + 1;
        self.chain.consider(source.name(), result)
    }

    /// The lyrics where no source had a timeline.
    pub fn finish(self) -> (lyrics: LyricsResult)
        ensures
            lyrics@ == finished(self.chain@),
    {
        self.chain.finish()
    }
}

/// What the results of a lookup say.
pub open spec fn outcomes_of(results: Seq<ProviderResult>) -> Seq<
    Result<LyricsView, ProviderError>,
> {
    Seq::new(results.len(), |i: int| outcome(results[i]))
}

/// What a lookup comes to that has reached one of the sources, given what each came to.
pub open spec fn looked_up(
    chain: ChainView,
    plan: Seq<Source>,
    outcomes: Seq<Result<LyricsView, ProviderError>>,
    from: int,
) -> LyricsView
    decreases outcomes.len() - from,
{
    if from < 0 || from >= outcomes.len() || from >= plan.len() {
        finished(chain)
    } else if is_synced(outcomes[from]) {
        LyricsView { errors: chain.errors, ..outcomes[from]->Ok_0 }
    } else {
        looked_up(
            considered(chain, source_name(plan[from]), outcomes[from]),
            plan,
            outcomes,
            from + 1,
        )
    }
}

/// Ordered lookup across the sources, given what each came to.
///
/// The first synchronized result wins. Plain text from an earlier provider is kept only as a
/// fallback, so a source with words but no timeline never stops a later source from supplying
/// the timeline. A provider that errors is noted and skipped: none of them is allowed to break
/// the chain.
pub fn fetch_lyrics(order: &[String], results: Vec<ProviderResult>) -> (lyrics: LyricsResult)
    ensures
        lyrics@ == looked_up(
            new_chain(),
            planned(order.deep_view()),
            outcomes_of(results@),
            0,
        ),
{
    let ghost plan = planned(order.deep_view());
    let ghost outcomes = outcomes_of(results@);
    let mut lookup = Lookup::new(order);
    for result in it: results
        invariant
            it.seq() == results@,
            plan == planned(order.deep_view()),
            outcomes == outcomes_of(results@),
            lookup.plan@ == plan,
            lookup.asked == if it.index() < plan.len() {
                it.index()
            } else {
                plan.len() as int
            },
            looked_up(new_chain(), plan, outcomes, 0) == looked_up(
                lookup.chain@,
                plan,
                outcomes,
                lookup.asked as int,
            ),
    {
        assert(outcome(result) == outcomes[it.index()]);
        if lookup.next().is_some() {
            if let Some(lyrics) = lookup.answer(result) {
                return lyrics;
            }
        }
    }
    lookup.finish()
}

/// The notes on the first `n` sources: one for each that failed.
pub open spec fn failures(
    plan: Seq<Source>,
    outcomes: Seq<Result<LyricsView, ProviderError>>,
    n: int,
) -> Seq<Seq<char>>
    decreases n,
{
    if n <= 0 {
        Seq::empty()
    } else {
        match outcomes[n - 1] {
            Ok(_) => failures(plan, outcomes, n - 1),
            Err(error) => failures(plan, outcomes, n - 1).push(
                error_line(source_name(plan[n - 1]), error),
            ),
        }
    }
}

/// The first of the first `n` results that has words.
pub open spec fn first_words(
    outcomes: Seq<Result<LyricsView, ProviderError>>,
    n: int,
) -> Option<LyricsView>
    decreases n,
{
    if n <= 0 {
        None
    } else {
        match (first_words(outcomes, n - 1), outcomes[n - 1]) {
            (Some(lyrics), _) => Some(lyrics),
            (None, Ok(lyrics)) if lyrics.text.len() > 0 => Some(lyrics),
            (None, _) => None,
        }
    }
}

proof fn looked_up_from(
    plan: Seq<Source>,
    outcomes: Seq<Result<LyricsView, ProviderError>>,
    n: int,
)
    requires
        0 <= n <= outcomes.len(),
        n <= plan.len(),
        forall|i: int| 0 <= i < n ==> !is_synced(#[trigger] outcomes[i]),
    ensures
        looked_up(new_chain(), plan, outcomes, 0) == looked_up(
            ChainView {
                fallback: first_words(outcomes, n),
                errors: failures(plan, outcomes, n),
            },
            plan,
            outcomes,
            n,
        ),
    decreases n,
{
    if n > 0 {
        looked_up_from(plan, outcomes, n - 1);
        assert(!is_synced(outcomes[n - 1]));
    }
}

/// The first synchronized result wins, whatever the sources before it had, and whatever those
/// after it would have had. Sources that failed before it are noted with it.
pub proof fn the_first_timeline_wins(
    plan: Seq<Source>,
    outcomes: Seq<Result<LyricsView, ProviderError>>,
    at: int,
)
    requires
        0 <= at < outcomes.len(),
        at < plan.len(),
        is_synced(outcomes[at]),
        forall|i: int| 0 <= i < at ==> !is_synced(#[trigger] outcomes[i]),
    ensures
        looked_up(new_chain(), plan, outcomes, 0) == (LyricsView {
            errors: failures(plan, outcomes, at),
            ..outcomes[at]->Ok_0
        }),
{
    looked_up_from(plan, outcomes, at);
}

/// Where no source has a timeline, the first that has words is kept, every source that failed is
/// noted, and none of them breaks the chain.
pub proof fn plain_words_are_only_a_fallback(
    plan: Seq<Source>,
    outcomes: Seq<Result<LyricsView, ProviderError>>,
)
    requires
        outcomes.len() == plan.len(),
        forall|i: int| 0 <= i < outcomes.len() ==> !is_synced(#[trigger] outcomes[i]),
    ensures
        looked_up(new_chain(), plan, outcomes, 0) == (LyricsView {
            errors: failures(plan, outcomes, plan.len() as int),
            ..match first_words(outcomes, plan.len() as int) {
                Some(lyrics) => lyrics,
                None => no_lyrics(Seq::empty()),
            }
        }),
{
    looked_up_from(plan, outcomes, plan.len() as int);
}

/// A source is asked at most twice: after two replies each has come to an end.
pub proof fn a_source_is_asked_at_most_twice(query: QueryView, replies: Seq<ReplyView>)
    requires
        replies.len() >= 2,
    ensures
        lrclib_step(query, replies) is Done,
        petitlyrics_step(query, replies) is Done,
        netease_step(query, replies) is Done,
        qqmusic_step(query, replies) is Done,
{
}

/// None of these sources is told the Spotify id: what they are asked, and what their replies
/// come to, does not depend on it.
pub proof fn the_spotify_id_stays_out_of_other_sources(
    query: QueryView,
    id: Option<Seq<char>>,
    replies: Seq<ReplyView>,
)
    ensures
        ({
            let other = QueryView { spotify_id: id, ..query };
            &&& lrclib_step(other, replies) == lrclib_step(query, replies)
            &&& petitlyrics_step(other, replies) == petitlyrics_step(query, replies)
            &&& netease_step(other, replies) == netease_step(query, replies)
            &&& qqmusic_step(other, replies) == qqmusic_step(query, replies)
        }),
{
    let other = QueryView { spotify_id: id, ..query };
    assert(netease_album(other) =~= netease_album(query));
    assert(netease_fits(other) =~= netease_fits(query));
    assert(qq_album(other) =~= qq_album(query));
    assert(qq_fits(other) =~= qq_fits(query));
}

} // verus!
