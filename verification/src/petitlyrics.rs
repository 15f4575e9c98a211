//! PetitLyrics (プチリリ), the lyrics platform most Japanese third-party players use.
//!
//! This is an unofficial public endpoint: it can change or block access, so every failure here
//! has to stay recoverable by the next provider in the chain.
//!
//! `lyricsType` selects one of three unrelated payload shapes:
//!   1 = plain UTF-8 text
//!   2 = an obfuscated binary blob that also needs a second request of type 1; never asked for
//!   3 = XML with per-word millisecond timings; asked for first

use vstd::prelude::*;

use crate::codec::{
    base64_decode, base64_decoded, lossy_text, text_from_utf8, text_from_utf8_lossy, utf8_text,
};
use crate::double::{millis_rounded, rounded_millis};
use crate::http::{
    is_success, no_pairs, push_pair, replies_of, success, HttpRequest, Method, Reply, ReplyView,
    RequestView,
};
use crate::json::{
    as_array, as_double_bits, double_in, field, get_within, items_in, json_in_text, parse_text,
    within, Json, JsonView,
};
use crate::lrc::{never_goes_back, Cue, CueView};
use crate::matching::{key_of, normalize};
use crate::providers::{
    any_words, fault_error, first_artist, has_words, lyrics_from_raw, no_lyrics, str_field,
    text_field, timed, timed_lyrics, LyricsResult, LyricsView, ProviderError, QueryView, Step,
    StepView, TrackQuery,
};
use crate::text::{
    chars_of, filter_last, is_white_space, parse_i64, parsed_i64, same, trim, trim_text,
    white_space,
};
use crate::xml::{
    child_text, find_named, first_named, is_child, is_child_of, parse_xml, text_of_child,
    xml_nodes, XmlNode, XmlView,
};

verus! {

// ------------------------------------------------------------------------ time order

/// Where a cue of this time goes in a list: behind every cue that is not later.
pub open spec fn place_for(cues: Seq<CueView>, time_ms: int) -> int
    decreases cues.len(),
{
    if cues.len() == 0 || cues.last().time_ms <= time_ms {
        cues.len() as int
    } else {
        place_for(cues.drop_last(), time_ms)
    }
}

/// The cues in the order of their times. Cues of the same time stay in the order they had.
pub open spec fn in_time_order(cues: Seq<CueView>) -> Seq<CueView>
    decreases cues.len(),
{
    if cues.len() == 0 {
        Seq::empty()
    } else {
        let before = in_time_order(cues.drop_last());
        before.insert(place_for(before, cues.last().time_ms), cues.last())
    }
}

proof fn place_is_inside(cues: Seq<CueView>, time_ms: int)
    ensures
        0 <= place_for(cues, time_ms) <= cues.len(),
        forall|i: int|
            place_for(cues, time_ms) <= i < cues.len() ==> (#[trigger] cues[i]).time_ms > time_ms,
        place_for(cues, time_ms) > 0 ==> cues[place_for(cues, time_ms) - 1].time_ms <= time_ms,
    decreases cues.len(),
{
    if cues.len() > 0 && cues.last().time_ms > time_ms {
        place_is_inside(cues.drop_last(), time_ms);
        assert forall|i: int| place_for(cues, time_ms) <= i < cues.len() implies (
        #[trigger] cues[i]).time_ms > time_ms by {
            if i < cues.len() - 1 {
                assert(cues.drop_last()[i] == cues[i]);
            }
        }
    }
}

/// Putting cues in time order keeps every one of them, and none is earlier than one before it.
pub proof fn time_order_keeps_every_cue(cues: Seq<CueView>)
    ensures
        never_goes_back(in_time_order(cues)),
        in_time_order(cues).to_multiset() == cues.to_multiset(),
        in_time_order(cues).len() == cues.len(),
    decreases cues.len(),
{
    broadcast use vstd::seq_lib::group_to_multiset_ensures;

    if cues.len() > 0 {
        let front = cues.drop_last();
        let before = in_time_order(front);
        let cue = cues.last();
        let at = place_for(before, cue.time_ms);
        let list = in_time_order(cues);
        time_order_keeps_every_cue(front);
        place_is_inside(before, cue.time_ms);
        assert forall|i: int, j: int| 0 <= i <= j < list.len() implies (#[trigger] list[i]).time_ms
            <= (#[trigger] list[j]).time_ms by {
            let a = if i < at {
                i
            } else {
                i - 1
            };
            let b = if j < at {
                j
            } else {
                j - 1
            };
            if i == at && j != at {
                assert(list[j] == before[b]);
            } else if j == at && i != at {
                assert(list[i] == before[a]);
                assert(before[a].time_ms <= before[at - 1].time_ms);
            } else if i != at && j != at {
                assert(list[i] == before[a] && list[j] == before[b]);
            }
        }
        assert(front.push(cue) =~= cues);
        assert(before.insert(at, cue).to_multiset() =~= before.to_multiset().insert(cue)) by {
            vstd::seq_lib::to_multiset_insert(before, at, cue);
        }
    }
}

fn sort_by_time(cues: Vec<Cue>) -> (list: Vec<Cue>)
    ensures
        list.deep_view() == in_time_order(cues.deep_view()),
{
    let ghost views = cues.deep_view();
    let mut list: Vec<Cue> = Vec::new();
    assert(list.deep_view() =~= in_time_order(views.take(0)));
    for cue in it: cues
        invariant
            it.seq() == cues@,
            views == cues.deep_view(),
            list.deep_view() == in_time_order(views.take(it.index())),
    {
        let ghost i = it.index();
        let ghost before = list.deep_view();
        let ghost view = cue@;
        assert(views.take(i + 1).drop_last() =~= views.take(i));
        assert(views.take(i + 1).last() == view);
        let mut at: usize = list.len();
        assert(before.take(at as int) =~= before);
        while at > 0 && list[at - 1].time_ms > cue.time_ms
            invariant
                at <= list@.len(),
                before == list.deep_view(),
                view == cue@,
                place_for(before, view.time_ms) == place_for(
                    before.take(at as int),
                    view.time_ms,
                ),
            decreases at,
        {
            assert(before.take(at as int).last() == list@[at - 1]@);
            assert(before.take(at as int).drop_last() =~= before.take(at - 1));
            at -= 1;
        }
        proof {
            if at > 0 {
                assert(before.take(at as int).last() == list@[at - 1]@);
            }
        }
        list.insert(at, cue);
        assert(list.deep_view() =~= before.insert(at as int, view));
    }
    assert(views.take(views.len() as int) =~= views);
    list
}

// -------------------------------------------------------------- word-synced documents

/// When a word starts.
pub open spec fn word_start(nodes: Seq<XmlView>, word: int) -> Option<i64> {
    match child_text(nodes, word, "starttime"@) {
        Some(text) => parsed_i64(trim(text)),
        None => None,
    }
}

/// When a line starts: when the first of its words that says so does, from one node on.
pub open spec fn line_start(nodes: Seq<XmlView>, line: int, from: int) -> Option<i64>
    decreases nodes.len() - from,
{
    if from < 0 || from >= nodes.len() {
        None
    } else if is_child(nodes, from, line, "word"@) && word_start(nodes, from) is Some {
        word_start(nodes, from)
    } else {
        line_start(nodes, line, from + 1)
    }
}

/// The words of a line among the first `n` nodes, one behind the other.
pub open spec fn words_in_line(nodes: Seq<XmlView>, line: int, n: int) -> Seq<char>
    decreases n,
{
    if n <= 0 {
        Seq::empty()
    } else {
        let before = words_in_line(nodes, line, n - 1);
        if is_child(nodes, n - 1, line, "word"@) {
            match child_text(nodes, n - 1, "wordstring"@) {
                Some(word) => before + word,
                None => before,
            }
        } else {
            before
        }
    }
}

/// The text of a line. Some payloads omit it; then it is rebuilt from its words.
pub open spec fn line_text(nodes: Seq<XmlView>, line: int) -> Seq<char> {
    match child_text(nodes, line, "linestring"@) {
        Some(text) => trim(text),
        None => trim(words_in_line(nodes, line, nodes.len() as int)),
    }
}

/// The cues of the lines among the first `n` nodes. A line without a time is left out.
pub open spec fn line_cues(nodes: Seq<XmlView>, n: int) -> Seq<CueView>
    decreases n,
{
    if n <= 0 {
        Seq::empty()
    } else {
        let before = line_cues(nodes, n - 1);
        match line_start(nodes, n - 1, 0) {
            Some(start) if nodes[n - 1].name == "line"@ => before.push(
                CueView {
                    time_ms: if start < 0 {
                        0
                    } else {
                        start as int
                    },
                    text: line_text(nodes, n - 1),
                },
            ),
            _ => before,
        }
    }
}

/// The timeline in a document.
pub open spec fn word_synced(nodes: Seq<XmlView>) -> Option<Seq<CueView>> {
    let cues = line_cues(nodes, nodes.len() as int);
    if cues.len() == 0 {
        None
    } else {
        Some(in_time_order(cues))
    }
}

fn start_of_word(nodes: &[XmlNode], word: usize) -> (start: Option<i64>)
    ensures
        start == word_start(nodes.deep_view(), word as int),
{
    match text_of_child(nodes, word, "starttime") {
        Some(text) => {
            let trimmed = trim_text(text.as_str());
            parse_i64(&chars_of(trimmed.as_str()))
        },
        None => None,
    }
}

fn start_of_line(nodes: &[XmlNode], line: usize) -> (start: Option<i64>)
    ensures
        start == line_start(nodes.deep_view(), line as int, 0),
{
    let mut i: usize = 0;
    while i < nodes.len()
        invariant
            i <= nodes@.len(),
            line_start(nodes.deep_view(), line as int, 0) == line_start(
                nodes.deep_view(),
                line as int,
                i as int,
            ),
        decreases nodes@.len() - i,
    {
        if is_child_of(nodes, i, line, "word") {
            let start = start_of_word(nodes, i);
            if start.is_some() {
                return start;
            }
        }
        i += 1;
    }
    None
}

fn text_of_line(nodes: &[XmlNode], line: usize) -> (text: String)
    ensures
        text@ == line_text(nodes.deep_view(), line as int),
{
    if let Some(text) = text_of_child(nodes, line, "linestring") {
        return trim_text(text.as_str());
    }
    let mut words = String::new();
    let mut i: usize = 0;
    while i < nodes.len()
        invariant
            i <= nodes@.len(),
            words@ == words_in_line(nodes.deep_view(), line as int, i as int),
        decreases nodes@.len() - i,
    {
        if is_child_of(nodes, i, line, "word") {
            if let Some(word) = text_of_child(nodes, i, "wordstring") {
                words.append(word.as_str());
            }
        }
        i += 1;
    }
    trim_text(words.as_str())
}

/// What an optional list of cues says.
pub open spec fn cues_view(cues: Option<Vec<Cue>>) -> Option<Seq<CueView>> {
    match cues {
        Some(cues) => Some(cues.deep_view()),
        None => None,
    }
}

/// Fold the per-word timings of a document into one cue per line.
pub fn fold_words(nodes: &[XmlNode]) -> (cues: Option<Vec<Cue>>)
    ensures
        cues_view(cues) == word_synced(nodes.deep_view()),
{
    let mut cues: Vec<Cue> = Vec::new();
    let mut i: usize = 0;
    assert(cues.deep_view() =~= line_cues(nodes.deep_view(), 0));
    while i < nodes.len()
        invariant
            i <= nodes@.len(),
            cues.deep_view() == line_cues(nodes.deep_view(), i as int),
        decreases nodes@.len() - i,
    {
        let ghost before = cues.deep_view();
        assert(nodes.deep_view()[i as int] == nodes@[i as int]@);
        if same(nodes[i].name.as_str(), "line") {
            // A line starts when its first word starts.
            if let Some(start) = start_of_line(nodes, i) {
                let time_ms: i64 = if start < 0 {
                    0
                } else {
                    start
                };
                let cue = Cue { time_ms, text: text_of_line(nodes, i) };
                let ghost view = cue@;
                cues.push(cue);
                assert(cues.deep_view() =~= before.push(view));
            }
        }
        i += 1;
    }
    assert(cues@.len() == cues.deep_view().len());
    if cues.len() == 0 {
        None
    } else {
        Some(sort_by_time(cues))
    }
}

/// The timeline in the text of a document.
pub open spec fn word_synced_in(xml: Seq<char>) -> Option<Seq<CueView>> {
    match xml_nodes(xml) {
        Some(nodes) => word_synced(nodes),
        None => None,
    }
}

/// Fold the per-word timings of a `<wsy>` document into one cue per line.
pub fn parse_word_synced(xml: &str) -> (cues: Option<Vec<Cue>>)
    ensures
        cues_view(cues) == word_synced_in(xml@),
{
    match parse_xml(xml) {
        Some(nodes) => fold_words(&nodes),
        None => None,
    }
}

// ------------------------------------------------------------------------- cue lists

/// The cue that an entry of a cue list is, where it has a time.
pub open spec fn entry_cue(entry: JsonView) -> Option<CueView> {
    match double_in(within(field(entry, "time"@), "total"@)) {
        Some(bits) => Some(
            CueView {
                time_ms: rounded_millis(bits) as int,
                text: trim(text_field(entry, "text"@)),
            },
        ),
        None => None,
    }
}

/// The cues of the first `n` entries, `None` where one of them has no time.
pub open spec fn entry_cues(entries: Seq<JsonView>, n: int) -> Option<Seq<CueView>>
    decreases n,
{
    if n <= 0 {
        Some(Seq::empty())
    } else {
        match (entry_cues(entries, n - 1), entry_cue(entries[n - 1])) {
            (Some(before), Some(cue)) => Some(before.push(cue)),
            _ => None,
        }
    }
}

proof fn one_without_a_time(entries: Seq<JsonView>, at: int, n: int)
    requires
        0 <= at < n,
        entry_cue(entries[at]) is None,
    ensures
        entry_cues(entries, n) is None,
    decreases n,
{
    if at < n - 1 {
        one_without_a_time(entries, at, n - 1);
    }
}

/// The timeline in a cue list.
pub open spec fn mxm_cues(list: JsonView) -> Option<Seq<CueView>> {
    match items_in(Some(list)) {
        Some(entries) => match entry_cues(entries, entries.len() as int) {
            Some(cues) if cues.len() > 0 => Some(in_time_order(cues)),
            _ => None,
        },
        None => None,
    }
}

/// The timeline in the text of a cue list.
pub open spec fn mxm_subtitle(body: Seq<char>) -> Option<Seq<CueView>> {
    match json_in_text(body) {
        Some(list) => mxm_cues(list),
        None => None,
    }
}

/// Read a cue list.
pub fn read_cue_list(list: &Json) -> (cues: Option<Vec<Cue>>)
    ensures
        cues_view(cues) == mxm_cues(list@),
{
    let ghost entries = items_in(Some(list@));
    match as_array(Some(list)) {
        None => None,
        Some(items) => {
            let ghost views = entries->0;
            let mut cues: Vec<Cue> = Vec::new();
            let mut i: usize = 0;
            assert(cues.deep_view() =~= Seq::empty());
            while i < items.len()
                invariant
                    i <= items@.len(),
                    entries == items_in(Some(list@)),
                    entries is Some,
                    views == entries->0,
                    views.len() == items@.len(),
                    forall|j: int| 0 <= j < items@.len() ==> (#[trigger] items@[j])@ == views[j],
                    entry_cues(views, i as int) == Some(cues.deep_view()),
                decreases items@.len() - i,
            {
                let ghost before = cues.deep_view();
                let entry = &items[i];
                match as_double_bits(get_within(entry.get("time"), "total")) {
                    None => {
                        proof {
                            one_without_a_time(views, i as int, views.len() as int);
                        }
                        return None;
                    },
                    Some(bits) => {
                        let text = str_field(entry, "text");
                        let cue = Cue {
                            time_ms: millis_rounded(bits),
                            text: trim_text(text.as_str()),
                        };
                        let ghost view = cue@;
                        cues.push(cue);
                        assert(cues.deep_view() =~= before.push(view));
                    },
                }
                i += 1;
            }
            assert(cues@.len() == cues.deep_view().len());
            if cues.len() == 0 {
                None
            } else {
                Some(sort_by_time(cues))
            }
        },
    }
}

/// The `mxm` subtitle format Musixmatch returns is a JSON string of cue objects; it lives here
/// because both Japanese providers hand back nested payloads.
pub fn parse_mxm_subtitle(body: &str) -> (cues: Option<Vec<Cue>>)
    ensures
        cues_view(cues) == mxm_subtitle(body@),
{
    match parse_text(body) {
        Some(list) => read_cue_list(&list),
        None => None,
    }
}

// ------------------------------------------------------------------------- one reply

/// Ask PetitLyrics for a song.
pub open spec fn petit_asks(query: QueryView, lyrics_type: Seq<char>) -> RequestView {
    RequestView {
        method: Method::Post,
        url: "https://p1.petitlyrics.com/api/GetPetitLyricsData.php"@,
        query: Seq::empty(),
        form: seq![
            ("clientAppId"@, "p1110417"@),
            ("terminalType"@, "10"@),
            ("lyricsType"@, lyrics_type),
            ("key_title"@, query.track),
            ("key_artist"@, first_artist(query.artists)),
            ("key_album"@, query.album),
        ],
        headers: Seq::empty(),
    }
}

/// Ask PetitLyrics for a song.
pub fn request(query: &TrackQuery, lyrics_type: &str) -> (request: HttpRequest)
    ensures
        request@ == petit_asks(query@, lyrics_type@),
{
    let mut form = no_pairs();
    push_pair(&mut form, "clientAppId", "p1110417");
    push_pair(&mut form, "terminalType", "10");
    push_pair(&mut form, "lyricsType", lyrics_type);
    push_pair(&mut form, "key_title", query.track.as_str());
    let artist = query.primary_artist();
    push_pair(&mut form, "key_artist", artist.as_str());
    push_pair(&mut form, "key_album", query.album.as_str());
    let request = HttpRequest {
        method: Method::Post,
        url: "https://p1.petitlyrics.com/api/GetPetitLyricsData.php".to_owned(),
        query: no_pairs(),
        form,
        headers: no_pairs(),
    };
    assert(request@.form =~= petit_asks(query@, lyrics_type@).form);
    request
}

/// The text of the first element of this name inside another, empty where there is none.
pub open spec fn text_inside(nodes: Seq<XmlView>, parent: int, name: Seq<char>) -> Seq<char> {
    match child_text(nodes, parent, name) {
        Some(text) => text,
        None => Seq::empty(),
    }
}

/// The text without its white space.
pub open spec fn without_white_space(text: Seq<char>) -> Seq<char> {
    text.filter(|c: char| !white_space(c))
}

fn drop_white_space(text: &str) -> (rest: String)
    ensures
        rest@ == without_white_space(text@),
{
    let chars = chars_of(text);
    let ghost keep = |c: char| !white_space(c);
    let mut rest = String::new();
    let mut i: usize = 0;
    proof {
        reveal(Seq::filter);
        assert(rest@ =~= chars@.take(0).filter(keep));
    }
    while i < chars.len()
        invariant
            i <= chars@.len(),
            keep == (|c: char| !white_space(c)),
            rest@ == chars@.take(i as int).filter(keep),
        decreases chars@.len() - i,
    {
        proof {
            filter_last(chars@.take(i + 1), keep);
            assert(chars@.take(i + 1).drop_last() == chars@.take(i as int));
        }
        if !is_white_space(chars[i]) {
            rest.push(chars[i]);
        }
        i += 1;
    }
    assert(chars@.take(chars@.len() as int) == chars@);
    rest
}

/// What the bytes of a payload say.
pub open spec fn payload_text(bytes: Option<Seq<u8>>) -> Result<Option<Seq<char>>, ProviderError> {
    match bytes {
        None => Err(ProviderError::BadPayload),
        Some(bytes) => match utf8_text(bytes) {
            None => Err(ProviderError::BadPayload),
            Some(text) => Ok(Some(text)),
        },
    }
}

/// The payload of the song in a document, `None` where there is none of the wanted title.
///
/// The endpoint matched on title, artist and album, but it answers fuzzily, so the title it
/// actually returned is confirmed. PetitLyrics exposes no reliable duration or Spotify id, so the
/// title is the strictest key available.
pub open spec fn song_payload(query: QueryView, nodes: Seq<XmlView>) -> Result<
    Option<Seq<char>>,
    ProviderError,
> {
    match first_named(nodes, "song"@, 0) {
        None => Ok(None),
        Some(song) => {
            let title = text_inside(nodes, song, "title"@);
            let encoded = without_white_space(text_inside(nodes, song, "lyricsData"@));
            if title.len() > 0 && key_of(title) != key_of(query.track) {
                Ok(None)
            } else if encoded.len() == 0 {
                Ok(None)
            } else {
                payload_text(base64_decoded(encoded))
            }
        },
    }
}

/// The payload in a reply.
pub open spec fn reply_payload(query: QueryView, reply: ReplyView) -> Result<
    Option<Seq<char>>,
    ProviderError,
> {
    match reply {
        ReplyView::Failed(fault) => Err(fault_error(fault)),
        ReplyView::Answered { status, body } => if !success(status) {
            Err(ProviderError::Http)
        } else {
            match body {
                Err(fault) => Err(fault_error(fault)),
                Ok(bytes) => match xml_nodes(lossy_text(bytes)) {
                    None => Err(ProviderError::BadPayload),
                    Some(nodes) => song_payload(query, nodes),
                },
            }
        },
    }
}

/// What a payload that was read says.
pub open spec fn payload_view(payload: Result<Option<String>, ProviderError>) -> Result<
    Option<Seq<char>>,
    ProviderError,
> {
    match payload {
        Ok(payload) => Ok(payload.deep_view()),
        Err(error) => Err(error),
    }
}

/// Read the bytes of a payload.
pub fn read_payload(bytes: Option<Vec<u8>>) -> (payload: Result<Option<String>, ProviderError>)
    ensures
        payload_view(payload) == payload_text(
            match bytes {
                Some(bytes) => Some(bytes@),
                None => None,
            },
        ),
{
    match bytes {
        None => Err(ProviderError::BadPayload),
        Some(bytes) => match text_from_utf8(bytes) {
            None => Err(ProviderError::BadPayload),
            Some(text) => Ok(Some(text)),
        },
    }
}

/// Read the payload of the song in a document.
pub fn read_song(query: &TrackQuery, nodes: &[XmlNode]) -> (payload: Result<
    Option<String>,
    ProviderError,
>)
    ensures
        payload_view(payload) == song_payload(query@, nodes.deep_view()),
{
    let song = match find_named(nodes, "song") {
        Some(song) => song,
        None => return Ok(None),
    };
    let title = match text_of_child(nodes, song, "title") {
        Some(title) => title,
        None => String::new(),
    };
    if !title.as_str().is_empty() {
        let found = normalize(title.as_str());
        let wanted = normalize(query.track.as_str());
        if !same(found.as_str(), wanted.as_str()) {
            return Ok(None);
        }
    }
    let data = match text_of_child(nodes, song, "lyricsData") {
        Some(data) => data,
        None => String::new(),
    };
    let encoded = drop_white_space(data.as_str());
    if encoded.as_str().is_empty() {
        return Ok(None);
    }
    read_payload(base64_decode(encoded.as_str()))
}

/// Read the payload in a reply.
pub fn read_reply(query: &TrackQuery, reply: &Reply) -> (payload: Result<
    Option<String>,
    ProviderError,
>)
    ensures
        payload_view(payload) == reply_payload(query@, reply@),
{
    match reply {
        Reply::Failed(fault) => Err(ProviderError::from_fault(*fault)),
        Reply::Answered { status, body } => {
            if !is_success(*status) {
                return Err(ProviderError::Http);
            }
            match body {
                Err(fault) => Err(ProviderError::from_fault(*fault)),
                Ok(bytes) => {
                    let text = text_from_utf8_lossy(bytes);
                    match parse_xml(text.as_str()) {
                        None => Err(ProviderError::BadPayload),
                        Some(nodes) => read_song(query, &nodes),
                    }
                },
            }
        },
    }
}

// ------------------------------------------------------------------------ the source

/// The lyrics in a timeline that was read from a word-synced payload, where there are any.
pub open spec fn synced_lyrics(cues: Option<Seq<CueView>>) -> Option<LyricsView> {
    match cues {
        Some(cues) if has_words(cues) => Some(timed_lyrics(cues, "PetitLyrics"@)),
        _ => None,
    }
}

/// The lyrics in a plain payload.
pub open spec fn plain_lyrics(payload: Option<Seq<char>>) -> LyricsView {
    match payload {
        Some(payload) if trim(payload).len() > 0 => lyrics_from_raw(
            trim(payload),
            "PetitLyrics"@,
        ),
        _ => no_lyrics("PetitLyrics"@),
    }
}

/// What to do about PetitLyrics, given the replies so far. Word-synced lyrics are asked for
/// first: only they carry a usable timeline. Plain text is still better than nothing, and
/// another provider may yet supply a timeline for the same song.
pub open spec fn petitlyrics_step(query: QueryView, replies: Seq<ReplyView>) -> StepView {
    if replies.len() == 0 {
        StepView::Ask(petit_asks(query, "3"@))
    } else if replies.len() == 1 {
        match reply_payload(query, replies[0]) {
            Err(error) => StepView::Done(Err(error)),
            Ok(Some(payload)) if synced_lyrics(word_synced_in(payload)) is Some => StepView::Done(
                Ok(synced_lyrics(word_synced_in(payload))->0),
            ),
            Ok(_) => StepView::Ask(petit_asks(query, "1"@)),
        }
    } else {
        match reply_payload(query, replies[1]) {
            Err(error) => StepView::Done(Err(error)),
            Ok(payload) => StepView::Done(Ok(plain_lyrics(payload))),
        }
    }
}

/// The lyrics in a timeline that was read from a word-synced payload, where there are any.
pub fn synced_result(cues: Option<Vec<Cue>>) -> (result: Option<LyricsResult>)
    ensures
        match result {
            Some(result) => synced_lyrics(cues_view(cues)) == Some(result@),
            None => synced_lyrics(cues_view(cues)) is None,
        },
{
    match cues {
        Some(cues) => if any_words(&cues) {
            Some(timed(cues, "PetitLyrics"))
        } else {
            None
        },
        None => None,
    }
}

/// The lyrics in a plain payload.
pub fn plain_result(payload: Option<String>) -> (result: LyricsResult)
    ensures
        result@ == plain_lyrics(payload.deep_view()),
{
    match payload {
        Some(payload) => {
            let text = trim_text(payload.as_str());
            if text.as_str().is_empty() {
                LyricsResult::empty("PetitLyrics")
            } else {
                LyricsResult::from_raw(text.as_str(), "PetitLyrics")
            }
        },
        None => LyricsResult::empty("PetitLyrics"),
    }
}

/// What to do about PetitLyrics, given the replies so far.
pub fn fetch(query: &TrackQuery, replies: &[Reply]) -> (step: Step)
    ensures
        step@ == petitlyrics_step(query@, replies_of(replies@)),
{
    if replies.len() == 0 {
        return Step::Ask(request(query, "3"));
    }
    if replies.len() == 1 {
        return match read_reply(query, &replies[0]) {
            Err(error) => Step::Done(Err(error)),
            Ok(Some(payload)) => match synced_result(parse_word_synced(payload.as_str())) {
                Some(result) => Step::Done(Ok(result)),
                None => Step::Ask(request(query, "1")),
            },
            Ok(None) => Step::Ask(request(query, "1")),
        };
    }
    match read_reply(query, &replies[1]) {
        Err(error) => Step::Done(Err(error)),
        Ok(payload) => Step::Done(Ok(plain_result(payload))),
    }
}

} // verus!
