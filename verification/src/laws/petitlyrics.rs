//! What PetitLyrics is asked, and how its documents are read.

use vstd::prelude::*;

use crate::codec::{base64_decoded, lossy_text, utf8_text};
use crate::double::rounded_millis;
use crate::http::{Method, ReplyView};
use crate::json::JsonView;
use crate::laws::json::{a_field_is_its_member, a_missing_field_is_nothing, has, is_double, lacks};
use crate::lrc::{never_goes_back, CueView};
use crate::matching::key_of;
use crate::petitlyrics::{
    entry_cue, entry_cues, in_time_order, line_cues, line_start, line_text, mxm_cues, petit_asks,
    petitlyrics_step, place_for, reply_payload, song_payload, time_order_keeps_every_cue,
    without_white_space, word_start, word_synced, word_synced_in, words_in_line,
};
use crate::providers::{has_words, lyrics_from_raw, words_of, ProviderError, QueryView, StepView};
use crate::text::{parsed_i64, trim, white_space};
use crate::xml::{child_text, first_child, first_named, xml_nodes, XmlView};

verus! {

// ------------------------------------------------------------------------------- elements

/// Whether a node is the first element of this name directly inside another.
pub open spec fn is_first_child(
    nodes: Seq<XmlView>,
    at: int,
    parent: int,
    name: Seq<char>,
) -> bool {
    &&& 0 <= at < nodes.len()
    &&& nodes[at].parent matches Some(around) && around == parent
    &&& nodes[at].name == name
    &&& forall|i: int|
        0 <= i < at ==> !((#[trigger] nodes[i]).name == name && nodes[i].parent is Some
            && nodes[i].parent->0 == parent)
}

/// Whether there is no element of this name directly inside another.
pub open spec fn has_no_child(nodes: Seq<XmlView>, parent: int, name: Seq<char>) -> bool {
    forall|i: int|
        0 <= i < nodes.len() ==> !((#[trigger] nodes[i]).name == name && nodes[i].parent is Some
            && nodes[i].parent->0 == parent)
}

proof fn first_child_from(nodes: Seq<XmlView>, at: int, parent: int, name: Seq<char>, from: int)
    requires
        is_first_child(nodes, at, parent, name),
        0 <= from <= at,
    ensures
        first_child(nodes, parent, name, from) == Some(at),
    decreases at - from,
{
    if from < at {
        assert(!(nodes[from].name == name && nodes[from].parent is Some && nodes[from].parent->0
            == parent));
        first_child_from(nodes, at, parent, name, from + 1);
    }
}

proof fn no_child_from(nodes: Seq<XmlView>, parent: int, name: Seq<char>, from: int)
    requires
        has_no_child(nodes, parent, name),
        0 <= from,
    ensures
        first_child(nodes, parent, name, from) is None,
    decreases nodes.len() - from,
{
    if from < nodes.len() {
        assert(!(nodes[from].name == name && nodes[from].parent is Some && nodes[from].parent->0
            == parent));
        no_child_from(nodes, parent, name, from + 1);
    }
}

/// The text of a child is that of the first element of the name directly inside.
pub proof fn a_child_is_the_first_of_its_name(
    nodes: Seq<XmlView>,
    at: int,
    parent: int,
    name: Seq<char>,
)
    ensures
        is_first_child(nodes, at, parent, name) ==> child_text(nodes, parent, name)
            == nodes[at].text,
        has_no_child(nodes, parent, name) ==> child_text(nodes, parent, name) is None,
{
    if is_first_child(nodes, at, parent, name) {
        first_child_from(nodes, at, parent, name, 0);
    }
    if has_no_child(nodes, parent, name) {
        no_child_from(nodes, parent, name, 0);
    }
}

/// The element of a name is the first one in the document.
pub proof fn an_element_is_the_first_of_its_name(
    nodes: Seq<XmlView>,
    at: int,
    name: Seq<char>,
    from: int,
)
    requires
        0 <= from <= at < nodes.len(),
        nodes[at].name == name,
        forall|i: int| from <= i < at ==> (#[trigger] nodes[i]).name != name,
    ensures
        first_named(nodes, name, from) == Some(at),
    decreases at - from,
{
    if from < at {
        assert(nodes[from].name != name);
        an_element_is_the_first_of_its_name(nodes, at, name, from + 1);
    }
}

// ---------------------------------------------------------------------------- word timings

/// A word starts where its `starttime` says.
pub proof fn a_word_starts_where_it_says(nodes: Seq<XmlView>, word: int, at: int, text: Seq<char>)
    ensures
        is_first_child(nodes, at, word, "starttime"@) && nodes[at].text == Some(text)
            ==> word_start(nodes, word) == parsed_i64(trim(text)),
        has_no_child(nodes, word, "starttime"@) ==> word_start(nodes, word) is None,
{
    a_child_is_the_first_of_its_name(nodes, at, word, "starttime"@);
}

/// A line starts with the first of its words that has a time.
pub proof fn a_line_starts_with_its_first_word(
    nodes: Seq<XmlView>,
    line: int,
    at: int,
    start: i64,
    from: int,
)
    requires
        0 <= from <= at < nodes.len(),
        nodes[at].name == "word"@,
        nodes[at].parent matches Some(around) && around == line,
        word_start(nodes, at) == Some(start),
        forall|i: int|
            from <= i < at && (#[trigger] nodes[i]).name == "word"@ && nodes[i].parent is Some
                && nodes[i].parent->0 == line ==> word_start(nodes, i) is None,
    ensures
        line_start(nodes, line, from) == Some(start),
    decreases at - from,
{
    if from < at {
        assert(nodes[from].name == "word"@ && nodes[from].parent is Some
            && nodes[from].parent->0 == line ==> word_start(nodes, from) is None);
        a_line_starts_with_its_first_word(nodes, line, at, start, from + 1);
    }
}

/// The text of a line is its `linestring`, without white space around it.
pub proof fn the_text_of_a_line_is_its_string(
    nodes: Seq<XmlView>,
    line: int,
    at: int,
    text: Seq<char>,
)
    ensures
        is_first_child(nodes, at, line, "linestring"@) && nodes[at].text == Some(text)
            ==> line_text(nodes, line) == trim(text),
        has_no_child(nodes, line, "linestring"@) ==> line_text(nodes, line) == trim(
            words_in_line(nodes, line, nodes.len() as int),
        ),
{
    a_child_is_the_first_of_its_name(nodes, at, line, "linestring"@);
}

/// The words of a line are put together as they come: those of other lines add nothing, and each
/// of its own adds its `wordstring` behind the others.
pub proof fn a_word_adds_its_string(
    nodes: Seq<XmlView>,
    line: int,
    word: int,
    at: int,
    text: Seq<char>,
)
    requires
        0 <= word < nodes.len(),
    ensures
        words_in_line(nodes, line, 0).len() == 0,
        nodes[word].name == "word"@ && (nodes[word].parent matches Some(around) && around == line)
            && is_first_child(nodes, at, word, "wordstring"@) && nodes[at].text == Some(text)
            ==> words_in_line(nodes, line, word + 1) == words_in_line(nodes, line, word) + text,
        nodes[word].name != "word"@ ==> words_in_line(nodes, line, word + 1) == words_in_line(
            nodes,
            line,
            word,
        ),
        nodes[word].parent is None ==> words_in_line(nodes, line, word + 1) == words_in_line(
            nodes,
            line,
            word,
        ),
        (nodes[word].parent matches Some(around) && around != line) ==> words_in_line(
            nodes,
            line,
            word + 1,
        ) == words_in_line(nodes, line, word),
{
    a_child_is_the_first_of_its_name(nodes, at, word, "wordstring"@);
}

/// The cue of a line that starts at this time. None comes before the start.
pub open spec fn cue_of_line(nodes: Seq<XmlView>, line: int, start: i64) -> CueView {
    CueView {
        time_ms: if start >= 0 {
            start as int
        } else {
            0
        },
        text: line_text(nodes, line),
    }
}

/// Whether a node is a line that starts at this time.
pub open spec fn starts_at(nodes: Seq<XmlView>, line: int, start: i64) -> bool {
    0 <= line < nodes.len() && nodes[line].name == "line"@ && line_start(nodes, line, 0) == Some(
        start,
    )
}

/// Whether a cue is that of some line with a time.
pub open spec fn stands_in_a_line(nodes: Seq<XmlView>, cue: CueView) -> bool {
    exists|line: int, start: i64| #[trigger]
        starts_at(nodes, line, start) && cue == cue_of_line(nodes, line, start)
}

proof fn a_line_is_a_cue(nodes: Seq<XmlView>, line: int, start: i64, n: int)
    requires
        starts_at(nodes, line, start),
        line < n <= nodes.len(),
    ensures
        line_cues(nodes, n).contains(cue_of_line(nodes, line, start)),
    decreases n,
{
    let cues = line_cues(nodes, n);
    let wanted = cue_of_line(nodes, line, start);
    if line < n - 1 {
        a_line_is_a_cue(nodes, line, start, n - 1);
        let before = line_cues(nodes, n - 1);
        let k = choose|k: int| 0 <= k < before.len() && before[k] == wanted;
        assert(cues[k] == wanted);
    } else {
        assert(cues[cues.len() - 1] == wanted);
    }
}

proof fn a_cue_is_a_line(nodes: Seq<XmlView>, n: int, k: int) -> (found: (int, i64))
    requires
        0 <= n <= nodes.len(),
        0 <= k < line_cues(nodes, n).len(),
    ensures
        starts_at(nodes, found.0, found.1),
        line_cues(nodes, n)[k] == cue_of_line(nodes, found.0, found.1),
    decreases n,
{
    let before = line_cues(nodes, n - 1);
    if k < before.len() {
        assert(line_cues(nodes, n)[k] == before[k]);
        a_cue_is_a_line(nodes, n - 1, k)
    } else {
        (n - 1, line_start(nodes, n - 1, 0)->0)
    }
}

/// A document has one timeline: every line with a time is a cue of it, every cue is such a line,
/// and they stand in the order of their times. Without such a line there is none.
pub proof fn every_line_with_a_time_is_a_cue(nodes: Seq<XmlView>)
    ensures
        forall|line: int, start: i64| #[trigger]
            starts_at(nodes, line, start) ==> (word_synced(nodes) matches Some(cues)
                && cues.contains(cue_of_line(nodes, line, start))),
        word_synced(nodes) matches Some(cues) ==> cues.len() > 0 && never_goes_back(cues) && forall|
            k: int,
        |
            0 <= k < cues.len() ==> stands_in_a_line(nodes, #[trigger] cues[k]),
        word_synced(nodes) is None ==> forall|line: int, start: i64| !(#[trigger] starts_at(
            nodes,
            line,
            start,
        )),
{
    broadcast use vstd::seq_lib::group_to_multiset_ensures;

    let n = nodes.len() as int;
    let cues = line_cues(nodes, n);
    let ordered = in_time_order(cues);
    time_order_keeps_every_cue(cues);
    assert forall|line: int, start: i64| #[trigger] starts_at(nodes, line, start) implies (
    word_synced(nodes) matches Some(found) && found.contains(
        cue_of_line(nodes, line, start),
    )) by {
        a_line_is_a_cue(nodes, line, start, n);
        let wanted = cue_of_line(nodes, line, start);
        assert(cues.to_multiset().count(wanted) > 0);
        assert(ordered.to_multiset().count(wanted) > 0);
        assert(ordered.contains(wanted));
    }
    assert forall|k: int| 0 <= k < ordered.len() implies stands_in_a_line(
        nodes,
        #[trigger] ordered[k],
    ) by {
        assert(ordered.to_multiset().count(ordered[k]) > 0);
        assert(cues.to_multiset().count(ordered[k]) > 0);
        assert(cues.contains(ordered[k]));
        let j = choose|j: int| 0 <= j < cues.len() && cues[j] == ordered[k];
        let (line, start) = a_cue_is_a_line(nodes, n, j);
        assert(starts_at(nodes, line, start));
    }
}

// ------------------------------------------------------------------------------- cue lists

/// An entry of a cue list is a cue at its total time in seconds, with its text.
pub proof fn an_entry_is_a_cue_at_its_total(
    entry: JsonView,
    time: JsonView,
    total: JsonView,
    bits: u64,
    text: Seq<char>,
)
    ensures
        has(entry, "time"@, time) && has(time, "total"@, total) && is_double(total, bits) && has(
            entry,
            "text"@,
            JsonView::Text(text),
        ) ==> entry_cue(entry) == Some(
            CueView { time_ms: rounded_millis(bits) as int, text: trim(text) },
        ),
        lacks(entry, "time"@) ==> entry_cue(entry) is None,
        has(entry, "time"@, time) && lacks(time, "total"@) ==> entry_cue(entry) is None,
{
    if has(entry, "time"@, time) {
        a_field_is_its_member(entry, "time"@, time);
        if has(time, "total"@, total) {
            a_field_is_its_member(time, "total"@, total);
        }
        if lacks(time, "total"@) {
            a_missing_field_is_nothing(time, "total"@);
        }
    }
    if lacks(entry, "time"@) {
        a_missing_field_is_nothing(entry, "time"@);
    }
    if has(entry, "text"@, JsonView::Text(text)) {
        a_field_is_its_member(entry, "text"@, JsonView::Text(text));
    }
}

proof fn every_entry_is_a_cue(entries: Seq<JsonView>, cues: Seq<CueView>, n: int)
    requires
        entries.len() == cues.len(),
        0 <= n <= entries.len(),
        forall|i: int| 0 <= i < entries.len() ==> entry_cue(#[trigger] entries[i]) == Some(cues[i]),
    ensures
        entry_cues(entries, n) == Some(cues.take(n)),
    decreases n,
{
    if n > 0 {
        every_entry_is_a_cue(entries, cues, n - 1);
        assert(entry_cue(entries[n - 1]) == Some(cues[n - 1]));
        assert(cues.take(n - 1).push(cues[n - 1]) =~= cues.take(n));
    } else {
        assert(cues.take(0) =~= Seq::empty());
    }
}

/// A cue list whose entries all have a time is a timeline of all of them, in time order.
pub proof fn a_cue_list_is_a_timeline_of_its_entries(entries: Seq<JsonView>, cues: Seq<CueView>)
    requires
        entries.len() > 0,
        entries.len() == cues.len(),
        forall|i: int| 0 <= i < entries.len() ==> entry_cue(#[trigger] entries[i]) == Some(cues[i]),
    ensures
        mxm_cues(JsonView::Array(entries)) matches Some(list) && list.to_multiset()
            == cues.to_multiset() && never_goes_back(list),
{
    every_entry_is_a_cue(entries, cues, entries.len() as int);
    assert(cues.take(cues.len() as int) =~= cues);
    time_order_keeps_every_cue(cues);
}

/// Whether a place parts a list: what stands before it is not later than a time, and what stands
/// behind it is.
pub open spec fn parts_the_times(cues: Seq<CueView>, at: int, time_ms: int) -> bool {
    &&& 0 <= at <= cues.len()
    &&& forall|i: int| 0 <= i < at ==> (#[trigger] cues[i]).time_ms <= time_ms
    &&& forall|i: int| at <= i < cues.len() ==> (#[trigger] cues[i]).time_ms > time_ms
}

proof fn a_place_parts_the_times(cues: Seq<CueView>, time_ms: int)
    requires
        never_goes_back(cues),
    ensures
        parts_the_times(cues, place_for(cues, time_ms), time_ms),
    decreases cues.len(),
{
    if cues.len() > 0 {
        let last = cues.len() - 1;
        if cues.last().time_ms <= time_ms {
            assert forall|i: int| 0 <= i < cues.len() implies (#[trigger] cues[i]).time_ms
                <= time_ms by {
                assert(cues[i].time_ms <= cues[last].time_ms);
            }
        } else {
            let front = cues.drop_last();
            assert(never_goes_back(front)) by {
                assert forall|i: int, j: int| 0 <= i <= j < front.len() implies (
                #[trigger] front[i]).time_ms <= (#[trigger] front[j]).time_ms by {
                    assert(cues[i].time_ms <= cues[j].time_ms);
                }
            }
            a_place_parts_the_times(front, time_ms);
            let at = place_for(cues, time_ms);
            assert forall|i: int| 0 <= i < at implies (#[trigger] cues[i]).time_ms <= time_ms by {
                assert(front[i] == cues[i]);
            }
            assert forall|i: int| at <= i < cues.len() implies (#[trigger] cues[i]).time_ms
                > time_ms by {
                if i < last {
                    assert(front[i] == cues[i]);
                }
            }
        }
    }
}

/// Cues of the same time stay in the order they had: one more cue goes behind all that are not
/// later and before all that are, and the others stay as they stand.
pub proof fn cues_of_one_time_keep_their_order(cues: Seq<CueView>, cue: CueView)
    ensures
        exists|at: int| #[trigger]
            parts_the_times(in_time_order(cues), at, cue.time_ms) && in_time_order(cues.push(cue))
                == in_time_order(cues).insert(at, cue),
{
    time_order_keeps_every_cue(cues);
    let before = in_time_order(cues);
    let at = place_for(before, cue.time_ms);
    a_place_parts_the_times(before, cue.time_ms);
    assert(cues.push(cue).drop_last() =~= cues);
    assert(parts_the_times(before, at, cue.time_ms));
}

// --------------------------------------------------------------------------------- replies

/// PetitLyrics is asked for the title, the first artist and the album of the song: for its word
/// timings first, and for its plain words after a reply without any.
pub proof fn petitlyrics_is_asked_for_the_song(query: QueryView, kind: Seq<char>)
    ensures
        petitlyrics_step(query, Seq::empty()) == StepView::Ask(petit_asks(query, "3"@)),
        petit_asks(query, kind).method == Method::Post,
        petit_asks(query, kind).url == "https://p1.petitlyrics.com/api/GetPetitLyricsData.php"@,
        petit_asks(query, kind).form.contains(("lyricsType"@, kind)),
        petit_asks(query, kind).form.contains(("key_title"@, query.track)),
        petit_asks(query, kind).form.contains(("key_album"@, query.album)),
        query.artists.len() > 0 ==> petit_asks(query, kind).form.contains(
            ("key_artist"@, query.artists[0]),
        ),
        petit_asks(query, kind).form.contains(("clientAppId"@, "p1110417"@)),
        petit_asks(query, kind).form.contains(("terminalType"@, "10"@)),
        petit_asks(query, kind).form.len() == 6,
{
    let form = petit_asks(query, kind).form;
    assert(form[0] == ("clientAppId"@, "p1110417"@));
    assert(form[1] == ("terminalType"@, "10"@));
    assert(form[2] == ("lyricsType"@, kind));
    assert(form[3] == ("key_title"@, query.track));
    assert(query.artists.len() > 0 ==> form[4] == ("key_artist"@, query.artists[0]));
    assert(form[5] == ("key_album"@, query.album));
}

/// What a first reply comes to: an error ends the source, a timeline with words is its result,
/// and anything else asks for plain words. What a second reply comes to is always the end.
pub proof fn plain_words_are_asked_for_where_there_are_no_timings(
    query: QueryView,
    first: ReplyView,
    second: ReplyView,
    payload: Seq<char>,
    cues: Seq<CueView>,
    error: ProviderError,
)
    ensures
        reply_payload(query, first) == Err::<Option<Seq<char>>, _>(error) ==> petitlyrics_step(
            query,
            seq![first],
        ) == StepView::Done(Err(error)),
        reply_payload(query, first) == Ok::<_, ProviderError>(Some(payload)) && word_synced_in(
            payload,
        ) == Some(cues) && has_words(cues) ==> (petitlyrics_step(query, seq![first])
            matches StepView::Done(Ok(lyrics)) && lyrics.cues == cues && lyrics.source
            == "PetitLyrics"@ && lyrics.text == words_of(cues)),
        reply_payload(query, first) == Ok::<Option<Seq<char>>, ProviderError>(None)
            ==> petitlyrics_step(query, seq![first]) == StepView::Ask(petit_asks(query, "1"@)),
        reply_payload(query, first) == Ok::<_, ProviderError>(Some(payload)) && word_synced_in(
            payload,
        ) is None ==> petitlyrics_step(query, seq![first]) == StepView::Ask(
            petit_asks(query, "1"@),
        ),
        reply_payload(query, second) == Err::<Option<Seq<char>>, _>(error) ==> petitlyrics_step(
            query,
            seq![first, second],
        ) == StepView::Done(Err(error)),
        reply_payload(query, second) == Ok::<_, ProviderError>(Some(payload)) && trim(payload).len()
            > 0 ==> petitlyrics_step(query, seq![first, second]) == StepView::Done(
            Ok(lyrics_from_raw(trim(payload), "PetitLyrics"@)),
        ),
        reply_payload(query, second) == Ok::<Option<Seq<char>>, ProviderError>(None) ==> (
        petitlyrics_step(query, seq![first, second]) matches StepView::Done(Ok(lyrics))
            && lyrics.text.len() == 0 && lyrics.cues.len() == 0),
{
}

/// A reply counts with a success alone, and where it is XML its first song is read.
pub proof fn a_reply_is_read_as_xml(
    query: QueryView,
    status: u16,
    bytes: Seq<u8>,
    nodes: Seq<XmlView>,
)
    ensures
        ({
            let payload = reply_payload(query, ReplyView::Answered { status, body: Ok(bytes) });
            &&& status < 200 || status > 299 ==> payload == Err::<Option<Seq<char>>, _>(
                ProviderError::Http,
            )
            &&& 200 <= status <= 299 && xml_nodes(lossy_text(bytes)) is None ==> payload == Err::<
                Option<Seq<char>>,
                _,
            >(ProviderError::BadPayload)
            &&& 200 <= status <= 299 && xml_nodes(lossy_text(bytes)) == Some(nodes) ==> payload
                == song_payload(query, nodes)
        }),
{
}

/// The payload of a song is its lyrics data without white space, decoded, unless its title is
/// another one.
pub proof fn a_payload_belongs_to_the_title(
    query: QueryView,
    nodes: Seq<XmlView>,
    song: int,
    title_at: int,
    title: Seq<char>,
    data_at: int,
    data: Seq<char>,
    bytes: Seq<u8>,
    text: Seq<char>,
)
    requires
        0 <= song < nodes.len(),
        nodes[song].name == "song"@,
        forall|i: int| 0 <= i < song ==> (#[trigger] nodes[i]).name != "song"@,
        is_first_child(nodes, title_at, song, "title"@),
        nodes[title_at].text == Some(title),
        is_first_child(nodes, data_at, song, "lyricsData"@),
        nodes[data_at].text == Some(data),
    ensures
        title.len() > 0 && key_of(title) != key_of(query.track) ==> song_payload(query, nodes)
            == Ok::<Option<Seq<char>>, ProviderError>(None),
        (title.len() == 0 || key_of(title) == key_of(query.track)) && without_white_space(
            data,
        ).len() > 0 && base64_decoded(without_white_space(data)) == Some(bytes) && utf8_text(bytes)
            == Some(text) ==> song_payload(query, nodes) == Ok::<_, ProviderError>(Some(text)),
        (title.len() == 0 || key_of(title) == key_of(query.track)) && without_white_space(
            data,
        ).len() > 0 && base64_decoded(without_white_space(data)) is None ==> song_payload(
            query,
            nodes,
        ) == Err::<Option<Seq<char>>, _>(ProviderError::BadPayload),
        without_white_space(data).len() == 0 ==> song_payload(query, nodes) == Ok::<
            Option<Seq<char>>,
            ProviderError,
        >(None),
{
    an_element_is_the_first_of_its_name(nodes, song, "song"@, 0);
    a_child_is_the_first_of_its_name(nodes, title_at, song, "title"@);
    a_child_is_the_first_of_its_name(nodes, data_at, song, "lyricsData"@);
}

/// Leaving out white space leaves out nothing else, and changes no order.
pub proof fn only_white_space_is_left_out(before: Seq<char>, c: char, after: Seq<char>)
    ensures
        without_white_space(Seq::empty()).len() == 0,
        without_white_space(before.push(c) + after) == without_white_space(before) + (
        if white_space(c) {
            Seq::empty()
        } else {
            seq![c]
        }) + without_white_space(after),
{
    reveal(Seq::filter);
    let keep = |c: char| !white_space(c);
    assert(seq![c].drop_last() =~= Seq::<char>::empty());
    assert(Seq::<char>::empty().filter(keep) =~= Seq::empty());
    assert(seq![c].filter(keep) =~= if keep(c) {
        seq![c]
    } else {
        Seq::empty()
    });
    assert(before.push(c) =~= before + seq![c]);
    Seq::filter_distributes_over_add(before, seq![c], keep);
    Seq::filter_distributes_over_add(before.push(c), after, keep);
}

} // verus!
