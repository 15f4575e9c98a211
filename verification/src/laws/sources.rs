//! What the lyrics sources are asked, and how their answers are read.

use vstd::prelude::*;

use crate::codec::{base64_decoded, utf8_text};
use crate::double::{truncated_millis, whole_seconds};
use crate::http::{Fault, Method, ReplyView};
use crate::json::{integer_in, json_in_bytes, json_in_text, JsonView};
use crate::laws::json::{
    a_field_is_its_member, a_missing_field_is_nothing, has, is_double, is_integer, lacks,
};
use crate::lrc::{html_decoded, lrc_cues, stripped, CueView};
use crate::matching::{is_match, key_of};
use crate::providers::{
    chosen_song, considered, error_line, fault_error, finished, first_fit, has_words, is_synced,
    lrclib_answers, lrclib_asks, lrclib_entry, lrclib_step, lyrics_from_raw, names_in,
    netease_album, netease_asks, netease_fits, netease_picks, netease_search, netease_step,
    netease_words, new_chain, phrase, planned, qq_album, qq_asks, qq_fits, qq_picks, qq_search,
    qq_words, qqmusic_step, reply_json, source_name, source_with, without_mark, words_of,
    ChainView, LyricsView, ProviderError, QueryView, Source, StepView,
};
use crate::text::{decimal, join};

verus! {

// ----------------------------------------------------------------------------- payloads

/// A payload with a timeline keeps it as it is, cue for cue, with its words as the text. One
/// without keeps its words alone. Either is from the source that sent it.
pub proof fn a_payload_is_its_timeline_or_its_words(raw: Seq<char>, source: Seq<char>)
    ensures
        ({
            let decoded = html_decoded(raw);
            let lyrics = lyrics_from_raw(raw, source);
            &&& lyrics.source == source
            &&& lyrics.errors.len() == 0
            &&& (exists|i: int|
                0 <= i < lrc_cues(decoded).len() && (#[trigger] lrc_cues(decoded)[i]).text.len()
                    > 0) ==> lyrics.cues == lrc_cues(decoded)
            &&& (forall|i: int|
                0 <= i < lrc_cues(decoded).len() ==> (#[trigger] lrc_cues(decoded)[i]).text.len()
                    == 0) ==> lyrics.cues.len() == 0 && lyrics.text == stripped(decoded)
        }),
{
}

proof fn texts_of(cues: Seq<CueView>)
    ensures
        words_of(cues) == join(Seq::new(cues.len(), |i: int| cues[i].text), "\n"@),
{
}

/// The text of a timeline is its cues line by line: cut at the ends of lines it gives the words
/// of each cue again.
pub proof fn the_text_of_a_timeline_is_its_lines(cues: Seq<CueView>)
    requires
        cues.len() > 0,
        forall|i: int| 0 <= i < cues.len() ==> !(#[trigger] cues[i]).text.contains('\n'),
    ensures
        crate::text::split(words_of(cues), crate::text::at_any(seq!['\n'])) == Seq::new(
            cues.len(),
            |i: int| cues[i].text,
        ),
{
    reveal_strlit("\n");
    assert("\n"@ =~= seq!['\n']);
    let lines = Seq::new(cues.len(), |i: int| cues[i].text);
    assert forall|i: int| 0 <= i < lines.len() implies !(#[trigger] lines[i]).contains('\n') by {
        assert(lines[i] == cues[i].text);
    }
    texts_of(cues);
    crate::text::joined_pieces_are_cut_again(lines, '\n');
}

// ------------------------------------------------------------------------------- LRCLIB

/// LRCLIB is asked for the title, the first artist, the album and the length of the song.
pub proof fn lrclib_is_asked_for_the_song(query: QueryView)
    ensures
        lrclib_step(query, Seq::empty()) == StepView::Ask(lrclib_asks(query)),
        lrclib_asks(query).method == Method::Get,
        lrclib_asks(query).url == "https://lrclib.net/api/get"@,
        lrclib_asks(query).query.len() == 4,
        lrclib_asks(query).query.contains(("track_name"@, query.track)),
        query.artists.len() > 0 ==> lrclib_asks(query).query.contains(
            ("artist_name"@, query.artists[0]),
        ),
        lrclib_asks(query).query.contains(("album_name"@, query.album)),
        lrclib_asks(query).query.contains(
            ("duration"@, decimal(whole_seconds(query.duration_ms))),
        ),
        lrclib_asks(query).headers.contains(("Accept"@, "application/json"@)),
{
    let q = lrclib_asks(query).query;
    assert(q[0] == ("track_name"@, query.track));
    assert(query.artists.len() > 0 ==> q[1] == ("artist_name"@, query.artists[0]));
    assert(q[2] == ("album_name"@, query.album));
    assert(q[3] == ("duration"@, decimal(whole_seconds(query.duration_ms))));
    assert(lrclib_asks(query).headers[0] == ("Accept"@, "application/json"@));
}

/// An entry of LRCLIB counts exactly where its title, its artist and its length are those of the
/// song. Then its timeline is taken where it has one, and its plain words where it has none.
pub proof fn an_entry_of_lrclib_counts_for_its_own_song(
    query: QueryView,
    data: JsonView,
    title: Seq<char>,
    artist: Seq<char>,
    length: JsonView,
    bits: u64,
    synced: Seq<char>,
    plain: Seq<char>,
)
    requires
        has(data, "trackName"@, JsonView::Text(title)),
        has(data, "artistName"@, JsonView::Text(artist)),
        has(data, "duration"@, length),
        is_double(length, bits),
        has(data, "syncedLyrics"@, JsonView::Text(synced)),
        has(data, "plainLyrics"@, JsonView::Text(plain)),
    ensures
        ({
            let same = is_match(
                query.track,
                query.artists,
                query.duration_ms as int,
                title,
                seq![artist],
                Some(truncated_millis(bits)),
            );
            let lyrics = lrclib_entry(query, data);
            &&& lyrics.source == "LRCLIB"@
            &&& !same ==> lyrics.text.len() == 0 && lyrics.cues.len() == 0
            &&& same && has_words(lrc_cues(html_decoded(synced))) ==> lyrics.cues == lrc_cues(
                html_decoded(synced),
            )
            &&& same && !has_words(lrc_cues(html_decoded(synced))) && plain.len() > 0 ==> lyrics
                == lyrics_from_raw(plain, "LRCLIB"@)
            &&& same && plain.len() == 0 ==> lyrics == lyrics_from_raw(synced, "LRCLIB"@)
        }),
{
    a_field_is_its_member(data, "trackName"@, JsonView::Text(title));
    a_field_is_its_member(data, "artistName"@, JsonView::Text(artist));
    a_field_is_its_member(data, "duration"@, length);
    a_field_is_its_member(data, "syncedLyrics"@, JsonView::Text(synced));
    a_field_is_its_member(data, "plainLyrics"@, JsonView::Text(plain));
}

/// A status of LRCLIB: 404 means that there is no entry, a success has one, anything else failed.
pub proof fn a_status_of_lrclib_means_what_it_says(
    query: QueryView,
    status: u16,
    bytes: Seq<u8>,
    data: JsonView,
)
    ensures
        ({
            let answer = lrclib_answers(query, ReplyView::Answered { status, body: Ok(bytes) });
            &&& status == 404 ==> (answer matches Ok(lyrics) && lyrics.text.len() == 0
                && lyrics.cues.len() == 0)
            &&& 200 <= status <= 299 && json_in_bytes(bytes) == Some(data) ==> answer == Ok::<
                _,
                ProviderError,
            >(lrclib_entry(query, data))
            &&& 200 <= status <= 299 && json_in_bytes(bytes) is None ==> answer == Err::<
                LyricsView,
                _,
            >(ProviderError::BadJson)
            &&& status != 404 && (status < 200 || status > 299) ==> answer == Err::<LyricsView, _>(
                ProviderError::Http,
            )
        }),
{
}

// ------------------------------------------------------------------------------ searches

/// A search asks for the title and the first artist, with a space between them.
pub proof fn a_search_names_title_and_artist(query: QueryView)
    ensures
        query.artists.len() > 0 ==> phrase(query) == query.track + " "@ + query.artists[0],
        query.artists.len() == 0 ==> phrase(query) == query.track,
        netease_step(query, Seq::empty()) == StepView::Ask(netease_search(query)),
        netease_search(query).method == Method::Post,
        netease_search(query).url == "https://music.163.com/api/search/get/"@,
        netease_search(query).form.contains(("s"@, phrase(query))),
        netease_search(query).form.contains(("type"@, "1"@)),
        netease_search(query).form.contains(("limit"@, "8"@)),
        netease_search(query).form.contains(("offset"@, "0"@)),
        netease_search(query).headers.contains(("Referer"@, "https://music.163.com/"@)),
        qqmusic_step(query, Seq::empty()) == StepView::Ask(qq_search(query)),
        qq_search(query).method == Method::Get,
        qq_search(query).url == "https://c.y.qq.com/soso/fcgi-bin/client_search_cp"@,
        qq_search(query).query.contains(("w"@, phrase(query))),
        qq_search(query).query.contains(("n"@, "8"@)),
        qq_search(query).query.contains(("p"@, "1"@)),
        qq_search(query).query.contains(("cr"@, "1"@)),
        qq_search(query).query.contains(("format"@, "json"@)),
        qq_search(query).headers.contains(("Referer"@, "https://y.qq.com/"@)),
{
    let form = netease_search(query).form;
    assert(form[0] == ("s"@, phrase(query)));
    assert(form[1] == ("limit"@, "8"@));
    assert(form[2] == ("type"@, "1"@));
    assert(form[3] == ("offset"@, "0"@));
    assert(netease_search(query).headers[1] == ("Referer"@, "https://music.163.com/"@));
    let q = qq_search(query).query;
    assert(q[0] == ("w"@, phrase(query)));
    assert(q[1] == ("n"@, "8"@));
    assert(q[2] == ("p"@, "1"@));
    assert(q[3] == ("format"@, "json"@));
    assert(q[4] == ("cr"@, "1"@));
    assert(qq_search(query).headers[1] == ("Referer"@, "https://y.qq.com/"@));
}

/// The words of a song are asked for by the id that the search gave it.
pub proof fn words_are_asked_for_by_id(id: i64, songmid: Seq<char>)
    ensures
        netease_asks(id).method == Method::Get,
        netease_asks(id).url == "https://music.163.com/api/song/lyric"@,
        netease_asks(id).query.contains(("id"@, decimal(id as int))),
        netease_asks(id).query.contains(("lv"@, "-1"@)),
        netease_asks(id).query.contains(("tv"@, "-1"@)),
        qq_asks(songmid).method == Method::Get,
        qq_asks(songmid).url == "https://c.y.qq.com/lyric/fcgi-bin/fcg_query_lyric_new.fcg"@,
        qq_asks(songmid).query.contains(("songmid"@, songmid)),
        qq_asks(songmid).query.contains(("g_tk"@, "5381"@)),
        qq_asks(songmid).query.contains(("format"@, "json"@)),
        qq_asks(songmid).query.contains(("platform"@, "yqq"@)),
        qq_asks(songmid).headers.contains(("Referer"@, "https://y.qq.com/portal/player.html"@)),
{
    let q = netease_asks(id).query;
    assert(q[0] == ("id"@, decimal(id as int)));
    assert(q[1] == ("lv"@, "-1"@));
    assert(q[2] == ("tv"@, "-1"@));
    let r = qq_asks(songmid).query;
    assert(r[0] == ("songmid"@, songmid));
    assert(r[1] == ("g_tk"@, "5381"@));
    assert(r[2] == ("format"@, "json"@));
    assert(r[3] == ("platform"@, "yqq"@));
    assert(qq_asks(songmid).headers[1] == ("Referer"@, "https://y.qq.com/portal/player.html"@));
}

/// The names of a list of objects are those that its objects have, in their order.
pub proof fn names_are_listed_in_order(
    value: JsonView,
    name: Seq<char>,
    items: Seq<JsonView>,
    names: Seq<Seq<char>>,
)
    requires
        has(value, name, JsonView::Array(items)),
        items.len() == names.len(),
        forall|i: int|
            0 <= i < items.len() ==> has(#[trigger] items[i], "name"@, JsonView::Text(names[i])),
    ensures
        names_in(value, name) == names,
{
    a_field_is_its_member(value, name, JsonView::Array(items));
    assert forall|i: int| 0 <= i < items.len() implies names_in(value, name)[i] == names[i] by {
        assert(has(items[i], "name"@, JsonView::Text(names[i])));
        a_field_is_its_member(items[i], "name"@, JsonView::Text(names[i]));
    }
    assert(names_in(value, name) =~= names);
}

/// A song that NetEase lists fits exactly where its title, its artists and its length in
/// milliseconds are those of the song that is wanted, and it has an id to ask for.
pub proof fn a_song_of_netease_fits_by_its_own_fields(
    query: QueryView,
    song: JsonView,
    title: Seq<char>,
    artists: Seq<JsonView>,
    names: Seq<Seq<char>>,
    length: JsonView,
    ms: i64,
    album: JsonView,
    album_name: Seq<char>,
    id: JsonView,
    number: i64,
)
    requires
        has(song, "name"@, JsonView::Text(title)),
        has(song, "artists"@, JsonView::Array(artists)),
        artists.len() == names.len(),
        forall|i: int|
            0 <= i < artists.len() ==> has(
                #[trigger] artists[i],
                "name"@,
                JsonView::Text(names[i]),
            ),
        has(song, "duration"@, length),
        is_integer(length, ms),
        has(song, "album"@, album),
        has(album, "name"@, JsonView::Text(album_name)),
    ensures
        has(song, "id"@, id) && is_integer(id, number) ==> netease_fits(query)(song) == is_match(
            query.track,
            query.artists,
            query.duration_ms as int,
            title,
            names,
            Some(ms),
        ),
        lacks(song, "id"@) ==> !netease_fits(query)(song),
        netease_album(query)(song) == (key_of(album_name) == key_of(query.album)),
{
    a_field_is_its_member(song, "name"@, JsonView::Text(title));
    names_are_listed_in_order(song, "artists"@, artists, names);
    a_field_is_its_member(song, "duration"@, length);
    a_field_is_its_member(song, "album"@, album);
    a_field_is_its_member(album, "name"@, JsonView::Text(album_name));
    if has(song, "id"@, id) {
        a_field_is_its_member(song, "id"@, id);
    }
    if lacks(song, "id"@) {
        a_missing_field_is_nothing(song, "id"@);
    }
}

/// A song that QQ Music lists fits exactly where its title, its singers and its length in seconds
/// are those of the song that is wanted, and it has an id to ask for.
pub proof fn a_song_of_qq_music_fits_by_its_own_fields(
    query: QueryView,
    song: JsonView,
    title: Seq<char>,
    singers: Seq<JsonView>,
    names: Seq<Seq<char>>,
    length: JsonView,
    bits: u64,
    album_name: Seq<char>,
    songmid: Seq<char>,
)
    requires
        has(song, "songname"@, JsonView::Text(title)),
        has(song, "singer"@, JsonView::Array(singers)),
        singers.len() == names.len(),
        forall|i: int|
            0 <= i < singers.len() ==> has(
                #[trigger] singers[i],
                "name"@,
                JsonView::Text(names[i]),
            ),
        has(song, "interval"@, length),
        is_double(length, bits),
        has(song, "albumname"@, JsonView::Text(album_name)),
        has(song, "songmid"@, JsonView::Text(songmid)),
    ensures
        songmid.len() > 0 ==> qq_fits(query)(song) == is_match(
            query.track,
            query.artists,
            query.duration_ms as int,
            title,
            names,
            Some(truncated_millis(bits)),
        ),
        songmid.len() == 0 ==> !qq_fits(query)(song),
        qq_album(query)(song) == (key_of(album_name) == key_of(query.album)),
{
    a_field_is_its_member(song, "songname"@, JsonView::Text(title));
    names_are_listed_in_order(song, "singer"@, singers, names);
    a_field_is_its_member(song, "interval"@, length);
    a_field_is_its_member(song, "albumname"@, JsonView::Text(album_name));
    a_field_is_its_member(song, "songmid"@, JsonView::Text(songmid));
}

proof fn first_fit_is_first(songs: Seq<JsonView>, fits: spec_fn(JsonView) -> bool, from: int, at: int)
    requires
        0 <= from <= at < songs.len(),
        fits(songs[at]),
        forall|i: int| from <= i < at ==> !fits(#[trigger] songs[i]),
    ensures
        first_fit(songs, fits, from) == Some(songs[at]),
    decreases at - from,
{
    if from < at {
        assert(!fits(songs[from]));
        first_fit_is_first(songs, fits, from + 1, at);
    }
}

proof fn no_fit(songs: Seq<JsonView>, fits: spec_fn(JsonView) -> bool, from: int)
    requires
        0 <= from,
        forall|i: int| from <= i < songs.len() ==> !fits(#[trigger] songs[i]),
    ensures
        first_fit(songs, fits, from) is None,
    decreases songs.len() - from,
{
    if from < songs.len() {
        assert(!fits(songs[from]));
        no_fit(songs, fits, from + 1);
    }
}

/// Of the songs that fit the first of the wanted album is chosen; where none is of that album,
/// the first of the others.
pub proof fn the_first_fitting_song_is_chosen(
    songs: Seq<JsonView>,
    on_album: spec_fn(JsonView) -> bool,
    fits: spec_fn(JsonView) -> bool,
    at: int,
)
    requires
        0 <= at < songs.len(),
        fits(songs[at]),
        on_album(songs[at]) || forall|i: int|
            0 <= i < songs.len() && on_album(#[trigger] songs[i]) ==> !fits(songs[i]),
        forall|i: int|
            0 <= i < at && on_album(#[trigger] songs[i]) == on_album(songs[at]) ==> !fits(songs[i]),
    ensures
        chosen_song(songs, on_album, fits) == Some(songs[at]),
{
    let first = |song: JsonView| on_album(song) && fits(song);
    let second = |song: JsonView| !on_album(song) && fits(song);
    if on_album(songs[at]) {
        assert forall|i: int| 0 <= i < at implies !first(#[trigger] songs[i]) by {}
        first_fit_is_first(songs, first, 0, at);
    } else {
        assert forall|i: int| 0 <= i < songs.len() implies !first(#[trigger] songs[i]) by {}
        no_fit(songs, first, 0);
        assert forall|i: int| 0 <= i < at implies !second(#[trigger] songs[i]) by {}
        first_fit_is_first(songs, second, 0, at);
    }
}

/// An answer of NetEase counts with code 200 alone. The songs of a search stand under `result`,
/// and the chosen one is asked for by its id; the words of a song stand under `lrc`.
pub proof fn an_answer_of_netease_counts_with_its_code(
    query: QueryView,
    answer: JsonView,
    code: JsonView,
    n: i64,
    result: JsonView,
    songs: Seq<JsonView>,
    lrc: JsonView,
    raw: Seq<char>,
)
    requires
        has(answer, "code"@, code),
        is_integer(code, n),
    ensures
        n != 200 ==> netease_picks(query, answer) == Err::<Option<i64>, _>(
            ProviderError::Rejected,
        ) && netease_words(answer) == Err::<LyricsView, _>(ProviderError::Rejected),
        n == 200 && has(answer, "result"@, result) && has(
            result,
            "songs"@,
            JsonView::Array(songs),
        ) ==> netease_picks(query, answer) == Ok::<_, ProviderError>(
            match chosen_song(songs, netease_album(query), netease_fits(query)) {
                Some(song) => integer_in(crate::json::field(song, "id"@)),
                None => None,
            },
        ),
        n == 200 && has(answer, "lrc"@, lrc) && has(lrc, "lyric"@, JsonView::Text(raw))
            ==> netease_words(answer) == Ok::<_, ProviderError>(lyrics_from_raw(raw, "NetEase"@)),
{
    a_field_is_its_member(answer, "code"@, code);
    if has(answer, "result"@, result) && has(result, "songs"@, JsonView::Array(songs)) {
        a_field_is_its_member(answer, "result"@, result);
        a_field_is_its_member(result, "songs"@, JsonView::Array(songs));
    }
    if has(answer, "lrc"@, lrc) && has(lrc, "lyric"@, JsonView::Text(raw)) {
        a_field_is_its_member(answer, "lrc"@, lrc);
        a_field_is_its_member(lrc, "lyric"@, JsonView::Text(raw));
    }
}

/// An answer of QQ Music counts with code 0 alone. The songs of a search stand under `data` and
/// `song`, and the words of a song are base64 under `lyric`.
pub proof fn an_answer_of_qq_music_counts_with_its_code(
    query: QueryView,
    answer: JsonView,
    code: JsonView,
    n: i64,
    data: JsonView,
    song: JsonView,
    songs: Seq<JsonView>,
    encoded: Seq<char>,
    bytes: Seq<u8>,
    raw: Seq<char>,
)
    requires
        has(answer, "code"@, code),
        is_integer(code, n),
    ensures
        n != 0 ==> qq_picks(query, answer) == Err::<Option<Seq<char>>, _>(ProviderError::Rejected)
            && qq_words(answer) == Err::<LyricsView, _>(ProviderError::Rejected),
        n == 0 && has(answer, "data"@, data) && has(data, "song"@, song) && has(
            song,
            "list"@,
            JsonView::Array(songs),
        ) ==> match chosen_song(songs, qq_album(query), qq_fits(query)) {
            Some(found) => forall|songmid: Seq<char>| #[trigger]
                has(found, "songmid"@, JsonView::Text(songmid)) ==> qq_picks(query, answer) == Ok::<
                    _,
                    ProviderError,
                >(Some(songmid)),
            None => qq_picks(query, answer) == Ok::<Option<Seq<char>>, ProviderError>(None),
        },
        n == 0 && has(answer, "lyric"@, JsonView::Text(encoded)) && base64_decoded(encoded)
            == Some(bytes) && utf8_text(bytes) == Some(raw) ==> qq_words(answer) == Ok::<
            _,
            ProviderError,
        >(lyrics_from_raw(raw, "QQ Music"@)),
        n == 0 && has(answer, "lyric"@, JsonView::Text(encoded)) && base64_decoded(encoded) is None
            ==> qq_words(answer) == Err::<LyricsView, _>(ProviderError::BadPayload),
{
    a_field_is_its_member(answer, "code"@, code);
    if has(answer, "data"@, data) && has(data, "song"@, song) && has(
        song,
        "list"@,
        JsonView::Array(songs),
    ) {
        a_field_is_its_member(answer, "data"@, data);
        a_field_is_its_member(data, "song"@, song);
        a_field_is_its_member(song, "list"@, JsonView::Array(songs));
        if let Some(found) = chosen_song(songs, qq_album(query), qq_fits(query)) {
            assert forall|songmid: Seq<char>|
                n == 0 && #[trigger] has(found, "songmid"@, JsonView::Text(songmid)) implies qq_picks(
                query,
                answer,
            ) == Ok::<_, ProviderError>(Some(songmid)) by {
                a_field_is_its_member(found, "songmid"@, JsonView::Text(songmid));
            }
        }
    }
    if has(answer, "lyric"@, JsonView::Text(encoded)) {
        a_field_is_its_member(answer, "lyric"@, JsonView::Text(encoded));
    }
}

// -------------------------------------------------------------------------------- replies

/// A JSON reply counts where it is no longer than two million bytes, its status is a success and
/// it is JSON, with or without a byte order mark before it.
pub proof fn a_json_reply_is_bounded(status: u16, bytes: Seq<u8>, fault: Fault, text: Seq<char>)
    ensures
        ({
            let reply = ReplyView::Answered { status, body: Ok(bytes) };
            &&& bytes.len() > 2_000_000 ==> reply_json(reply) == Err::<JsonView, _>(
                ProviderError::TooLarge,
            )
            &&& bytes.len() <= 2_000_000 && (status < 200 || status > 299) ==> reply_json(reply)
                == Err::<JsonView, _>(ProviderError::Http)
            &&& bytes.len() <= 2_000_000 && 200 <= status <= 299 ==> (reply_json(reply) is Ok
                <==> json_in_text(without_mark(crate::codec::lossy_text(bytes))) is Some)
        }),
        without_mark(seq!['\u{feff}'] + text) == text,
        text.len() == 0 || text[0] != '\u{feff}' ==> without_mark(text) == text,
        reply_json(ReplyView::Failed(fault)) == Err::<JsonView, _>(fault_error(fault)),
        fault_error(fault) == (if fault.timeout {
            ProviderError::Timeout
        } else if fault.decode {
            ProviderError::BadJson
        } else {
            ProviderError::Http
        }),
{
    assert((seq!['\u{feff}'] + text).skip(1) =~= text);
}

// ---------------------------------------------------------------------------------- chain

/// The sources that the ids of an order name are asked in that order; an id that names none is
/// passed over.
pub proof fn sources_are_asked_in_the_order(before: Seq<Seq<char>>, id: Seq<char>)
    ensures
        planned(Seq::empty()).len() == 0,
        source_with(id) matches Some(source) ==> planned(before.push(id)) == planned(before).push(
            source,
        ),
        source_with(id) is None ==> planned(before.push(id)) == planned(before),
        source_with("lrclib"@) == Some(Source::Lrclib),
        source_with("petitlyrics"@) == Some(Source::PetitLyrics),
        source_with("musixmatch"@) == Some(Source::Musixmatch),
        source_with("netease"@) == Some(Source::Netease),
        source_with("qqmusic"@) == Some(Source::QqMusic),
        source_with(id) is Some ==> id == "lrclib"@ || id == "petitlyrics"@ || id == "musixmatch"@
            || id == "netease"@ || id == "qqmusic"@,
{
    reveal_strlit("lrclib");
    reveal_strlit("petitlyrics");
    reveal_strlit("musixmatch");
    reveal_strlit("netease");
    reveal_strlit("qqmusic");
    assert("lrclib"@[0] == 'l');
    assert("petitlyrics"@[0] == 'p');
    assert("musixmatch"@[0] == 'm');
    assert("netease"@[0] == 'n');
    assert("qqmusic"@[0] == 'q');
    assert(before.push(id).drop_last() =~= before);
}

/// A chain keeps the first words that it is given and notes every failure under the name of the
/// source; neither loses what it had.
pub proof fn a_chain_keeps_the_first_words(
    chain: ChainView,
    name: Seq<char>,
    lyrics: LyricsView,
    error: ProviderError,
)
    ensures
        new_chain().fallback is None,
        new_chain().errors.len() == 0,
        considered(chain, name, Ok(lyrics)).errors == chain.errors,
        considered(chain, name, Ok(lyrics)).fallback == (if chain.fallback is None
            && lyrics.text.len() > 0 {
            Some(lyrics)
        } else {
            chain.fallback
        }),
        considered(chain, name, Err(error)).fallback == chain.fallback,
        considered(chain, name, Err(error)).errors == chain.errors.push(error_line(name, error)),
        chain.fallback matches Some(kept) ==> finished(chain).text == kept.text && finished(
            chain,
        ).cues == kept.cues && finished(chain).source == kept.source,
        chain.fallback is None ==> finished(chain).text.len() == 0 && finished(chain).cues.len()
            == 0,
        finished(chain).errors == chain.errors,
        is_synced(Ok(lyrics)) == (lyrics.cues.len() != 0),
        !is_synced(Err(error)),
{
}

/// A failure is noted as the name of the source and the kind of failure.
pub proof fn a_failure_is_noted_by_name_and_kind(name: Seq<char>)
    ensures
        error_line(name, ProviderError::Http) == name + ": "@ + "Http"@,
        error_line(name, ProviderError::Timeout) == name + ": "@ + "Timeout"@,
        error_line(name, ProviderError::TooLarge) == name + ": "@ + "TooLarge"@,
        error_line(name, ProviderError::BadJson) == name + ": "@ + "BadJson"@,
        error_line(name, ProviderError::Rejected) == name + ": "@ + "Rejected"@,
        error_line(name, ProviderError::BadPayload) == name + ": "@ + "BadPayload"@,
        source_name(Source::Lrclib) == "LRCLIB"@,
        source_name(Source::PetitLyrics) == "PetitLyrics"@,
        source_name(Source::Musixmatch) == "Musixmatch"@,
        source_name(Source::Netease) == "NetEase"@,
        source_name(Source::QqMusic) == "QQ Music"@,
{
}

/// What to do about each source, reply by reply: it is searched, the song that was picked is asked
/// for, and what fails on the way is its result.
pub proof fn a_source_is_asked_step_by_step(
    query: QueryView,
    first: ReplyView,
    second: ReplyView,
    found: JsonView,
    lyric: JsonView,
    id: i64,
    songmid: Seq<char>,
    error: ProviderError,
)
    ensures
        lrclib_step(query, Seq::empty()) == StepView::Ask(lrclib_asks(query)),
        lrclib_step(query, seq![first]) == StepView::Done(lrclib_answers(query, first)),
        netease_step(query, Seq::empty()) == StepView::Ask(netease_search(query)),
        qqmusic_step(query, Seq::empty()) == StepView::Ask(qq_search(query)),
        reply_json(first) == Err::<JsonView, _>(error) ==> netease_step(query, seq![first])
            == StepView::Done(Err(error)) && qqmusic_step(query, seq![first]) == StepView::Done(
            Err(error),
        ),
        reply_json(first) == Ok::<_, ProviderError>(found) && netease_picks(query, found) == Err::<
            Option<i64>,
            _,
        >(error) ==> netease_step(query, seq![first]) == StepView::Done(Err(error)),
        reply_json(first) == Ok::<_, ProviderError>(found) && netease_picks(query, found) == Ok::<
            _,
            ProviderError,
        >(Some(id)) ==> netease_step(query, seq![first]) == StepView::Ask(netease_asks(id)),
        reply_json(first) == Ok::<_, ProviderError>(found) && netease_picks(query, found) == Ok::<
            Option<i64>,
            ProviderError,
        >(None) ==> (netease_step(query, seq![first]) matches StepView::Done(Ok(none))
            && none.text.len() == 0 && none.cues.len() == 0 && none.source == "NetEase"@),
        reply_json(first) == Ok::<_, ProviderError>(found) && qq_picks(query, found) == Err::<
            Option<Seq<char>>,
            _,
        >(error) ==> qqmusic_step(query, seq![first]) == StepView::Done(Err(error)),
        reply_json(first) == Ok::<_, ProviderError>(found) && qq_picks(query, found) == Ok::<
            _,
            ProviderError,
        >(Some(songmid)) ==> qqmusic_step(query, seq![first]) == StepView::Ask(qq_asks(songmid)),
        reply_json(first) == Ok::<_, ProviderError>(found) && qq_picks(query, found) == Ok::<
            Option<Seq<char>>,
            ProviderError,
        >(None) ==> (qqmusic_step(query, seq![first]) matches StepView::Done(Ok(none))
            && none.text.len() == 0 && none.cues.len() == 0 && none.source == "QQ Music"@),
        reply_json(second) == Err::<JsonView, _>(error) ==> netease_step(query, seq![first, second])
            == StepView::Done(Err(error)) && qqmusic_step(query, seq![first, second])
            == StepView::Done(Err(error)),
        reply_json(second) == Ok::<_, ProviderError>(lyric) ==> netease_step(
            query,
            seq![first, second],
        ) == StepView::Done(netease_words(lyric)) && qqmusic_step(query, seq![first, second])
            == StepView::Done(qq_words(lyric)),
{
}

} // verus!
