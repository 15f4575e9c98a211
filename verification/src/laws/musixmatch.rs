//! What Musixmatch is asked, and how its answers are read.

use vstd::prelude::*;

use crate::double::{truncated_millis, whole_seconds};
use crate::http::{Fault, Method, ReplyView};
use crate::json::{json_in_bytes, JsonView};
use crate::laws::json::{
    a_field_is_its_member, a_missing_field_is_nothing, has, is_double, is_integer, lacks,
};
use crate::laws::recordings::a_recording_is_itself;
use crate::lrc::lrc_cues;
use crate::matching::{is_match, key_of};
use crate::musixmatch::{
    answer_of, app_id_of, call_body, cues_in_body, degenerate, envelope_status, first_turn,
    mint_answers, mint_asks, minted_token, next_turn, plain_text, reply_answer, right_recording,
    song_lyrics, subtitle_text, subtitles_asks, Identity, SessionView, Stage, TokenView, TurnView,
};
use crate::petitlyrics::mxm_subtitle;
use crate::providers::{
    fault_error, has_words, lyrics_from_raw, words_of, LyricsView, ProviderError, QueryView,
};
use crate::text::{decimal, trim};

verus! {

// -------------------------------------------------------------------------------- asking

/// A token is asked for under the name of the identity.
pub proof fn a_token_is_asked_for_by_name()
    ensures
        mint_asks(Identity::Android).method == Method::Get,
        mint_asks(Identity::Android).url == "https://apic.musixmatch.com/ws/1.1/token.get"@,
        mint_asks(Identity::Mac).url == "https://apic.musixmatch.com/ws/1.1/token.get"@,
        mint_asks(Identity::Android).query == seq![
            ("app_id"@, "android-player-v1.0"@),
            ("user_language"@, "en"@),
        ],
        mint_asks(Identity::Mac).query == seq![
            ("app_id"@, "mac-ios-v2.0"@),
            ("user_language"@, "en"@),
        ],
{
}

/// The subtitles are asked for by title, first artist, album, length and, where it is known, the
/// Spotify id, under the identity that the token belongs to.
pub proof fn subtitles_are_asked_for_by_the_song(
    query: QueryView,
    app_id: Seq<char>,
    token: Seq<char>,
)
    ensures
        ({
            let request = subtitles_asks(query, app_id, token);
            let length = decimal(whole_seconds(query.duration_ms));
            &&& request.method == Method::Get
            &&& request.url == "https://apic.musixmatch.com/ws/1.1/macro.subtitles.get"@
            &&& request.query.contains(("app_id"@, app_id))
            &&& request.query.contains(("usertoken"@, token))
            &&& request.query.contains(("q_track"@, query.track))
            &&& request.query.contains(("q_album"@, query.album))
            &&& request.query.contains(("q_duration"@, length))
            &&& request.query.contains(("f_subtitle_length"@, length))
            &&& request.query.contains(("format"@, "json"@))
            &&& request.query.contains(("namespace"@, "lyrics_richsynched"@))
            &&& request.query.contains(("subtitle_format"@, "lrc"@))
            &&& query.artists.len() > 0 ==> request.query.contains(
                ("q_artist"@, query.artists[0]),
            ) && request.query.contains(("q_artists"@, query.artists[0]))
            &&& query.spotify_id matches Some(id) ==> id.len() > 0 ==> request.query.contains(
                ("track_spotify_id"@, id),
            ) && request.query.len() == 12
            &&& query.spotify_id is None ==> request.query.len() == 11
        }),
{
    let q = subtitles_asks(query, app_id, token).query;
    let length = decimal(whole_seconds(query.duration_ms));
    assert(q[0] == ("format"@, "json"@));
    assert(q[1] == ("namespace"@, "lyrics_richsynched"@));
    assert(q[2] == ("subtitle_format"@, "lrc"@));
    assert(q[3] == ("app_id"@, app_id));
    assert(q[4] == ("usertoken"@, token));
    assert(q[5] == ("q_track"@, query.track));
    assert(query.artists.len() > 0 ==> q[6] == ("q_artist"@, query.artists[0]));
    assert(query.artists.len() > 0 ==> q[7] == ("q_artists"@, query.artists[0]));
    assert(q[8] == ("q_album"@, query.album));
    assert(q[9] == ("q_duration"@, length));
    assert(q[10] == ("f_subtitle_length"@, length));
    if let Some(id) = query.spotify_id {
        if id.len() > 0 {
            assert(q[11] == ("track_spotify_id"@, id));
        }
    }
}

/// A token is used for nine minutes after it came and not longer, and after a refusal none is
/// asked for during ten minutes.
pub proof fn tokens_and_refusals_have_their_time(
    token: TokenView,
    refused: u64,
    query: QueryView,
    now: u64,
)
    requires
        token.minted <= now,
        refused <= now,
    ensures
        ({
            let session = SessionView { cached: Some(token), refused_at: None };
            &&& now - token.minted < 540_000_000_000 ==> first_turn(session, query, now)
                == TurnView::Ask(
                Stage::Asking,
                subtitles_asks(query, token.app_id, token.value),
            )
            &&& now - token.minted >= 540_000_000_000 ==> first_turn(session, query, now)
                == TurnView::Ask(Stage::Minting(Identity::Android), mint_asks(Identity::Android))
        }),
        ({
            let session = SessionView { cached: None, refused_at: Some(refused) };
            &&& now - refused < 600_000_000_000 ==> first_turn(session, query, now)
                == TurnView::Done(Err(ProviderError::Rejected))
            &&& now - refused >= 600_000_000_000 ==> first_turn(session, query, now)
                == TurnView::Ask(Stage::Minting(Identity::Android), mint_asks(Identity::Android))
        }),
        first_turn(SessionView { cached: None, refused_at: None }, query, now) == TurnView::Ask(
            Stage::Minting(Identity::Android),
            mint_asks(Identity::Android),
        ),
{
}

/// A refused identity is followed by the other; where both were refused the lookup ends with the
/// error, and the time of the refusal is kept.
pub proof fn a_refused_identity_is_followed_by_the_other(
    session: SessionView,
    query: QueryView,
    reply: ReplyView,
    error: ProviderError,
    now: u64,
)
    requires
        mint_answers(reply) == Err::<Seq<char>, _>(error),
    ensures
        next_turn(session, Stage::Minting(Identity::Android), query, reply, now) == (
            session,
            TurnView::Ask(Stage::Minting(Identity::Mac), mint_asks(Identity::Mac)),
        ),
        next_turn(session, Stage::Minting(Identity::Mac), query, reply, now).1 == TurnView::Done(
            Err(error),
        ),
        next_turn(session, Stage::Minting(Identity::Mac), query, reply, now).0.refused_at == Some(
            now,
        ),
        next_turn(session, Stage::Minting(Identity::Mac), query, reply, now).0.cached
            == session.cached,
{
}

// ------------------------------------------------------------------------------- envelopes

/// Whether an answer has this status in its envelope, and this body.
pub open spec fn is_enveloped(data: JsonView, status: i64, body: JsonView) -> bool {
    exists|message: JsonView, header: JsonView, code: JsonView|
        #![trigger has(data, "message"@, message), has(header, "status_code"@, code)]
        has(data, "message"@, message) && has(message, "header"@, header) && has(
            header,
            "status_code"@,
            code,
        ) && is_integer(code, status) && has(message, "body"@, body)
}

proof fn an_envelope(data: JsonView, status: i64, body: JsonView)
    requires
        is_enveloped(data, status, body),
    ensures
        envelope_status(data) == Some(status),
        crate::json::within(crate::json::field(data, "message"@), "body"@) == Some(body),
{
    let (message, header, code) = choose|message: JsonView, header: JsonView, code: JsonView|
        #![trigger has(data, "message"@, message), has(header, "status_code"@, code)]
        has(data, "message"@, message) && has(message, "header"@, header) && has(
            header,
            "status_code"@,
            code,
        ) && is_integer(code, status) && has(message, "body"@, body);
    a_field_is_its_member(data, "message"@, message);
    a_field_is_its_member(message, "header"@, header);
    a_field_is_its_member(header, "status_code"@, code);
    a_field_is_its_member(message, "body"@, body);
}

/// A token is taken where the envelope says 200 and it is no decoy.
pub proof fn a_token_is_taken_from_its_envelope(
    data: JsonView,
    status: i64,
    body: JsonView,
    token: Seq<char>,
)
    requires
        is_enveloped(data, status, body),
        has(body, "user_token"@, JsonView::Text(token)),
    ensures
        status == 200 && !degenerate(token) ==> minted_token(data) == Ok::<_, ProviderError>(token),
        status != 200 || degenerate(token) ==> minted_token(data) == Err::<Seq<char>, _>(
            ProviderError::Rejected,
        ),
{
    an_envelope(data, status, body);
    a_field_is_its_member(body, "user_token"@, JsonView::Text(token));
}

/// A decoy is `UpgradeRequired`, or a token without two characters that differ.
pub proof fn a_decoy_is_one_character_over_and_over(token: Seq<char>, i: int, j: int)
    ensures
        degenerate("UpgradeRequired"@),
        degenerate(Seq::empty()),
        0 <= i < token.len() && 0 <= j < token.len() && token[i] != token[j] && token
            != "UpgradeRequired"@ ==> !degenerate(token),
        (forall|k: int| 0 <= k < token.len() ==> #[trigger] token[k] == token[0]) ==> degenerate(
            token,
        ),
{
}

/// An answer counts where its envelope says 200; its songs are the calls in its body. With 401 the
/// token has gone stale.
pub proof fn an_answer_counts_with_its_status(
    query: QueryView,
    data: JsonView,
    status: i64,
    body: JsonView,
    calls: JsonView,
)
    requires
        is_enveloped(data, status, body),
        has(body, "macro_calls"@, calls),
    ensures
        status == 200 ==> answer_of(query, data) == (
            Ok::<_, ProviderError>(song_lyrics(query, Some(calls))),
            false,
        ),
        status != 200 ==> answer_of(query, data) == (
            Err::<LyricsView, _>(ProviderError::Rejected),
            status == 401,
        ),
{
    an_envelope(data, status, body);
    a_field_is_its_member(body, "macro_calls"@, calls);
}

/// What a reply comes to: 401 and 403 mean a stale token, no other failure does, and a success is
/// read.
pub proof fn a_reply_counts_with_its_status(
    query: QueryView,
    status: u16,
    bytes: Seq<u8>,
    data: JsonView,
    fault: Fault,
)
    ensures
        ({
            let answer = reply_answer(query, ReplyView::Answered { status, body: Ok(bytes) });
            &&& status == 401 || status == 403 ==> answer == (
                Err::<LyricsView, _>(ProviderError::Rejected),
                true,
            )
            &&& status != 401 && status != 403 && (status < 200 || status > 299) ==> answer == (
                Err::<LyricsView, _>(ProviderError::Http),
                false,
            )
            &&& 200 <= status <= 299 && json_in_bytes(bytes) is None ==> answer == (
                Err::<LyricsView, _>(ProviderError::BadJson),
                false,
            )
            &&& 200 <= status <= 299 && json_in_bytes(bytes) == Some(data) ==> answer == answer_of(
                query,
                data,
            )
        }),
        !reply_answer(query, ReplyView::Failed(fault)).1,
        reply_answer(query, ReplyView::Failed(fault)).0 is Err,
{
}

// ---------------------------------------------------------------------------------- songs

/// Whether the calls have this body under a name.
pub open spec fn has_call(calls: JsonView, name: Seq<char>, body: JsonView) -> bool {
    exists|call: JsonView, message: JsonView|
        #![trigger has(calls, name, call), has(message, "body"@, body)]
        has(calls, name, call) && has(call, "message"@, message) && has(message, "body"@, body)
}

proof fn a_call(calls: JsonView, name: Seq<char>, body: JsonView)
    requires
        has_call(calls, name, body),
    ensures
        call_body(Some(calls), name) == Some(body),
{
    let (call, message) = choose|call: JsonView, message: JsonView|
        #![trigger has(calls, name, call), has(message, "body"@, body)]
        has(calls, name, call) && has(call, "message"@, message) && has(message, "body"@, body);
    a_field_is_its_member(calls, name, call);
    a_field_is_its_member(call, "message"@, message);
    a_field_is_its_member(message, "body"@, body);
}

/// The recording that was chosen is accepted exactly where its title, its artist and its length
/// in seconds match the song. Without an identity the query is trusted.
pub proof fn a_recording_is_accepted_by_its_identity(
    calls: JsonView,
    query: QueryView,
    body: JsonView,
    track: JsonView,
    title: Seq<char>,
    artist: Seq<char>,
    length: JsonView,
    bits: u64,
)
    ensures
        has_call(calls, "matcher.track.get"@, body) && has(body, "track"@, track) && has(
            track,
            "track_name"@,
            JsonView::Text(title),
        ) && has(track, "artist_name"@, JsonView::Text(artist)) && has(
            track,
            "track_length"@,
            length,
        ) && is_double(length, bits) ==> right_recording(Some(calls), query) == is_match(
            query.track,
            query.artists,
            query.duration_ms as int,
            title,
            seq![artist],
            Some(truncated_millis(bits)),
        ),
        lacks(calls, "matcher.track.get"@) ==> right_recording(Some(calls), query),
        has_call(calls, "matcher.track.get"@, body) && lacks(body, "track"@) ==> right_recording(
            Some(calls),
            query,
        ),
        right_recording(None, query),
{
    if has_call(calls, "matcher.track.get"@, body) {
        a_call(calls, "matcher.track.get"@, body);
        if has(body, "track"@, track) {
            a_field_is_its_member(body, "track"@, track);
            if has(track, "track_name"@, JsonView::Text(title)) {
                a_field_is_its_member(track, "track_name"@, JsonView::Text(title));
            }
            if has(track, "artist_name"@, JsonView::Text(artist)) {
                a_field_is_its_member(track, "artist_name"@, JsonView::Text(artist));
            }
            if has(track, "track_length"@, length) {
                a_field_is_its_member(track, "track_length"@, length);
            }
        }
        if lacks(body, "track"@) {
            a_missing_field_is_nothing(body, "track"@);
        }
    }
    if lacks(calls, "matcher.track.get"@) {
        a_missing_field_is_nothing(calls, "matcher.track.get"@);
    }
}

/// An identity with the title of the song, one of its artists and its own length is accepted.
pub proof fn the_song_itself_is_accepted(
    calls: JsonView,
    query: QueryView,
    body: JsonView,
    track: JsonView,
    artist: Seq<char>,
    length: JsonView,
    bits: u64,
)
    requires
        has_call(calls, "matcher.track.get"@, body),
        has(body, "track"@, track),
        has(track, "track_name"@, JsonView::Text(query.track)),
        has(track, "artist_name"@, JsonView::Text(artist)),
        has(track, "track_length"@, length),
        is_double(length, bits),
        truncated_millis(bits) == query.duration_ms,
        query.duration_ms > 0,
        query.artists.contains(artist),
        artist.len() > 0,
        key_of(query.track).len() > 0,
    ensures
        right_recording(Some(calls), query),
{
    a_recording_is_accepted_by_its_identity(
        calls,
        query,
        body,
        track,
        query.track,
        artist,
        length,
        bits,
    );
    assert(seq![artist][0] == artist);
    a_recording_is_itself(query.track, query.artists, query.duration_ms, seq![artist], artist);
}

/// The subtitles are those of the first entry of their list, and the plain words those of the
/// lyrics.
pub proof fn subtitles_and_words_stand_in_their_calls(
    calls: JsonView,
    body: JsonView,
    list: Seq<JsonView>,
    subtitle: JsonView,
    text: Seq<char>,
    other: JsonView,
    lyrics: JsonView,
    plain: Seq<char>,
)
    ensures
        has_call(calls, "track.subtitles.get"@, body) && has(
            body,
            "subtitle_list"@,
            JsonView::Array(list),
        ) && list.len() > 0 && has(list[0], "subtitle"@, subtitle) && has(
            subtitle,
            "subtitle_body"@,
            JsonView::Text(text),
        ) ==> subtitle_text(Some(calls)) == Some(text),
        has_call(calls, "track.subtitles.get"@, body) && has(
            body,
            "subtitle_list"@,
            JsonView::Array(list),
        ) && list.len() == 0 ==> subtitle_text(Some(calls)) is None,
        has_call(calls, "track.lyrics.get"@, other) && has(other, "lyrics"@, lyrics) && has(
            lyrics,
            "lyrics_body"@,
            JsonView::Text(plain),
        ) ==> plain_text(Some(calls)) == Some(plain),
{
    if has_call(calls, "track.subtitles.get"@, body) && has(
        body,
        "subtitle_list"@,
        JsonView::Array(list),
    ) {
        a_call(calls, "track.subtitles.get"@, body);
        a_field_is_its_member(body, "subtitle_list"@, JsonView::Array(list));
        if list.len() > 0 && has(list[0], "subtitle"@, subtitle) && has(
            subtitle,
            "subtitle_body"@,
            JsonView::Text(text),
        ) {
            a_field_is_its_member(list[0], "subtitle"@, subtitle);
            a_field_is_its_member(subtitle, "subtitle_body"@, JsonView::Text(text));
        }
    }
    if has_call(calls, "track.lyrics.get"@, other) && has(other, "lyrics"@, lyrics) && has(
        lyrics,
        "lyrics_body"@,
        JsonView::Text(plain),
    ) {
        a_call(calls, "track.lyrics.get"@, other);
        a_field_is_its_member(other, "lyrics"@, lyrics);
        a_field_is_its_member(lyrics, "lyrics_body"@, JsonView::Text(plain));
    }
}

/// Subtitles come before plain words, and both only for the right recording: its timeline where
/// the subtitles have one, else its words where there are any, else nothing.
pub proof fn subtitles_come_before_plain_words(query: QueryView, calls: JsonView)
    ensures
        ({
            let lyrics = song_lyrics(query, Some(calls));
            let cues = match subtitle_text(Some(calls)) {
                Some(body) => cues_in_body(body),
                None => None,
            };
            &&& lyrics.source == "Musixmatch"@
            &&& !right_recording(Some(calls), query) ==> lyrics.text.len() == 0
                && lyrics.cues.len() == 0
            &&& right_recording(Some(calls), query) && cues is Some ==> lyrics.cues == cues->0
                && lyrics.text == words_of(cues->0)
            &&& right_recording(Some(calls), query) && cues is None ==> match plain_text(
                Some(calls),
            ) {
                Some(plain) => if trim(plain).len() > 0 {
                    lyrics == lyrics_from_raw(plain, "Musixmatch"@)
                } else {
                    lyrics.text.len() == 0 && lyrics.cues.len() == 0
                },
                None => lyrics.text.len() == 0 && lyrics.cues.len() == 0,
            }
        }),
{
}

/// Subtitles are read as a cue list where they are one with words, else as LRC. Only a timeline
/// with words counts.
pub proof fn subtitles_are_a_cue_list_or_lrc(body: Seq<char>)
    ensures
        cues_in_body(body) matches Some(cues) ==> has_words(cues) && (mxm_subtitle(trim(body))
            == Some(cues) || cues == lrc_cues(trim(body))),
        trim(body).len() > 0 && trim(body)[0] == '[' && (mxm_subtitle(trim(body)) matches Some(
            list,
        ) && has_words(list)) ==> cues_in_body(body) == mxm_subtitle(trim(body)),
        trim(body).len() > 0 && mxm_subtitle(trim(body)) is None && has_words(
            lrc_cues(trim(body)),
        ) ==> cues_in_body(body) == Some(lrc_cues(trim(body))),
{
}

/// A token that came is kept, with its identity and its time, and the song is asked for with it. A
/// refusal before it is forgotten.
pub proof fn a_token_that_came_is_kept(
    session: SessionView,
    query: QueryView,
    reply: ReplyView,
    token: Seq<char>,
    now: u64,
)
    requires
        mint_answers(reply) == Ok::<_, ProviderError>(token),
    ensures
        ({
            let (after, turn) = next_turn(
                session,
                Stage::Minting(Identity::Android),
                query,
                reply,
                now,
            );
            &&& after.cached matches Some(kept) && kept.value == token && kept.minted == now
                && kept.app_id == app_id_of(Identity::Android)
            &&& after.refused_at is None
            &&& turn == TurnView::Ask(
                Stage::Asking,
                subtitles_asks(query, app_id_of(Identity::Android), token),
            )
        }),
        ({
            let (after, turn) = next_turn(
                session,
                Stage::Minting(Identity::Mac),
                query,
                reply,
                now,
            );
            &&& after.cached matches Some(kept) && kept.value == token && kept.minted == now
                && kept.app_id == app_id_of(Identity::Mac)
            &&& after.refused_at is None
            &&& turn == TurnView::Ask(
                Stage::Asking,
                subtitles_asks(query, app_id_of(Identity::Mac), token),
            )
        }),
{
}

/// What a reply to the request for a token comes to, where it holds none.
pub proof fn a_reply_without_a_token_is_an_error(
    status: u16,
    bytes: Seq<u8>,
    fault: Fault,
    data: JsonView,
)
    ensures
        mint_answers(ReplyView::Failed(fault)) == Err::<Seq<char>, _>(fault_error(fault)),
        status < 200 || status > 299 ==> mint_answers(
            ReplyView::Answered { status, body: Ok(bytes) },
        ) == Err::<Seq<char>, _>(ProviderError::Http),
        200 <= status <= 299 ==> mint_answers(ReplyView::Answered { status, body: Err(fault) })
            == Err::<Seq<char>, _>(ProviderError::BadJson),
        200 <= status <= 299 && json_in_bytes(bytes) is None ==> mint_answers(
            ReplyView::Answered { status, body: Ok(bytes) },
        ) == Err::<Seq<char>, _>(ProviderError::BadJson),
        200 <= status <= 299 && json_in_bytes(bytes) == Some(data) ==> mint_answers(
            ReplyView::Answered { status, body: Ok(bytes) },
        ) == minted_token(data),
{
}

/// The answer to the request for the song ends the lookup, and a token that it shows to be stale
/// is forgotten.
pub proof fn an_answer_ends_the_lookup(
    session: SessionView,
    query: QueryView,
    reply: ReplyView,
    now: u64,
)
    ensures
        ({
            let (after, turn) = next_turn(session, Stage::Asking, query, reply, now);
            &&& turn == TurnView::Done(reply_answer(query, reply).0)
            &&& reply_answer(query, reply).1 ==> after.cached is None
            &&& !reply_answer(query, reply).1 ==> after.cached == session.cached
            &&& after.refused_at == session.refused_at
        }),
{
}

} // verus!
