//! What is kept of lyrics and of choices, and for how long.

use vstd::prelude::*;

use crate::db::{
    clear_asks, forget_asks, lyrics_asks, pin_asks, pinned_source, row_lyrics, save_asks,
    source_asks, storage_warning, ParamView, RowView,
};
use crate::providers::LyricsView;
use crate::token_store::{entropy_for, usable_token, MAX_ENCRYPTED_BYTES, MAX_PAYLOAD_BYTES};
use vstd::utf8::encode_utf8;

verus! {

/// A row is used for thirty days, to the second, and no longer. What it holds is what is found.
pub proof fn a_row_is_used_for_thirty_days(row: RowView, now: i64)
    ensures
        row_lyrics(Some(row), now) is Some <==> now - row.fetched_at <= 30 * 24 * 60 * 60,
        row_lyrics(Some(row), now) matches Some(lyrics) ==> lyrics.text == row.text
            && lyrics.source == row.source && lyrics.cues == row.cues && lyrics.errors.len() == 0,
        row_lyrics(None, now) is None,
{
}

/// Lyrics are kept where there are any, with the song they are of, the source they came from and
/// the time.
pub proof fn lyrics_are_kept_with_their_song(
    track_key: Seq<char>,
    requested: Seq<char>,
    name: Seq<char>,
    artist: Seq<char>,
    result: LyricsView,
    cues_json: Seq<char>,
    now: i64,
)
    ensures
        ({
            let kept = save_asks(track_key, requested, name, artist, result, cues_json, now);
            &&& kept is None <==> result.text.len() == 0 && result.cues.len() == 0
            &&& kept matches Some(statement) ==> {
                let params = statement.params;
                &&& statement.sql == "INSERT INTO lyrics
    (track_key, requested, track_name, artist, source, synced, text, cues, fetched_at)
    VALUES (?1, ?2, ?3, ?4, ?5, ?6, ?7, ?8, ?9)
    ON CONFLICT(track_key, requested) DO UPDATE SET
        track_name = excluded.track_name,
        artist     = excluded.artist,
        source     = excluded.source,
        synced     = excluded.synced,
        text       = excluded.text,
        cues       = excluded.cues,
        fetched_at = excluded.fetched_at"@
                &&& params.len() == 9
                &&& params[0] == ParamView::Text(track_key)
                &&& params[1] == ParamView::Text(requested)
                &&& params[2] == ParamView::Text(name)
                &&& params[3] == ParamView::Text(artist)
                &&& params[4] == ParamView::Text(result.source)
                &&& result.cues.len() > 0 ==> params[5] == ParamView::Integer(1)
                &&& result.cues.len() == 0 ==> params[5] == ParamView::Integer(0)
                &&& params[6] == ParamView::Text(result.text)
                &&& params[7] == ParamView::Text(cues_json)
                &&& params[8] == ParamView::Integer(now)
            }
        }),
{
}

/// Each statement says which columns it is about, and which song.
pub proof fn statements_name_their_song(
    track_key: Seq<char>,
    requested: Seq<char>,
    source: Seq<char>,
)
    ensures
        lyrics_asks(track_key, requested).sql
            == "SELECT source, text, cues, fetched_at FROM lyrics
    WHERE track_key = ?1 AND requested = ?2"@,
        lyrics_asks(track_key, requested).params == seq![
            ParamView::Text(track_key),
            ParamView::Text(requested),
        ],
        forget_asks(track_key).sql == "DELETE FROM lyrics WHERE track_key = ?1"@,
        forget_asks(track_key).params == seq![ParamView::Text(track_key)],
        clear_asks().sql == "DELETE FROM lyrics"@,
        clear_asks().params.len() == 0,
        source_asks(track_key).sql == "SELECT source FROM track_source WHERE track_key = ?1"@,
        source_asks(track_key).params == seq![ParamView::Text(track_key)],
        pin_asks(track_key, Some(source)).sql == "INSERT INTO track_source (track_key, source)
    VALUES (?1, ?2)
    ON CONFLICT(track_key) DO UPDATE SET source = excluded.source"@,
        pin_asks(track_key, Some(source)).params == seq![
            ParamView::Text(track_key),
            ParamView::Text(source),
        ],
        pin_asks(track_key, None).sql == "DELETE FROM track_source WHERE track_key = ?1"@,
        pin_asks(track_key, None).params == seq![ParamView::Text(track_key)],
{
}

/// A pin holds where it is on one of the five sources.
pub proof fn a_pin_is_on_a_source(id: Seq<char>)
    ensures
        (id == "lrclib"@ || id == "petitlyrics"@ || id == "musixmatch"@ || id == "netease"@ || id
            == "qqmusic"@) ==> pinned_source(Some(id)) == Some(id),
        !(id == "lrclib"@ || id == "petitlyrics"@ || id == "musixmatch"@ || id == "netease"@ || id
            == "qqmusic"@) ==> pinned_source(Some(id)) is None,
        pinned_source(None) is None,
{
    crate::laws::choices::there_are_five_sources(id);
}

/// What cannot be saved is said with the reason.
pub proof fn a_failure_to_save_is_said(error: Seq<char>)
    ensures
        storage_warning(error) == "Downloaded lyrics cannot be saved between sessions: "@ + error,
{
}

/// A stored session is bound to the Client ID, and bounded in size.
pub proof fn a_stored_session_is_bound_to_its_client(client_id: Seq<char>, token: Seq<char>)
    ensures
        entropy_for(client_id) == encode_utf8("SpotifyOriginalLyrics:"@ + client_id),
        token.len() == 0 ==> usable_token(client_id, Some((client_id, token))) is None,
        usable_token(client_id, None) is None,
        MAX_ENCRYPTED_BYTES == 128 * 1024,
        MAX_PAYLOAD_BYTES == 64 * 1024,
{
}

} // verus!
