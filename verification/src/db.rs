//! What is kept of lyrics already downloaded, and of per-track source choices.
//!
//! The database keeps the app polite to sources that are unofficial and rate-limited. Storage is
//! best-effort on purpose: a folder that cannot be written to degrades the app to an in-memory
//! session, it does not stop it from running.
//!
//! Here stand the statements that are run, with their parameters, and what their rows mean.

use vstd::prelude::*;

use crate::lrc::{Cue, CueView};
use crate::providers::{LyricsResult, LyricsView};
use crate::settings::{is_provider, provider_label};

verus! {

pub const DATABASE_FILE: &'static str = "lyrics.db";

/// Rows older than this are re-fetched: a source that had only plain text may have gained a
/// timeline, and a bad match should not be cached forever.
pub const MAX_AGE_SECONDS: i64 = 2_592_000;

/// The source column value meaning "whatever the normal lookup order finds".
pub const AUTO: &'static str = "";

pub const SCHEMA: &'static str = "CREATE TABLE IF NOT EXISTS lyrics (
    track_key   TEXT NOT NULL,
    requested   TEXT NOT NULL,
    track_name  TEXT NOT NULL DEFAULT '',
    artist      TEXT NOT NULL DEFAULT '',
    source      TEXT NOT NULL DEFAULT '',
    synced      INTEGER NOT NULL DEFAULT 0,
    text        TEXT NOT NULL DEFAULT '',
    cues        TEXT NOT NULL DEFAULT '[]',
    fetched_at  INTEGER NOT NULL DEFAULT 0,
    PRIMARY KEY (track_key, requested)
);
CREATE TABLE IF NOT EXISTS track_source (
    track_key TEXT PRIMARY KEY,
    source    TEXT NOT NULL
);";

pub const SELECT_LYRICS: &'static str = "SELECT source, text, cues, fetched_at FROM lyrics
    WHERE track_key = ?1 AND requested = ?2";

pub const UPSERT_LYRICS: &'static str = "INSERT INTO lyrics
    (track_key, requested, track_name, artist, source, synced, text, cues, fetched_at)
    VALUES (?1, ?2, ?3, ?4, ?5, ?6, ?7, ?8, ?9)
    ON CONFLICT(track_key, requested) DO UPDATE SET
        track_name = excluded.track_name,
        artist     = excluded.artist,
        source     = excluded.source,
        synced     = excluded.synced,
        text       = excluded.text,
        cues       = excluded.cues,
        fetched_at = excluded.fetched_at";

pub const DELETE_LYRICS_OF_TRACK: &'static str = "DELETE FROM lyrics WHERE track_key = ?1";

pub const DELETE_LYRICS: &'static str = "DELETE FROM lyrics";

pub const COUNT_TRACKS: &'static str = "SELECT COUNT(DISTINCT track_key) FROM lyrics";

pub const SELECT_SOURCE: &'static str = "SELECT source FROM track_source WHERE track_key = ?1";

pub const UPSERT_SOURCE: &'static str = "INSERT INTO track_source (track_key, source)
    VALUES (?1, ?2)
    ON CONFLICT(track_key) DO UPDATE SET source = excluded.source";

pub const DELETE_SOURCE: &'static str = "DELETE FROM track_source WHERE track_key = ?1";

/// What the player needs to know about a track when caching its lyrics, kept so the database is
/// readable on its own rather than a wall of opaque keys.
#[derive(Debug, Clone, Copy)]
pub struct TrackInfo<'a> {
    pub name: &'a str,
    pub artist: &'a str,
}

/// A value that goes into a statement.
#[derive(Debug)]
pub enum Param {
    Text(String),
    Integer(i64),
}

/// What a [`Param`] is.
pub ghost enum ParamView {
    Text(Seq<char>),
    Integer(i64),
}

impl View for Param {
    type V = ParamView;

    open spec fn view(&self) -> ParamView {
        match *self {
            Param::Text(text) => ParamView::Text(text@),
            Param::Integer(number) => ParamView::Integer(number),
        }
    }
}

impl DeepView for Param {
    type V = ParamView;

    open spec fn deep_view(&self) -> ParamView {
        self@
    }
}

/// A statement that is to be run, and the values that go into it.
#[derive(Debug)]
pub struct Statement {
    pub sql: &'static str,
    pub params: Vec<Param>,
}

/// What a [`Statement`] does.
pub ghost struct StatementView {
    pub sql: Seq<char>,
    pub params: Seq<ParamView>,
}

impl View for Statement {
    type V = StatementView;

    open spec fn view(&self) -> StatementView {
        StatementView { sql: self.sql@, params: self.params.deep_view() }
    }
}

/// What a statement that was not needed, or was, says.
pub open spec fn statement_view(statement: Option<Statement>) -> Option<StatementView> {
    match statement {
        Some(statement) => Some(statement@),
        None => None,
    }
}

fn statement1(sql: &'static str, first: &str) -> (statement: Statement)
    ensures
        statement@ == (StatementView { sql: sql@, params: seq![ParamView::Text(first@)] }),
{
    let mut params: Vec<Param> = Vec::new();
    params.push(Param::Text(first.to_owned()));
    let statement = Statement { sql, params };
    assert(statement@.params =~= seq![ParamView::Text(first@)]);
    statement
}

fn statement2(sql: &'static str, first: &str, second: &str) -> (statement: Statement)
    ensures
        statement@ == (StatementView {
            sql: sql@,
            params: seq![ParamView::Text(first@), ParamView::Text(second@)],
        }),
{
    let mut params: Vec<Param> = Vec::new();
    params.push(Param::Text(first.to_owned()));
    params.push(Param::Text(second.to_owned()));
    let statement = Statement { sql, params };
    assert(statement@.params =~= seq![ParamView::Text(first@), ParamView::Text(second@)]);
    statement
}

// --------------------------------------------------------------------------- opening

/// What is said where the database cannot be opened.
pub open spec fn storage_warning(error: Seq<char>) -> Seq<char> {
    "Downloaded lyrics cannot be saved between sessions: "@ + error
}

/// What is said where the database cannot be opened.
pub fn warning(error: &str) -> (text: String)
    ensures
        text@ == storage_warning(error@),
{
    let mut text = "Downloaded lyrics cannot be saved between sessions: ".to_owned();
    text.append(error);
    text
}

/// Why a choice cannot be kept where there is no database.
pub fn no_storage(warning: Option<&str>) -> (text: String)
    ensures
        text@ == match warning {
            Some(warning) => warning@,
            None => "Lyrics storage is unavailable"@,
        },
{
    match warning {
        Some(warning) => warning.to_owned(),
        None => "Lyrics storage is unavailable".to_owned(),
    }
}

// ---------------------------------------------------------------------------- lyrics

/// Look for cached lyrics.
pub open spec fn lyrics_asks(track_key: Seq<char>, requested: Seq<char>) -> StatementView {
    StatementView {
        sql: SELECT_LYRICS@,
        params: seq![ParamView::Text(track_key), ParamView::Text(requested)],
    }
}

/// Look for cached lyrics of this track under this request ("" for the normal lookup order,
/// otherwise a provider id).
pub fn lyrics_query(track_key: &str, requested: &str) -> (statement: Statement)
    ensures
        statement@ == lyrics_asks(track_key@, requested@),
{
    statement2(SELECT_LYRICS, track_key, requested)
}

/// A row of cached lyrics.
#[derive(Debug)]
pub struct Row {
    pub source: String,
    pub text: String,
    pub cues: Vec<Cue>,
    pub fetched_at: i64,
}

/// What a [`Row`] says.
pub ghost struct RowView {
    pub source: Seq<char>,
    pub text: Seq<char>,
    pub cues: Seq<CueView>,
    pub fetched_at: i64,
}

impl View for Row {
    type V = RowView;

    open spec fn view(&self) -> RowView {
        RowView {
            source: self.source@,
            text: self.text@,
            cues: self.cues.deep_view(),
            fetched_at: self.fetched_at,
        }
    }
}

/// Whether a row is too old to be used.
pub open spec fn is_stale(fetched_at: int, now: int) -> bool {
    now - fetched_at > MAX_AGE_SECONDS
}

/// The lyrics in a row. Errors belong to one lookup attempt, not to the cached lyrics.
pub open spec fn row_lyrics(row: Option<RowView>, now: i64) -> Option<LyricsView> {
    match row {
        Some(row) if !is_stale(row.fetched_at as int, now as int) => Some(
            LyricsView {
                text: row.text,
                source: row.source,
                cues: row.cues,
                errors: Seq::empty(),
            },
        ),
        _ => None,
    }
}

/// The lyrics in a row, `None` where there is no row or it is too old.
pub fn lyrics(row: Option<Row>, now: i64) -> (result: Option<LyricsResult>)
    ensures
        match result {
            Some(result) => row is Some && row_lyrics(Some(row->0@), now) == Some(result@),
            None => match row {
                Some(row) => row_lyrics(Some(row@), now) is None,
                None => true,
            },
        },
{
    match row {
        None => None,
        Some(row) => {
            if now as i128 - row.fetched_at as i128 > MAX_AGE_SECONDS as i128 {
                return None;
            }
            let result = LyricsResult {
                text: row.text,
                source: row.source,
                cues: row.cues,
                errors: Vec::new(),
            };
            assert(result@.errors =~= Seq::empty());
            Some(result)
        },
    }
}

/// Keep lyrics, the cues as the JSON text that they are written as. Empty results are not kept.
pub open spec fn save_asks(
    track_key: Seq<char>,
    requested: Seq<char>,
    name: Seq<char>,
    artist: Seq<char>,
    result: LyricsView,
    cues_json: Seq<char>,
    now: i64,
) -> Option<StatementView> {
    if result.text.len() == 0 && result.cues.len() == 0 {
        None
    } else {
        Some(
            StatementView {
                sql: UPSERT_LYRICS@,
                params: seq![
                    ParamView::Text(track_key),
                    ParamView::Text(requested),
                    ParamView::Text(name),
                    ParamView::Text(artist),
                    ParamView::Text(result.source),
                    ParamView::Integer(
                        if result.cues.len() > 0 {
                            1
                        } else {
                            0
                        },
                    ),
                    ParamView::Text(result.text),
                    ParamView::Text(cues_json),
                    ParamView::Integer(now),
                ],
            },
        )
    }
}

/// Remember a successful lookup. Empty results are not stored, so a source that was merely
/// unreachable gets another chance next time.
pub fn save_lyrics(
    track_key: &str,
    requested: &str,
    track: TrackInfo<'_>,
    result: &LyricsResult,
    cues_json: &str,
    now: i64,
) -> (statement: Option<Statement>)
    ensures
        statement_view(statement) == save_asks(
            track_key@,
            requested@,
            track.name@,
            track.artist@,
            result@,
            cues_json@,
            now,
        ),
{
    if result.is_empty() {
        return None;
    }
    let mut params: Vec<Param> = Vec::new();
    params.push(Param::Text(track_key.to_owned()));
    params.push(Param::Text(requested.to_owned()));
    params.push(Param::Text(track.name.to_owned()));
    params.push(Param::Text(track.artist.to_owned()));
    params.push(Param::Text(result.source.clone()));
    params.push(
        Param::Integer(
            if result.cues.len() > 0 {
                1
            } else {
                0
            },
        ),
    );
    params.push(Param::Text(result.text.clone()));
    params.push(Param::Text(cues_json.to_owned()));
    params.push(Param::Integer(now));
    let statement = Statement { sql: UPSERT_LYRICS, params };
    assert(result@.cues.len() == result.cues@.len());
    assert(statement@.params =~= save_asks(
        track_key@,
        requested@,
        track.name@,
        track.artist@,
        result@,
        cues_json@,
        now,
    )->0.params);
    Some(statement)
}

/// Drop every cached answer for one track.
pub open spec fn forget_asks(track_key: Seq<char>) -> StatementView {
    StatementView { sql: DELETE_LYRICS_OF_TRACK@, params: seq![ParamView::Text(track_key)] }
}

/// Drop every cached answer for one track, whichever source produced it.
pub fn forget(track_key: &str) -> (statement: Statement)
    ensures
        statement@ == forget_asks(track_key@),
{
    statement1(DELETE_LYRICS_OF_TRACK, track_key)
}

/// Empty the lyrics cache.
pub open spec fn clear_asks() -> StatementView {
    StatementView { sql: DELETE_LYRICS@, params: Seq::empty() }
}

/// Empty the lyrics cache, keeping the per-track source choices.
pub fn clear_lyrics() -> (statement: Statement)
    ensures
        statement@ == clear_asks(),
{
    let statement = Statement { sql: DELETE_LYRICS, params: Vec::new() };
    assert(statement@.params =~= Seq::empty());
    statement
}

/// Count the songs that have lyrics on disk. It is shown in the settings panel so the cache is
/// visible rather than a mystery file.
pub fn stored_track_count() -> (statement: Statement)
    ensures
        statement@ == (StatementView { sql: COUNT_TRACKS@, params: Seq::empty() }),
{
    let statement = Statement { sql: COUNT_TRACKS, params: Vec::new() };
    assert(statement@.params =~= Seq::empty());
    statement
}

/// Rows that are too old are treated as a miss.
pub proof fn stale_rows_are_a_miss(row: RowView, now: i64)
    requires
        now - row.fetched_at > MAX_AGE_SECONDS,
    ensures
        row_lyrics(Some(row), now) is None,
{
}

// --------------------------------------------------------------------------- choices

/// Look for the source that a track is pinned to.
pub open spec fn source_asks(track_key: Seq<char>) -> StatementView {
    StatementView { sql: SELECT_SOURCE@, params: seq![ParamView::Text(track_key)] }
}

/// Look for the source that a track is pinned to.
pub fn preferred_source_query(track_key: &str) -> (statement: Statement)
    ensures
        statement@ == source_asks(track_key@),
{
    statement1(SELECT_SOURCE, track_key)
}

/// The source a track is pinned to, given what is stored.
pub open spec fn pinned_source(stored: Option<Seq<char>>) -> Option<Seq<char>> {
    match stored {
        Some(id) if is_provider(id) => Some(id),
        _ => None,
    }
}

/// The source a track is pinned to, or `None` for the normal order. A pin on a provider this
/// build no longer has is not a pin.
pub fn preferred_source(stored: Option<String>) -> (source: Option<String>)
    ensures
        source.deep_view() == pinned_source(stored.deep_view()),
{
    match stored {
        Some(id) => if provider_label(id.as_str()).is_some() {
            Some(id)
        } else {
            None
        },
        None => None,
    }
}

/// Pin a track to one source, or clear the pin.
pub open spec fn pin_asks(track_key: Seq<char>, source: Option<Seq<char>>) -> StatementView {
    match source {
        Some(source) => StatementView {
            sql: UPSERT_SOURCE@,
            params: seq![ParamView::Text(track_key), ParamView::Text(source)],
        },
        None => StatementView { sql: DELETE_SOURCE@, params: seq![ParamView::Text(track_key)] },
    }
}

/// Pin this track to one source, or clear the pin with `None`.
pub fn set_preferred_source(track_key: &str, source: Option<&str>) -> (statement: Statement)
    ensures
        statement@ == pin_asks(
            track_key@,
            match source {
                Some(source) => Some(source@),
                None => None,
            },
        ),
{
    match source {
        Some(source) => statement2(UPSERT_SOURCE, track_key, source),
        None => statement1(DELETE_SOURCE, track_key),
    }
}

} // verus!
