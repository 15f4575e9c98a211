//! What the statements of the database do to its two tables, and what follows from it: what is
//! kept is read back, what is forgotten is not, and choices outlive the lyrics.
//!
//! [`ran`] and [`selected`] say what the SQL of each statement means, as SQLite documents
//! `INSERT`, `ON CONFLICT`, `DELETE` and `SELECT`, on the tables of the schema.

use vstd::prelude::*;

use crate::db::{
    clear_asks, forget_asks, lyrics_asks, pin_asks, pinned_source, row_lyrics, save_asks,
    source_asks, DELETE_LYRICS, DELETE_LYRICS_OF_TRACK, DELETE_SOURCE, MAX_AGE_SECONDS, ParamView,
    RowView, SELECT_LYRICS, SELECT_SOURCE, StatementView, UPSERT_LYRICS, UPSERT_SOURCE,
};
use crate::lrc::CueView;
use crate::providers::LyricsView;
use crate::settings::is_provider;

verus! {

/// The tables, by their primary keys.
pub ghost struct Tables {
    /// By track key and request, the columns behind them.
    pub lyrics: Map<(ParamView, ParamView), Seq<ParamView>>,
    /// By track key, the source.
    pub track_source: Map<ParamView, ParamView>,
}

/// The tables after a statement was run.
pub open spec fn ran(tables: Tables, statement: StatementView) -> Tables {
    let params = statement.params;
    if statement.sql == UPSERT_LYRICS@ {
        Tables { lyrics: tables.lyrics.insert((params[0], params[1]), params.skip(2)), ..tables }
    } else if statement.sql == DELETE_LYRICS_OF_TRACK@ {
        Tables {
            lyrics: tables.lyrics.restrict(
                Set::new(|key: (ParamView, ParamView)| key.0 != params[0]),
            ),
            ..tables
        }
    } else if statement.sql == DELETE_LYRICS@ {
        Tables { lyrics: Map::empty(), ..tables }
    } else if statement.sql == UPSERT_SOURCE@ {
        Tables { track_source: tables.track_source.insert(params[0], params[1]), ..tables }
    } else if statement.sql == DELETE_SOURCE@ {
        Tables { track_source: tables.track_source.remove(params[0]), ..tables }
    } else {
        tables
    }
}

/// The tables after several statements were run, one after the other.
pub open spec fn ran_all(tables: Tables, statements: Seq<StatementView>) -> Tables
    decreases statements.len(),
{
    if statements.len() == 0 {
        tables
    } else {
        ran(ran_all(tables, statements.drop_last()), statements.last())
    }
}

/// The columns that a query selects, where there is a row. There is one at most: both queries
/// give a whole primary key.
pub open spec fn selected(tables: Tables, query: StatementView) -> Option<Seq<ParamView>> {
    let params = query.params;
    if query.sql == SELECT_LYRICS@ && tables.lyrics.contains_key((params[0], params[1])) {
        let columns = tables.lyrics[(params[0], params[1])];
        Some(seq![columns[2], columns[4], columns[5], columns[6]])
    } else if query.sql == SELECT_SOURCE@ && tables.track_source.contains_key(params[0]) {
        Some(seq![tables.track_source[params[0]]])
    } else {
        None
    }
}

/// The row in selected columns. `cues_in` reads the JSON text of cues.
pub open spec fn row_of(
    columns: Option<Seq<ParamView>>,
    cues_in: spec_fn(Seq<char>) -> Seq<CueView>,
) -> Option<RowView> {
    match columns {
        Some(columns) => Some(
            RowView {
                source: columns[0]->Text_0,
                text: columns[1]->Text_0,
                cues: cues_in(columns[2]->Text_0),
                fetched_at: columns[3]->Integer_0,
            },
        ),
        None => None,
    }
}

/// The lyrics that are found for a track under a request.
pub open spec fn found_lyrics(
    tables: Tables,
    cues_in: spec_fn(Seq<char>) -> Seq<CueView>,
    track_key: Seq<char>,
    requested: Seq<char>,
    now: i64,
) -> Option<LyricsView> {
    row_lyrics(row_of(selected(tables, lyrics_asks(track_key, requested)), cues_in), now)
}

/// The source that a track is pinned to.
pub open spec fn found_source(tables: Tables, track_key: Seq<char>) -> Option<Seq<char>> {
    pinned_source(
        match selected(tables, source_asks(track_key)) {
            Some(columns) => Some(columns[0]->Text_0),
            None => None,
        },
    )
}

proof fn statements_differ()
    ensures
        UPSERT_LYRICS@ != DELETE_LYRICS_OF_TRACK@,
        UPSERT_LYRICS@ != DELETE_LYRICS@,
        UPSERT_LYRICS@ != UPSERT_SOURCE@,
        UPSERT_LYRICS@ != DELETE_SOURCE@,
        DELETE_LYRICS_OF_TRACK@ != DELETE_LYRICS@,
        DELETE_LYRICS_OF_TRACK@ != UPSERT_SOURCE@,
        DELETE_LYRICS_OF_TRACK@ != DELETE_SOURCE@,
        DELETE_LYRICS@ != UPSERT_SOURCE@,
        DELETE_LYRICS@ != DELETE_SOURCE@,
        UPSERT_SOURCE@ != DELETE_SOURCE@,
        SELECT_LYRICS@ != SELECT_SOURCE@,
{
    reveal_strlit("INSERT INTO lyrics
    (track_key, requested, track_name, artist, source, synced, text, cues, fetched_at)
    VALUES (?1, ?2, ?3, ?4, ?5, ?6, ?7, ?8, ?9)
    ON CONFLICT(track_key, requested) DO UPDATE SET
        track_name = excluded.track_name,
        artist     = excluded.artist,
        source     = excluded.source,
        synced     = excluded.synced,
        text       = excluded.text,
        cues       = excluded.cues,
        fetched_at = excluded.fetched_at");
    reveal_strlit("DELETE FROM lyrics WHERE track_key = ?1");
    reveal_strlit("DELETE FROM lyrics");
    reveal_strlit("INSERT INTO track_source (track_key, source)
    VALUES (?1, ?2)
    ON CONFLICT(track_key) DO UPDATE SET source = excluded.source");
    reveal_strlit("DELETE FROM track_source WHERE track_key = ?1");
    reveal_strlit("SELECT source, text, cues, fetched_at FROM lyrics
    WHERE track_key = ?1 AND requested = ?2");
    reveal_strlit("SELECT source FROM track_source WHERE track_key = ?1");
    assert(UPSERT_LYRICS@.len() == 474);
    assert(DELETE_LYRICS_OF_TRACK@.len() == 39);
    assert(DELETE_LYRICS@.len() == 18);
    assert(UPSERT_SOURCE@.len() == 130);
    assert(DELETE_SOURCE@.len() == 45);
    assert(SELECT_LYRICS@.len() == 93);
    assert(SELECT_SOURCE@.len() == 52);
}

/// Whether a statement leaves what is kept of a track under a request as it is: it does not
/// keep other lyrics there, and drops neither those of the track nor those of all.
pub open spec fn leaves_lyrics(
    statement: StatementView,
    track_key: Seq<char>,
    requested: Seq<char>,
) -> bool {
    let params = statement.params;
    let (track, request) = (ParamView::Text(track_key), ParamView::Text(requested));
    &&& statement.sql == UPSERT_LYRICS@ ==> (params[0], params[1]) != (track, request)
    &&& statement.sql == DELETE_LYRICS_OF_TRACK@ ==> params[0] != track
    &&& statement.sql != DELETE_LYRICS@
}

proof fn a_statement_leaves_lyrics(
    tables: Tables,
    statement: StatementView,
    track_key: Seq<char>,
    requested: Seq<char>,
)
    requires
        leaves_lyrics(statement, track_key, requested),
    ensures
        selected(ran(tables, statement), lyrics_asks(track_key, requested)) == selected(
            tables,
            lyrics_asks(track_key, requested),
        ),
{
    statements_differ();
    let key = (ParamView::Text(track_key), ParamView::Text(requested));
    let query = lyrics_asks(track_key, requested);
    assert((query.params[0], query.params[1]) == key);
    let next = ran(tables, statement);
    assert(next.lyrics.contains_key(key) == tables.lyrics.contains_key(key));
    assert(tables.lyrics.contains_key(key) ==> next.lyrics[key] == tables.lyrics[key]);
}

proof fn statements_leave_lyrics(
    tables: Tables,
    statements: Seq<StatementView>,
    track_key: Seq<char>,
    requested: Seq<char>,
)
    requires
        forall|i: int|
            0 <= i < statements.len() ==> leaves_lyrics(
                #[trigger] statements[i],
                track_key,
                requested,
            ),
    ensures
        selected(ran_all(tables, statements), lyrics_asks(track_key, requested)) == selected(
            tables,
            lyrics_asks(track_key, requested),
        ),
    decreases statements.len(),
{
    if statements.len() > 0 {
        let front = statements.drop_last();
        assert forall|i: int| 0 <= i < front.len() implies leaves_lyrics(
            #[trigger] front[i],
            track_key,
            requested,
        ) by {
            assert(front[i] == statements[i]);
        }
        statements_leave_lyrics(tables, front, track_key, requested);
        assert(statements.last() == statements[statements.len() - 1]);
        a_statement_leaves_lyrics(
            ran_all(tables, front),
            statements.last(),
            track_key,
            requested,
        );
    }
}

/// Lyrics that were kept are read back as they were, but for the errors of that lookup, until
/// they are too old: whatever else was run since, as long as nothing was kept in their place and
/// neither the track nor the whole cache was forgotten. `cues_in` has to read the cues back from
/// the JSON text that they were kept as.
pub proof fn kept_lyrics_are_read_back(
    tables: Tables,
    track_key: Seq<char>,
    requested: Seq<char>,
    name: Seq<char>,
    artist: Seq<char>,
    result: LyricsView,
    cues_json: Seq<char>,
    cues_in: spec_fn(Seq<char>) -> Seq<CueView>,
    now: i64,
    since: Seq<StatementView>,
    later: i64,
)
    requires
        result.text.len() > 0 || result.cues.len() > 0,
        cues_in(cues_json) == result.cues,
        forall|i: int|
            0 <= i < since.len() ==> leaves_lyrics(#[trigger] since[i], track_key, requested),
    ensures
        ({
            let kept = ran(
                tables,
                save_asks(track_key, requested, name, artist, result, cues_json, now)->0,
            );
            found_lyrics(ran_all(kept, since), cues_in, track_key, requested, later) == (if later
                - now <= MAX_AGE_SECONDS {
                Some(LyricsView { errors: Seq::empty(), ..result })
            } else {
                None
            })
        }),
{
    let save = save_asks(track_key, requested, name, artist, result, cues_json, now)->0;
    let kept = ran(tables, save);
    statements_leave_lyrics(kept, since, track_key, requested);
    let query = lyrics_asks(track_key, requested);
    let columns = save.params.skip(2);
    assert(selected(kept, query) == Some(
        seq![columns[2], columns[4], columns[5], columns[6]],
    ));
}

/// What is kept of one track under one request touches no other one, and no choice.
pub proof fn other_lyrics_are_left_alone(
    tables: Tables,
    track_key: Seq<char>,
    requested: Seq<char>,
    name: Seq<char>,
    artist: Seq<char>,
    result: LyricsView,
    cues_json: Seq<char>,
    cues_in: spec_fn(Seq<char>) -> Seq<CueView>,
    now: i64,
    other_track: Seq<char>,
    other_request: Seq<char>,
    later: i64,
)
    requires
        result.text.len() > 0 || result.cues.len() > 0,
        other_track != track_key || other_request != requested,
    ensures
        ({
            let kept = ran(
                tables,
                save_asks(track_key, requested, name, artist, result, cues_json, now)->0,
            );
            &&& found_lyrics(kept, cues_in, other_track, other_request, later) == found_lyrics(
                tables,
                cues_in,
                other_track,
                other_request,
                later,
            )
            &&& kept.track_source == tables.track_source
        }),
{
    statements_differ();
    let save = save_asks(track_key, requested, name, artist, result, cues_json, now)->0;
    assert(save.params[0] == ParamView::Text(track_key));
    assert(save.params[1] == ParamView::Text(requested));
    a_statement_leaves_lyrics(tables, save, other_track, other_request);
}

/// A track that was forgotten has no lyrics under any request. Every other track keeps its own,
/// and every choice stays.
pub proof fn a_forgotten_track_has_no_lyrics(
    tables: Tables,
    track_key: Seq<char>,
    cues_in: spec_fn(Seq<char>) -> Seq<CueView>,
)
    ensures
        forall|requested: Seq<char>, now: i64| #[trigger]
            found_lyrics(
                ran(tables, forget_asks(track_key)),
                cues_in,
                track_key,
                requested,
                now,
            ) is None,
        forall|other: Seq<char>, requested: Seq<char>, now: i64|
            other != track_key ==> #[trigger] found_lyrics(
                ran(tables, forget_asks(track_key)),
                cues_in,
                other,
                requested,
                now,
            ) == found_lyrics(tables, cues_in, other, requested, now),
        ran(tables, forget_asks(track_key)).track_source == tables.track_source,
{
    statements_differ();
    let statement = forget_asks(track_key);
    let next = ran(tables, statement);
    assert(statement.params[0] == ParamView::Text(track_key));
    assert forall|requested: Seq<char>, now: i64| #[trigger]
        found_lyrics(next, cues_in, track_key, requested, now) is None by {
        let key = (ParamView::Text(track_key), ParamView::Text(requested));
        assert(!next.lyrics.contains_key(key));
        assert(selected(next, lyrics_asks(track_key, requested)) is None);
    }
    assert forall|other: Seq<char>, requested: Seq<char>, now: i64|
        other != track_key implies #[trigger] found_lyrics(next, cues_in, other, requested, now)
        == found_lyrics(tables, cues_in, other, requested, now) by {
        a_statement_leaves_lyrics(tables, statement, other, requested);
    }
}

/// An emptied cache has no lyrics, and every choice stays.
pub proof fn an_emptied_cache_keeps_the_choices(
    tables: Tables,
    cues_in: spec_fn(Seq<char>) -> Seq<CueView>,
)
    ensures
        forall|track_key: Seq<char>, requested: Seq<char>, now: i64| #[trigger]
            found_lyrics(ran(tables, clear_asks()), cues_in, track_key, requested, now) is None,
        forall|track_key: Seq<char>| #[trigger]
            found_source(ran(tables, clear_asks()), track_key) == found_source(tables, track_key),
{
    statements_differ();
    let next = ran(tables, clear_asks());
    assert forall|track_key: Seq<char>, requested: Seq<char>, now: i64| #[trigger]
        found_lyrics(next, cues_in, track_key, requested, now) is None by {
        assert(selected(next, lyrics_asks(track_key, requested)) is None);
    }
}

/// A choice is read back: a track that was pinned to a source of this build is pinned to it, and
/// one that was pinned to another id, or whose pin was cleared, is not pinned. Every other track
/// keeps its own choice, and all lyrics stay.
pub proof fn a_choice_is_read_back(
    tables: Tables,
    track_key: Seq<char>,
    source: Option<Seq<char>>,
)
    ensures
        found_source(ran(tables, pin_asks(track_key, source)), track_key) == (match source {
            Some(id) => if is_provider(id) {
                Some(id)
            } else {
                None
            },
            None => None,
        }),
        forall|other: Seq<char>|
            other != track_key ==> #[trigger] found_source(
                ran(tables, pin_asks(track_key, source)),
                other,
            ) == found_source(tables, other),
        ran(tables, pin_asks(track_key, source)).lyrics == tables.lyrics,
{
    statements_differ();
    let statement = pin_asks(track_key, source);
    let next = ran(tables, statement);
    assert(statement.params[0] == ParamView::Text(track_key));
    assert(source_asks(track_key).params[0] == ParamView::Text(track_key));
    if let Some(id) = source {
        assert(statement.params[1] == ParamView::Text(id));
        assert(selected(next, source_asks(track_key)) == Some(seq![ParamView::Text(id)]));
    } else {
        assert(selected(next, source_asks(track_key)) is None);
    }
    assert forall|other: Seq<char>| other != track_key implies #[trigger] found_source(next, other)
        == found_source(tables, other) by {
        assert(source_asks(other).params[0] == ParamView::Text(other));
        assert(selected(next, source_asks(other)) == selected(tables, source_asks(other)));
    }
}

} // verus!
