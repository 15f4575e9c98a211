use hakuro::db::{
    clear_lyrics, forget, lyrics, lyrics_query, no_storage, preferred_source,
    preferred_source_query, save_lyrics, set_preferred_source, stored_track_count, warning, Param,
    Row, Statement, TrackInfo, AUTO, MAX_AGE_SECONDS, SCHEMA,
};
use hakuro::lrc::Cue;
use hakuro::providers::LyricsResult;
use rusqlite::types::Value;
use rusqlite::{Connection, OpenFlags, OptionalExtension};

const NOW: i64 = 1_700_000_000;

/// A database in memory that runs the library's statements.
struct Db {
    connection: Connection,
}

impl Db {
    fn open(name: &str) -> Self {
        let address = format!("file:{name}?mode=memory&cache=shared");
        let connection = Connection::open_with_flags(
            address,
            OpenFlags::SQLITE_OPEN_READ_WRITE
                | OpenFlags::SQLITE_OPEN_CREATE
                | OpenFlags::SQLITE_OPEN_URI,
        )
        .unwrap();
        connection.execute_batch(SCHEMA).unwrap();
        Self { connection }
    }

    fn values(statement: &Statement) -> Vec<Value> {
        statement
            .params
            .iter()
            .map(|param| match param {
                Param::Text(text) => Value::Text(text.clone()),
                Param::Integer(number) => Value::Integer(*number),
            })
            .collect()
    }

    fn run(&self, statement: Statement) {
        let values = Self::values(&statement);
        self.connection
            .execute(statement.sql, rusqlite::params_from_iter(values))
            .unwrap();
    }

    fn save_lyrics(&self, track_key: &str, requested: &str, result: &LyricsResult) {
        let cues: Vec<serde_json::Value> = result
            .cues
            .iter()
            .map(|cue| {
                let mut map = serde_json::Map::new();
                map.insert("time_ms".into(), cue.time_ms.into());
                map.insert("text".into(), cue.text.clone().into());
                serde_json::Value::Object(map)
            })
            .collect();
        let json = serde_json::Value::Array(cues).to_string();
        if let Some(statement) = save_lyrics(track_key, requested, TRACK, result, &json, NOW) {
            self.run(statement);
        }
    }

    fn lyrics(&self, track_key: &str, requested: &str) -> Option<LyricsResult> {
        let statement = lyrics_query(track_key, requested);
        let values = Self::values(&statement);
        let row = self
            .connection
            .query_row(statement.sql, rusqlite::params_from_iter(values), |row| {
                let cues: String = row.get(2)?;
                let cues: serde_json::Value = serde_json::from_str(&cues).unwrap();
                Ok(Row {
                    source: row.get(0)?,
                    text: row.get(1)?,
                    cues: cues
                        .as_array()
                        .unwrap()
                        .iter()
                        .map(|cue| Cue {
                            time_ms: cue["time_ms"].as_i64().unwrap(),
                            text: cue["text"].as_str().unwrap().to_string(),
                        })
                        .collect(),
                    fetched_at: row.get(3)?,
                })
            })
            .optional()
            .unwrap();
        lyrics(row, NOW)
    }

    fn preferred_source(&self, track_key: &str) -> Option<String> {
        let statement = preferred_source_query(track_key);
        let values = Self::values(&statement);
        let stored = self
            .connection
            .query_row(statement.sql, rusqlite::params_from_iter(values), |row| row.get(0))
            .optional()
            .unwrap();
        preferred_source(stored)
    }

    fn stored_track_count(&self) -> i64 {
        self.connection
            .query_row(stored_track_count().sql, [], |row| row.get(0))
            .unwrap()
    }
}

fn sample() -> LyricsResult {
    LyricsResult {
        text: "LINE_A\nLINE_B".into(),
        source: "LRCLIB".into(),
        cues: vec![
            Cue {
                time_ms: 1000,
                text: "LINE_A".into(),
            },
            Cue {
                time_ms: 2000,
                text: "LINE_B".into(),
            },
        ],
        errors: vec!["NetEase: Http".into()],
    }
}

const TRACK: TrackInfo<'static> = TrackInfo {
    name: "Title",
    artist: "Artist",
};

#[test]
fn lyrics_survive_reopening_the_database() {
    // As long as one connection is open, the database in memory lives on.
    let _kept = Db::open("reopening");
    {
        let db = Db::open("reopening");
        db.save_lyrics("track-1", AUTO, &sample());
    }
    let db = Db::open("reopening");
    let stored = db.lyrics("track-1", AUTO).expect("cached across sessions");
    assert_eq!(stored.source, "LRCLIB");
    assert_eq!(stored.cues.len(), 2);
    assert_eq!(stored.cues[1].time_ms, 2000);
    // Errors belong to one lookup attempt, not to the cached lyrics.
    assert!(stored.errors.is_empty());
    assert_eq!(db.stored_track_count(), 1);
}

#[test]
fn each_requested_source_is_cached_separately() {
    let db = Db::open("separately");
    db.save_lyrics("track-1", AUTO, &sample());
    let mut netease = sample();
    netease.source = "NetEase".into();
    db.save_lyrics("track-1", "netease", &netease);

    assert_eq!(db.lyrics("track-1", AUTO).unwrap().source, "LRCLIB");
    assert_eq!(db.lyrics("track-1", "netease").unwrap().source, "NetEase");
    assert!(db.lyrics("track-1", "qqmusic").is_none());
    assert_eq!(db.stored_track_count(), 1, "one song, two cached answers");
}

#[test]
fn source_preferences_and_order_specific_cache_survive_restart() {
    let _kept = Db::open("restart");
    {
        let db = Db::open("restart");
        db.run(set_preferred_source("track-1", Some("netease")));
        db.save_lyrics("track-1", "auto:lrclib,netease", &sample());
    }
    let db = Db::open("restart");
    assert_eq!(db.preferred_source("track-1").as_deref(), Some("netease"));
    assert!(db.lyrics("track-1", "auto:lrclib,netease").is_some());
    assert!(db.lyrics("track-1", "auto:netease,lrclib").is_none());
}

#[test]
fn saving_the_same_track_twice_replaces_rather_than_fails() {
    let db = Db::open("twice");
    db.save_lyrics("track-1", AUTO, &sample());
    let mut second = sample();
    second.source = "PetitLyrics".into();
    second.text = "LINE_C".into();
    db.save_lyrics("track-1", AUTO, &second);

    let stored = db.lyrics("track-1", AUTO).unwrap();
    assert_eq!(stored.source, "PetitLyrics");
    assert_eq!(stored.text, "LINE_C");
}

/// An empty answer means "nobody had it right now", which must not be
/// remembered as fact.
#[test]
fn empty_results_are_not_cached() {
    let db = Db::open("empty");
    db.save_lyrics("track-1", AUTO, &LyricsResult::empty("LRCLIB"));
    assert!(db.lyrics("track-1", AUTO).is_none());
}

#[test]
fn forget_removes_every_cached_source_for_one_track() {
    let db = Db::open("forget");
    db.save_lyrics("track-1", AUTO, &sample());
    db.save_lyrics("track-1", "netease", &sample());
    db.save_lyrics("track-2", AUTO, &sample());

    db.run(forget("track-1"));
    assert!(db.lyrics("track-1", AUTO).is_none());
    assert!(db.lyrics("track-1", "netease").is_none());
    assert!(
        db.lyrics("track-2", AUTO).is_some(),
        "other tracks are untouched"
    );
}

#[test]
fn stale_rows_are_treated_as_a_miss() {
    let db = Db::open("stale");
    db.save_lyrics("track-1", AUTO, &sample());
    db.connection
        .execute(
            "UPDATE lyrics SET fetched_at = ?1",
            [NOW - MAX_AGE_SECONDS - 1],
        )
        .unwrap();
    assert!(db.lyrics("track-1", AUTO).is_none());
    db.connection
        .execute("UPDATE lyrics SET fetched_at = ?1", [NOW - MAX_AGE_SECONDS])
        .unwrap();
    assert!(db.lyrics("track-1", AUTO).is_some());
}

#[test]
fn a_track_can_be_pinned_to_one_source_and_unpinned_again() {
    let db = Db::open("pinned");
    assert_eq!(db.preferred_source("track-1"), None);

    db.run(set_preferred_source("track-1", Some("netease")));
    assert_eq!(db.preferred_source("track-1").as_deref(), Some("netease"));

    db.run(set_preferred_source("track-1", Some("qqmusic")));
    assert_eq!(db.preferred_source("track-1").as_deref(), Some("qqmusic"));

    db.run(set_preferred_source("track-1", None));
    assert_eq!(db.preferred_source("track-1"), None);
}

/// A settings file may name a provider a later build dropped; the pin is
/// then meaningless and must not be handed to the lookup as an id.
#[test]
fn a_pin_on_an_unknown_provider_is_ignored() {
    let db = Db::open("unknown");
    db.run(set_preferred_source("track-1", Some("ghost")));
    assert_eq!(db.preferred_source("track-1"), None);
}

#[test]
fn clearing_the_cache_keeps_the_pinned_sources() {
    let db = Db::open("clearing");
    db.save_lyrics("track-1", AUTO, &sample());
    db.run(set_preferred_source("track-1", Some("netease")));

    db.run(clear_lyrics());
    assert_eq!(db.stored_track_count(), 0);
    assert_eq!(db.preferred_source("track-1").as_deref(), Some("netease"));
}

#[test]
fn kept_lyrics_outlive_what_does_not_touch_them() {
    let db = Db::open("outlive");
    db.save_lyrics("track-1", AUTO, &sample());
    db.save_lyrics("track-1", "netease", &sample());
    db.save_lyrics("track-2", AUTO, &sample());
    db.run(set_preferred_source("track-1", Some("netease")));
    db.run(set_preferred_source("track-2", Some("qqmusic")));
    db.run(set_preferred_source("track-1", None));
    db.run(forget("track-2"));
    let stored = db.lyrics("track-1", AUTO).unwrap();
    assert_eq!(stored.text, sample().text);
    assert_eq!(stored.cues, sample().cues);
    assert_eq!(db.preferred_source("track-1"), None);
    assert_eq!(db.preferred_source("track-2").as_deref(), Some("qqmusic"));
}

#[test]
fn missing_storage_is_said_in_words() {
    assert_eq!(
        warning("disk full"),
        "Downloaded lyrics cannot be saved between sessions: disk full"
    );
    assert_eq!(no_storage(Some("W")), "W");
    assert_eq!(no_storage(None), "Lyrics storage is unavailable");
}
