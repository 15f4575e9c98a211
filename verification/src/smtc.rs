//! YouTube Music by way of the Windows system media session (SMTC).
//!
//! YouTube Music has no "what is playing" API, so the app reads what Windows already knows:
//! whatever the browser or the desktop app publishes as a media session. That needs no sign-in
//! and no Client ID, and it reports title, artist, album, length, position and the transport
//! buttons the player is willing to accept.
//!
//! Two facts about browsers shape this module:
//!
//! * A browser writes the position once and never refreshes it while playing, so the position
//!   now is that anchor plus the time since Windows last touched it. Pausing, resuming, seeking
//!   and changing track all refresh the anchor.
//! * At a track change the album arrives about half a second after the title, so a lookup fired
//!   the instant the title changes searches without it.

use vstd::prelude::*;

use crate::codec::{base64_encode, base64_encoded};
use crate::player::{
    done, nothing_playing, Playback, PlaybackView, PlayerError, PlayerErrorView, PlayerKind,
};
use crate::text::{
    ascii_lower, at_any, chars_of, concat3, contains_text, has_text, list_contains, same, split,
    split_any, stands_at, starts_with, to_ascii_lower, trim, trim_text,
};

verus! {

/// WinRT counts in 100 ns units.
pub const TICKS_PER_MS: i64 = 10_000;

/// WinRT counts from 1601-01-01 UTC, Unix time from 1970.
pub const SECONDS_1601_TO_1970: i64 = 11_644_473_600;

/// Long enough for the album to land after a track change, short enough that the lyrics do not
/// visibly lag the song.
pub const SETTLE_MS: u64 = 600;

/// Artwork larger than this is not album art; refuse it rather than inline megabytes into an
/// event.
pub const MAX_ART_BYTES: u64 = 4_194_304;

// ------------------------------------------------------------------------- wrapping

/// How many numbers an `i64` tells apart.
pub open spec fn i64_range() -> int {
    0x1_0000_0000_0000_0000
}

/// A number as an `i64` keeps it: the count goes on at the other end of the range.
pub open spec fn wrapped(n: int) -> int {
    (n - i64::MIN) % i64_range() + i64::MIN
}

/// What fits is kept as it is.
pub proof fn what_fits_is_not_wrapped(n: int)
    requires
        i64::MIN <= n <= i64::MAX,
    ensures
        wrapped(n) == n,
{
    vstd::arithmetic::div_mod::lemma_small_mod((n - i64::MIN) as nat, i64_range() as nat);
}

proof fn whole_ranges_are_lost(n: int, times: int)
    ensures
        wrapped(n + times * i64_range()) == wrapped(n),
{
    vstd::arithmetic::div_mod::lemma_mod_multiples_vanish(times, n - i64::MIN, i64_range());
    assert(times * i64_range() == i64_range() * times) by (nonlinear_arith);
}

/// Wrapping a part of a sum or the factor of a product makes no difference to the whole.
proof fn wrapping_once_is_enough(n: int, added: int, factor: int)
    ensures
        wrapped(wrapped(n) + added) == wrapped(n + added),
        wrapped(wrapped(n) * factor) == wrapped(n * factor),
{
    let range = i64_range();
    let lost = (n - i64::MIN) / range;
    vstd::arithmetic::div_mod::lemma_fundamental_div_mod(n - i64::MIN, range);
    assert(wrapped(n) == n - range * lost);
    assert(n + added == wrapped(n) + added + lost * range) by (nonlinear_arith)
        requires
            wrapped(n) == n - range * lost,
    ;
    whole_ranges_are_lost(wrapped(n) + added, lost);
    assert(n * factor == wrapped(n) * factor + (lost * factor) * range) by (nonlinear_arith)
        requires
            wrapped(n) == n - range * lost,
    ;
    whole_ranges_are_lost(wrapped(n) * factor, lost * factor);
}

fn sum(a: i64, b: i64) -> (c: i64)
    ensures
        c == wrapped(a + b),
{
    let c = a.wrapping_add(b);
    proof {
        what_fits_is_not_wrapped(c as int);
        whole_ranges_are_lost(c as int, 1);
        whole_ranges_are_lost(c as int, -1);
    }
    c
}

fn difference(a: i64, b: i64) -> (c: i64)
    ensures
        c == wrapped(a - b),
{
    let c = a.wrapping_sub(b);
    proof {
        what_fits_is_not_wrapped(c as int);
        whole_ranges_are_lost(c as int, 1);
        whole_ranges_are_lost(c as int, -1);
    }
    c
}

fn product(a: i64, b: i64) -> (c: i64)
    ensures
        c == wrapped(a * b),
{
    let c = a.wrapping_mul(b);
    proof {
        let range = i64_range();
        let n = a as int * b as int;
        let lost = n / range;
        vstd::arithmetic::div_mod::lemma_fundamental_div_mod(n, range);
        what_fits_is_not_wrapped(c as int);
        assert(n - lost * range == n % range) by (nonlinear_arith)
            requires
                n == range * lost + n % range,
        ;
        whole_ranges_are_lost(n - lost * range, lost);
        whole_ranges_are_lost(c as int, 1);
    }
    c
}

fn to_i64(n: u64) -> (c: i64)
    ensures
        c == wrapped(n as int),
{
    if n <= 0x7fff_ffff_ffff_ffff {
        proof {
            what_fits_is_not_wrapped(n as int);
        }
        n as i64
    } else {
        let c = (n - 0x8000_0000_0000_0000) as i64 + i64::MIN;
        proof {
            what_fits_is_not_wrapped(c as int);
            whole_ranges_are_lost(c as int, 1);
        }
        c
    }
}

/// The current time in ticks, given the Unix time. An `i64` holds the ticks of every day until
/// the year 30828.
pub fn ticks_at(seconds: u64, nanos: u32) -> (ticks: i64)
    ensures
        ticks == wrapped((seconds + SECONDS_1601_TO_1970) * 10_000_000 + nanos / 100),
{
    proof {
        let shifted = seconds + SECONDS_1601_TO_1970;
        wrapping_once_is_enough(seconds as int, SECONDS_1601_TO_1970 as int, 1);
        wrapping_once_is_enough(shifted, 0, 10_000_000);
        wrapping_once_is_enough(shifted * 10_000_000, (nanos / 100) as int, 1);
    }
    let shifted = sum(to_i64(seconds), SECONDS_1601_TO_1970);
    sum(product(shifted, 10_000_000), (nanos / 100) as i64)
}

// --------------------------------------------------------------------------- artists

/// Separators that reliably mean "several artists": the comma, the ideographic comma and the
/// full-width comma. An ampersand is deliberately absent: it appears inside single names often
/// enough to split the wrong ones.
pub open spec fn artist_separators() -> Seq<char> {
    seq![',', '\u{3001}', '\u{ff0c}']
}

/// The whole, and behind it each of the parts that has letters and was not there yet.
pub open spec fn with_parts(whole: Seq<char>, parts: Seq<Seq<char>>) -> Seq<Seq<char>>
    decreases parts.len(),
{
    if parts.len() == 0 {
        seq![whole]
    } else {
        let before = with_parts(whole, parts.drop_last());
        let part = trim(parts.last());
        if part.len() == 0 || before.contains(part) {
            before
        } else {
            before.push(part)
        }
    }
}

/// The names that one artist string stands for.
pub open spec fn artist_names(value: Seq<char>) -> Seq<Seq<char>> {
    let whole = trim(value);
    if whole.len() == 0 {
        Seq::empty()
    } else {
        with_parts(whole, split(whole, at_any(artist_separators())))
    }
}

/// Split a single artist string into the names a lyrics source can match.
///
/// Both the whole string and its parts are wanted: one name has to overlap, and a source may
/// list "A, B" as one name or as two.
pub fn split_artists(value: &str) -> (names: Vec<String>)
    ensures
        names.deep_view() == artist_names(value@),
{
    let whole = trim_text(value);
    if whole.as_str().is_empty() {
        let names: Vec<String> = Vec::new();
        assert(names.deep_view() =~= Seq::empty());
        return names;
    }
    let separators = [',', '\u{3001}', '\u{ff0c}'];
    assert(separators@ =~= artist_separators());
    let chars = chars_of(whole.as_str());
    let parts = split_any(&chars, &separators);
    let ghost views = parts.deep_view();
    let mut names: Vec<String> = Vec::new();
    let ghost first = whole@;
    names.push(whole);
    assert(names.deep_view() =~= with_parts(first, views.take(0)));
    let mut i: usize = 0;
    while i < parts.len()
        invariant
            i <= parts@.len(),
            views == parts.deep_view(),
            names.deep_view() == with_parts(first, views.take(i as int)),
        decreases parts@.len() - i,
    {
        let ghost before = names.deep_view();
        assert(views.take(i + 1).drop_last() =~= views.take(i as int));
        assert(views.take(i + 1).last() == parts@[i as int]@);
        let part = trim_text(parts[i].as_str());
        if !part.as_str().is_empty() && !list_contains(&names, part.as_str()) {
            let ghost added = part@;
            names.push(part);
            assert(names.deep_view() =~= before.push(added));
        }
        i += 1;
    }
    assert(views.take(i as int) =~= views);
    names
}

proof fn with_parts_holds(whole: Seq<char>, parts: Seq<Seq<char>>)
    requires
        whole.len() > 0,
    ensures
        with_parts(whole, parts).len() > 0,
        with_parts(whole, parts)[0] == whole,
        with_parts(whole, parts).no_duplicates(),
        forall|i: int|
            0 <= i < with_parts(whole, parts).len() ==> (#[trigger] with_parts(
                whole,
                parts,
            )[i]).len() > 0,
        forall|j: int|
            0 <= j < parts.len() && trim(#[trigger] parts[j]).len() > 0 ==> with_parts(
                whole,
                parts,
            ).contains(trim(parts[j])),
    decreases parts.len(),
{
    if parts.len() > 0 {
        let front = parts.drop_last();
        let before = with_parts(whole, front);
        let list = with_parts(whole, parts);
        with_parts_holds(whole, front);
        assert forall|j: int| 0 <= j < parts.len() && trim(#[trigger] parts[j]).len() > 0 implies list.contains(
        trim(parts[j])) by {
            if j < front.len() {
                assert(front[j] == parts[j]);
                let k = choose|k: int| 0 <= k < before.len() && before[k] == trim(parts[j]);
                assert(list[k] == before[k]);
            } else if !before.contains(trim(parts[j])) {
                assert(list[before.len() as int] == trim(parts[j]));
            }
        }
    }
}

/// Several artists are offered whole and in parts: the whole string comes first, every part
/// with letters follows, nothing is empty and nothing is offered twice.
pub proof fn artists_are_offered_whole_and_in_parts(value: Seq<char>)
    ensures
        artist_names(value).len() == 0 <==> trim(value).len() == 0,
        trim(value).len() > 0 ==> artist_names(value)[0] == trim(value),
        artist_names(value).no_duplicates(),
        forall|i: int|
            0 <= i < artist_names(value).len() ==> (#[trigger] artist_names(value)[i]).len() > 0,
        forall|j: int|
            0 <= j < split(trim(value), at_any(artist_separators())).len() && trim(
                #[trigger] split(trim(value), at_any(artist_separators()))[j],
            ).len() > 0 && trim(value).len() > 0 ==> artist_names(value).contains(
                trim(split(trim(value), at_any(artist_separators()))[j]),
            ),
{
    let whole = trim(value);
    if whole.len() > 0 {
        with_parts_holds(whole, split(whole, at_any(artist_separators())));
    }
}

// -------------------------------------------------------------------------- position

/// A value kept between two bounds.
pub open spec fn kept_between(value: int, low: int, high: int) -> int {
    if value < low {
        low
    } else if value > high {
        high
    } else {
        value
    }
}

/// Where the position is now. Only a playing track moves on its own.
pub open spec fn position(
    anchor_ms: int,
    anchor_age_ms: int,
    start_ms: int,
    duration_ms: int,
    playing: bool,
) -> int {
    let elapsed = if playing && anchor_age_ms > 0 {
        anchor_age_ms
    } else {
        0
    };
    let moved = anchor_ms - start_ms + elapsed;
    if duration_ms > 0 {
        kept_between(moved, 0, duration_ms)
    } else if moved < 0 {
        0
    } else {
        moved
    }
}

/// Where the position is now, given an anchor Windows may not have refreshed.
///
/// Only a playing track moves on its own; a paused one sits exactly where the anchor says,
/// because pausing refreshes it.
pub fn position_now(
    anchor_ms: i64,
    anchor_age_ms: i64,
    start_ms: i64,
    duration_ms: i64,
    playing: bool,
) -> (now: i64)
    requires
        i64::MIN <= anchor_ms - start_ms <= i64::MAX,
        playing && anchor_age_ms > 0 ==> anchor_ms - start_ms + anchor_age_ms <= i64::MAX,
    ensures
        now == position(
            anchor_ms as int,
            anchor_age_ms as int,
            start_ms as int,
            duration_ms as int,
            playing,
        ),
{
    let elapsed: i64 = if playing && anchor_age_ms > 0 {
        anchor_age_ms
    } else {
        0
    };
    let moved: i64 = anchor_ms - start_ms + elapsed;
    if moved < 0 {
        0
    } else if duration_ms > 0 && moved > duration_ms {
        duration_ms
    } else {
        moved
    }
}

/// The position never runs before the start of the song, nor past its end where that is known.
pub proof fn the_position_stays_inside_the_song(
    anchor_ms: int,
    anchor_age_ms: int,
    start_ms: int,
    duration_ms: int,
    playing: bool,
)
    ensures
        0 <= position(anchor_ms, anchor_age_ms, start_ms, duration_ms, playing),
        duration_ms > 0 ==> position(anchor_ms, anchor_age_ms, start_ms, duration_ms, playing)
            <= duration_ms,
{
}

/// A paused track sits where the anchor says, however old the anchor is.
pub proof fn a_paused_track_does_not_move(
    anchor_ms: int,
    age: int,
    later: int,
    start_ms: int,
    duration_ms: int,
)
    ensures
        position(anchor_ms, age, start_ms, duration_ms, false) == position(
            anchor_ms,
            later,
            start_ms,
            duration_ms,
            false,
        ),
{
}

/// A playing track never moves back while its anchor ages.
pub proof fn a_playing_track_only_moves_on(
    anchor_ms: int,
    age: int,
    later: int,
    start_ms: int,
    duration_ms: int,
)
    requires
        age <= later,
    ensures
        position(anchor_ms, age, start_ms, duration_ms, true) <= position(
            anchor_ms,
            later,
            start_ms,
            duration_ms,
            true,
        ),
{
}

// -------------------------------------------------------------------------- sessions

/// The text in ASCII lower case.
pub open spec fn lowered(text: Seq<char>) -> Seq<char> {
    Seq::new(text.len(), |i: int| ascii_lower(text[i]))
}

/// Whether an application id is Spotify's.
pub open spec fn spotify_id(id: Seq<char>) -> bool {
    contains_text(lowered(id), "spotify"@)
}

/// A Spotify session in the list is not what a reader who picked YouTube Music is watching, so
/// it is skipped.
pub fn is_spotify(id: &str) -> (r: bool)
    ensures
        r == spotify_id(id@),
{
    let chars = chars_of(id);
    let mut lower: Vec<char> = Vec::new();
    let mut i: usize = 0;
    while i < chars.len()
        invariant
            i <= chars@.len(),
            chars@ == id@,
            lower@.len() == i,
            forall|j: int| 0 <= j < i ==> #[trigger] lower@[j] == ascii_lower(id@[j]),
        decreases chars@.len() - i,
    {
        lower.push(to_ascii_lower(chars[i]));
        i += 1;
    }
    assert(lower@ =~= lowered(id@));
    let part = chars_of("spotify");
    has_text(&lower, &part)
}

/// The first session in the list that is not Spotify's, from one of them on.
pub open spec fn first_other(ids: Seq<Seq<char>>, from: int) -> Option<int>
    decreases ids.len() - from,
{
    if from < 0 || from >= ids.len() {
        None
    } else if !spotify_id(ids[from]) {
        Some(from)
    } else {
        first_other(ids, from + 1)
    }
}

/// Which session to follow.
#[derive(Debug, Clone, Copy, PartialEq, Eq, Structural)]
pub enum Pick {
    /// The one Windows calls current.
    Current,
    /// The one at this place in the list.
    Listed(usize),
    Nothing,
}

/// The session to follow: the one Windows calls current, unless that is Spotify.
///
/// A browser publishes every tab under a single application id, so media playing in another tab
/// can be picked up here.
pub fn pick_session(current: Option<&str>, listed: &[String]) -> (pick: Pick)
    ensures
        pick == match current {
            Some(id) if !spotify_id(id@) => Pick::Current,
            _ => match first_other(listed.deep_view(), 0) {
                Some(at) => Pick::Listed(at as usize),
                None => Pick::Nothing,
            },
        },
        pick matches Pick::Listed(at) ==> at < listed@.len(),
{
    if let Some(id) = current {
        if !is_spotify(id) {
            return Pick::Current;
        }
    }
    let mut i: usize = 0;
    while i < listed.len()
        invariant
            i <= listed@.len(),
            current matches Some(id) ==> spotify_id(id@),
            first_other(listed.deep_view(), 0) == first_other(listed.deep_view(), i as int),
        decreases listed@.len() - i,
    {
        assert(listed.deep_view()[i as int] == listed@[i as int]@);
        if !is_spotify(listed[i].as_str()) {
            return Pick::Listed(i);
        }
        i += 1;
    }
    Pick::Nothing
}

// --------------------------------------------------------------------------- artwork

/// Whether a picture of this many bytes is read at all.
pub fn is_art_size(size: u64) -> (r: bool)
    ensures
        r == (0 < size <= MAX_ART_BYTES),
{
    size != 0 && size <= MAX_ART_BYTES
}

/// The type under which a picture is shown.
pub open spec fn art_type(content_type: Option<Seq<char>>) -> Seq<char> {
    match content_type {
        Some(value) if stands_at(value, "image/"@, 0) => value,
        _ => "image/jpeg"@,
    }
}

/// A picture in base64, written out as an address.
pub open spec fn art_address(content_type: Option<Seq<char>>, encoded: Seq<char>) -> Seq<char> {
    "data:"@ + art_type(content_type) + ";base64,"@ + encoded
}

/// A picture in base64, written out as an address.
pub fn data_uri(content_type: Option<&str>, encoded: &str) -> (address: String)
    ensures
        address@ == art_address(
            match content_type {
                Some(value) => Some(value@),
                None => None,
            },
            encoded@,
        ),
{
    let mime = match content_type {
        Some(value) => if starts_with(value, "image/") {
            value
        } else {
            "image/jpeg"
        },
        None => "image/jpeg",
    };
    let mut address = concat3("data:", mime, ";base64,");
    address.append(encoded);
    address
}

/// A picture, written out as an address, so that the interface can show it.
pub fn art_uri(content_type: Option<&str>, bytes: &[u8]) -> (address: String)
    requires
        bytes@.len() <= MAX_ART_BYTES,
    ensures
        address@ == art_address(
            match content_type {
                Some(value) => Some(value@),
                None => None,
            },
            base64_encoded(bytes@),
        ),
{
    let encoded = base64_encode(bytes);
    data_uri(content_type, encoded.as_str())
}

// --------------------------------------------------------------------------- samples

/// What a session says of itself.
#[derive(Debug, Clone, Copy, PartialEq, Eq, Structural)]
pub enum Status {
    Closed,
    Opened,
    Changing,
    Stopped,
    Playing,
    Paused,
}

/// What one look at the session yields, before it becomes a [`Playback`]. Times are in ticks.
#[derive(Debug)]
pub struct Sample {
    pub title: String,
    pub artist: String,
    pub album: String,
    pub art: Option<String>,
    pub status: Status,
    pub anchor_ticks: i64,
    pub anchor_age_ticks: i64,
    pub start_ticks: i64,
    pub end_ticks: i64,
    pub can_next: bool,
    pub can_previous: bool,
    pub can_seek: bool,
    pub app: String,
}

/// What a [`Sample`] says.
pub ghost struct SampleView {
    pub title: Seq<char>,
    pub artist: Seq<char>,
    pub album: Seq<char>,
    pub art: Option<Seq<char>>,
    pub status: Status,
    pub anchor_ticks: i64,
    pub anchor_age_ticks: i64,
    pub start_ticks: i64,
    pub end_ticks: i64,
    pub can_next: bool,
    pub can_previous: bool,
    pub can_seek: bool,
    pub app: Seq<char>,
}

impl View for Sample {
    type V = SampleView;

    open spec fn view(&self) -> SampleView {
        SampleView {
            title: self.title@,
            artist: self.artist@,
            album: self.album@,
            art: self.art.deep_view(),
            status: self.status,
            anchor_ticks: self.anchor_ticks,
            anchor_age_ticks: self.anchor_age_ticks,
            start_ticks: self.start_ticks,
            end_ticks: self.end_ticks,
            can_next: self.can_next,
            can_previous: self.can_previous,
            can_seek: self.can_seek,
            app: self.app@,
        }
    }
}

/// How long ago the anchor was set.
pub fn age_ticks(now: i64, updated: i64) -> (age: i64)
    ensures
        age == wrapped(now - updated),
{
    difference(now, updated)
}

/// Ticks in whole milliseconds, the rest cut off.
pub open spec fn ms_of(ticks: i64) -> int {
    if ticks >= 0 {
        ticks as int / TICKS_PER_MS as int
    } else {
        -(-(ticks as int) / TICKS_PER_MS as int)
    }
}

/// Ticks in whole milliseconds, the rest cut off.
pub fn ticks_to_ms(ticks: i64) -> (ms: i64)
    ensures
        ms == ms_of(ticks),
        -922_337_203_685_478 < ms < 922_337_203_685_478,
{
    if ticks >= 0 {
        ticks / TICKS_PER_MS
    } else if ticks == i64::MIN {
        -922_337_203_685_477
    } else {
        -((-ticks) / TICKS_PER_MS)
    }
}

/// Whether a sample shows a song.
pub open spec fn shows_track(sample: SampleView) -> bool {
    sample.title.len() > 0 && sample.status != Status::Closed && sample.status != Status::Stopped
}

/// The length of the song in a sample.
pub open spec fn sample_length(sample: SampleView) -> int {
    let length = ms_of(sample.end_ticks) - ms_of(sample.start_ticks);
    if length < 0 {
        0
    } else {
        length
    }
}

/// What a sample says is playing.
pub open spec fn sample_playback(sample: SampleView) -> PlaybackView {
    if !shows_track(sample) {
        nothing_playing(PlayerKind::Ytmusic)
    } else {
        PlaybackView {
            track_id: Seq::empty(),
            name: sample.title,
            artists: artist_names(sample.artist),
            album: sample.album,
            album_art: sample.art,
            duration_ms: sample_length(sample) as i64,
            progress_ms: Some(
                position(
                    ms_of(sample.anchor_ticks),
                    ms_of(sample.anchor_age_ticks),
                    ms_of(sample.start_ticks),
                    sample_length(sample),
                    sample.status == Status::Playing,
                ) as i64,
            ),
            is_playing: sample.status == Status::Playing,
            has_track: true,
            can_skip_next: sample.can_next,
            can_skip_previous: sample.can_previous,
            can_seek: sample.can_seek,
            device_name: if sample.app.len() > 0 {
                Some(sample.app)
            } else {
                None
            },
            source: PlayerKind::Ytmusic,
        }
    }
}

/// What a sample says is playing. The system media session has no stable track id, so the
/// database key falls back to title and length.
pub fn playback_of(sample: Sample) -> (playback: Playback)
    ensures
        playback@ == sample_playback(sample@),
{
    let shown = !sample.title.as_str().is_empty() && match sample.status {
        Status::Closed | Status::Stopped => false,
        _ => true,
    };
    if !shown {
        return Playback::nothing(PlayerKind::Ytmusic);
    }
    let playing = match sample.status {
        Status::Playing => true,
        _ => false,
    };
    let start_ms = ticks_to_ms(sample.start_ticks);
    let end_ms = ticks_to_ms(sample.end_ticks);
    let duration_ms: i64 = if end_ms < start_ms {
        0
    } else {
        end_ms - start_ms
    };
    let progress = position_now(
        ticks_to_ms(sample.anchor_ticks),
        ticks_to_ms(sample.anchor_age_ticks),
        start_ms,
        duration_ms,
        playing,
    );
    let device_name = if sample.app.as_str().is_empty() {
        None
    } else {
        Some(sample.app)
    };
    Playback {
        track_id: String::new(),
        name: sample.title,
        artists: split_artists(sample.artist.as_str()),
        album: sample.album,
        album_art: sample.art,
        duration_ms,
        progress_ms: Some(progress),
        is_playing: playing,
        has_track: true,
        can_skip_next: sample.can_next,
        can_skip_previous: sample.can_previous,
        can_seek: sample.can_seek,
        device_name,
        source: PlayerKind::Ytmusic,
    }
}

/// Remembers the song last reported, so a track change can be waited out once.
#[derive(Debug)]
pub struct Watch {
    pub title: String,
}

/// What to do after a look at the session.
#[derive(Debug)]
pub enum Look {
    /// This is what is playing.
    Playback(Playback),
    /// The song is new: wait until its album has landed, look again and settle on one of the
    /// two.
    Again(Sample),
}

/// Whether a sample shows a song other than the one last reported.
pub open spec fn is_new_song(title: Seq<char>, sample: SampleView) -> bool {
    sample.title.len() > 0 && sample.title != title
}

impl Watch {
    pub fn new() -> (watch: Self)
        ensures
            watch.title@.len() == 0,
    {
        Watch { title: String::new() }
    }

    /// Take a look at the session, `None` where there is none or it does not answer.
    pub fn look(&mut self, sample: Option<Sample>) -> (look: Look)
        ensures
            match sample {
                None => {
                    &&& final(self).title@.len() == 0
                    &&& look matches Look::Playback(playback) && playback@ == nothing_playing(
                        PlayerKind::Ytmusic,
                    )
                },
                Some(sample) => if is_new_song(old(self).title@, sample@) {
                    &&& final(self).title@ == old(self).title@
                    &&& look == Look::Again(sample)
                } else {
                    &&& final(self).title@ == sample@.title
                    &&& look matches Look::Playback(playback) && playback@ == sample_playback(
                        sample@,
                    )
                },
            },
    {
        match sample {
            None => {
                self.title = String::new();
                Look::Playback(Playback::nothing(PlayerKind::Ytmusic))
            },
            Some(sample) => {
                if !sample.title.as_str().is_empty() && !same(
                    sample.title.as_str(),
                    self.title.as_str(),
                ) {
                    Look::Again(sample)
                } else {
                    self.title = sample.title.clone();
                    Look::Playback(playback_of(sample))
                }
            },
        }
    }

    /// Settle on one of two looks at a new song: the second, if it is still the same song, in
    /// case the reader skipped again in between.
    pub fn settle(&mut self, first: Sample, second: Option<Sample>) -> (playback: Playback)
        ensures
            final(self).title@ == first@.title,
            playback@ == match second {
                Some(second) if second@.title == first@.title => sample_playback(second@),
                _ => sample_playback(first@),
            },
    {
        self.title = first.title.clone();
        match second {
            Some(settled) => if same(settled.title.as_str(), first.title.as_str()) {
                playback_of(settled)
            } else {
                playback_of(first)
            },
            None => playback_of(first),
        }
    }
}

/// A song is waited out once: after it was settled on, the next look that shows it is reported
/// at once.
pub proof fn a_song_is_waited_out_once(first: SampleView, next: SampleView)
    requires
        next.title == first.title,
    ensures
        !is_new_song(first.title, next),
{
}

// -------------------------------------------------------------------------- controls

/// The position to ask a session for. It is absolute on the session's timeline, which does not
/// have to begin at zero.
pub fn seek_ticks(position_ms: i64, start_ticks: i64) -> (ticks: i64)
    ensures
        ticks == wrapped((position_ms + ms_of(start_ticks)) * TICKS_PER_MS),
{
    let start_ms = ticks_to_ms(start_ticks);
    proof {
        wrapping_once_is_enough(position_ms + start_ms, 0, TICKS_PER_MS as int);
    }
    product(sum(position_ms, start_ms), TICKS_PER_MS)
}

/// How a session took a control.
#[derive(Debug, Clone, Copy, PartialEq, Eq, Structural)]
pub enum Answer {
    /// There is no session to ask.
    NoSession,
    Accepted,
    Declined,
    /// The session did not answer.
    Silent,
}

/// What comes of a control.
pub open spec fn control_outcome(answer: Answer) -> Result<(), PlayerErrorView> {
    match answer {
        Answer::Accepted => Ok(()),
        Answer::NoSession => Err(PlayerErrorView::Refused { message: "Nothing is playing."@ }),
        Answer::Declined => Err(
            PlayerErrorView::Refused { message: "The player did not accept that."@ },
        ),
        Answer::Silent => Err(
            PlayerErrorView::Network("The system media session is not answering."@),
        ),
    }
}

/// What comes of a control.
pub fn control_result(answer: Answer) -> (result: Result<(), PlayerError>)
    ensures
        done(result) == control_outcome(answer),
{
    match answer {
        Answer::Accepted => Ok(()),
        Answer::NoSession => Err(
            PlayerError::Refused { message: "Nothing is playing.".to_owned() },
        ),
        // The player answered and said no: usually the action is not one it offers, which the
        // transport buttons already reflect.
        Answer::Declined => Err(
            PlayerError::Refused { message: "The player did not accept that.".to_owned() },
        ),
        Answer::Silent => Err(
            PlayerError::Network("The system media session is not answering.".to_owned()),
        ),
    }
}

} // verus!
