//! What is made of a system media session.

use vstd::prelude::*;

use crate::player::{PlayerErrorView, PlayerKind};
use crate::smtc::{
    art_address, artist_names, artist_separators, control_outcome, first_other, is_new_song,
    lowered, ms_of, position, sample_length, sample_playback, spotify_id, what_fits_is_not_wrapped,
    with_parts, wrapped, Answer, MAX_ART_BYTES, SECONDS_1601_TO_1970, SETTLE_MS, SampleView,
    Status, TICKS_PER_MS,
};
use crate::text::{
    a_cut_parts_the_pieces, a_text_without_cuts_is_one_piece, ascii_lower, at_any, split,
    stands_at, trim,
};

verus! {

// ------------------------------------------------------------------------------------ times

/// A millisecond is ten thousand ticks, and what is less than one is cut off, before zero as
/// behind it.
pub proof fn ticks_are_cut_to_milliseconds(ms: int, rest: int, ticks: i64)
    requires
        0 <= ms,
        0 <= rest < 10_000,
    ensures
        ticks == 10_000 * ms + rest ==> ms_of(ticks) == ms,
        ticks == -(10_000 * ms + rest) ==> ms_of(ticks) == -ms,
{
    vstd::arithmetic::div_mod::lemma_fundamental_div_mod_converse(
        10_000 * ms + rest,
        10_000,
        ms,
        rest,
    );
}

/// Windows counts from a day that lies 369 years before the first of Unix time, 89 of which were
/// leap years.
pub proof fn the_counts_begin_369_years_apart()
    ensures
        SECONDS_1601_TO_1970 == (369 * 365 + 89) * 24 * 60 * 60,
{
}

/// A picture is shown up to four mebibytes, and a new song is waited for six tenths of a second.
pub proof fn pictures_and_waits_are_bounded()
    ensures
        MAX_ART_BYTES == 4 * 1024 * 1024,
        SETTLE_MS == 600,
{
}

/// The position in a song is what the anchor says of it, and while it plays what passed since is
/// added: exactly so inside the song, and held at its start and its end.
pub proof fn the_position_is_the_anchor_and_what_passed(
    anchor: int,
    age: int,
    start: int,
    duration: int,
)
    ensures
        0 <= anchor - start && (duration <= 0 || anchor - start <= duration) ==> position(
            anchor,
            age,
            start,
            duration,
            false,
        ) == anchor - start,
        0 <= age && 0 <= anchor - start + age && (duration <= 0 || anchor - start + age
            <= duration) ==> position(anchor, age, start, duration, true) == anchor - start + age,
        age < 0 ==> position(anchor, age, start, duration, true) == position(
            anchor,
            age,
            start,
            duration,
            false,
        ),
        anchor < start ==> position(anchor, age, start, duration, false) == 0,
        duration > 0 && 0 <= age && anchor - start + age >= duration ==> position(
            anchor,
            age,
            start,
            duration,
            true,
        ) == duration,
{
}

/// Seeking asks for the position that is then read: the ticks that stand for a position in the
/// song are, in milliseconds, that position behind the start.
pub proof fn a_position_is_asked_for_where_it_is_read(position_ms: int, start_ms: int, ticks: i64)
    requires
        0 <= position_ms,
        0 <= start_ms,
        (position_ms + start_ms) * 10_000 <= i64::MAX,
        ticks == wrapped((position_ms + start_ms) * TICKS_PER_MS),
    ensures
        ms_of(ticks) == position_ms + start_ms,
        position(ms_of(ticks), 0, start_ms, 0, false) == position_ms,
{
    what_fits_is_not_wrapped((position_ms + start_ms) * 10_000);
    assert((position_ms + start_ms) * TICKS_PER_MS == (position_ms + start_ms) * 10_000);
    ticks_are_cut_to_milliseconds(position_ms + start_ms, 0, ticks);
}

// ---------------------------------------------------------------------------------- samples

/// A sample shows the song of a session with a title that is neither closed nor stopped, and what
/// it shows is what the session says.
pub proof fn a_session_shows_its_song(sample: SampleView)
    ensures
        ({
            let playback = sample_playback(sample);
            let shown = sample.title.len() > 0 && sample.status != Status::Closed && sample.status
                != Status::Stopped;
            &&& playback.source == PlayerKind::Ytmusic
            &&& playback.track_id.len() == 0
            &&& playback.has_track <==> shown
            &&& playback.is_playing <==> shown && sample.status == Status::Playing
            &&& shown ==> playback.name == sample.title && playback.album == sample.album
                && playback.album_art == sample.art && playback.can_skip_next == sample.can_next
                && playback.can_skip_previous == sample.can_previous && playback.can_seek
                == sample.can_seek
            &&& shown && sample.app.len() > 0 ==> playback.device_name == Some(sample.app)
            &&& shown && sample.app.len() == 0 ==> playback.device_name is None
            &&& !shown ==> playback.name.len() == 0 && playback.artists.len() == 0
                && playback.album.len() == 0 && playback.album_art is None && playback.duration_ms
                == 0 && playback.progress_ms is None && !playback.can_skip_next
                && !playback.can_skip_previous && !playback.can_seek && playback.device_name is None
        }),
{
}

/// The length of a song is what lies between the start and the end of its timeline, and its
/// position is counted from the start.
pub proof fn a_session_is_timed_from_its_start(
    sample: SampleView,
    start: int,
    end: int,
    anchor: int,
    age: int,
)
    requires
        sample.title.len() > 0,
        sample.status == Status::Playing || sample.status == Status::Paused,
        0 <= start <= anchor,
        0 <= age,
        anchor + age <= end,
        sample.start_ticks == 10_000 * start,
        sample.end_ticks == 10_000 * end,
        sample.anchor_ticks == 10_000 * anchor,
        sample.anchor_age_ticks == 10_000 * age,
    ensures
        sample_playback(sample).duration_ms == end - start,
        sample.status == Status::Paused ==> sample_playback(sample).progress_ms is Some
            && sample_playback(sample).progress_ms->0 == anchor - start,
        sample.status == Status::Playing ==> sample_playback(sample).progress_ms is Some
            && sample_playback(sample).progress_ms->0 == anchor - start + age,
{
    ticks_are_cut_to_milliseconds(start, 0, sample.start_ticks);
    ticks_are_cut_to_milliseconds(end, 0, sample.end_ticks);
    ticks_are_cut_to_milliseconds(anchor, 0, sample.anchor_ticks);
    ticks_are_cut_to_milliseconds(age, 0, sample.anchor_age_ticks);
}

/// A timeline that ends before it starts has no length.
pub proof fn a_song_is_never_shorter_than_nothing(sample: SampleView)
    ensures
        sample_length(sample) >= 0,
        ms_of(sample.end_ticks) <= ms_of(sample.start_ticks) ==> sample_length(sample) == 0,
        ms_of(sample.end_ticks) >= ms_of(sample.start_ticks) ==> sample_length(sample) == ms_of(
            sample.end_ticks,
        ) - ms_of(sample.start_ticks),
{
}

// ---------------------------------------------------------------------------------- artists

proof fn names_are_the_whole_or_a_part(whole: Seq<char>, parts: Seq<Seq<char>>, i: int)
    requires
        0 <= i < with_parts(whole, parts).len(),
    ensures
        with_parts(whole, parts)[i] == whole || exists|j: int|
            0 <= j < parts.len() && trim(#[trigger] parts[j]) == with_parts(whole, parts)[i],
    decreases parts.len(),
{
    if parts.len() > 0 {
        let front = parts.drop_last();
        let before = with_parts(whole, front);
        let name = with_parts(whole, parts)[i];
        if i < before.len() {
            names_are_the_whole_or_a_part(whole, front, i);
            if before[i] != whole {
                let j = choose|j: int|
                    0 <= j < front.len() && trim(#[trigger] front[j]) == before[i];
                assert(trim(parts[j]) == name);
            }
        } else {
            assert(trim(parts[parts.len() - 1]) == name);
        }
    }
}

/// A single artist is offered alone.
pub proof fn a_single_artist_is_one_name(value: Seq<char>)
    requires
        trim(value).len() > 0,
        forall|i: int|
            0 <= i < trim(value).len() ==> (#[trigger] trim(value)[i]) != ',' && trim(value)[i]
                != '\u{3001}' && trim(value)[i] != '\u{ff0c}',
    ensures
        artist_names(value) == seq![trim(value)],
{
    let whole = trim(value);
    let cut = at_any(artist_separators());
    assert forall|i: int| 0 <= i < whole.len() implies !cut(#[trigger] whole[i]) by {
        let c = whole[i];
        assert(artist_separators().len() == 3);
        assert(artist_separators()[0] == ',' && artist_separators()[1] == '\u{3001}'
            && artist_separators()[2] == '\u{ff0c}');
        if artist_separators().contains(c) {
            let k = choose|k: int|
                0 <= k < artist_separators().len() && artist_separators()[k] == c;
            assert(k == 0 || k == 1 || k == 2);
        }
    }
    a_text_without_cuts_is_one_piece(whole, cut);
    let parts = split(whole, cut);
    assert(parts.drop_last() =~= Seq::empty());
    crate::text::trim_is_idempotent(value);
    assert(with_parts(whole, parts.drop_last())[0] == whole);
    assert(with_parts(whole, parts) =~= seq![whole]);
}

/// Two artists with a comma of any kind between them are offered together, then one by one.
pub proof fn two_artists_are_offered_one_by_one(
    value: Seq<char>,
    first: Seq<char>,
    comma: char,
    second: Seq<char>,
)
    requires
        trim(value) == first.push(comma) + second,
        comma == ',' || comma == '\u{3001}' || comma == '\u{ff0c}',
        forall|i: int|
            0 <= i < first.len() ==> (#[trigger] first[i]) != ',' && first[i] != '\u{3001}'
                && first[i] != '\u{ff0c}',
        forall|i: int|
            0 <= i < second.len() ==> (#[trigger] second[i]) != ',' && second[i] != '\u{3001}'
                && second[i] != '\u{ff0c}',
        trim(first).len() > 0,
        trim(second).len() > 0,
        trim(first) != trim(value),
        trim(second) != trim(value),
        trim(first) != trim(second),
    ensures
        artist_names(value) == seq![trim(value), trim(first), trim(second)],
{
    let whole = trim(value);
    let cut = at_any(artist_separators());
    assert(artist_separators().len() == 3);
    assert(artist_separators()[0] == ',' && artist_separators()[1] == '\u{3001}'
        && artist_separators()[2] == '\u{ff0c}');
    assert(artist_separators().contains(comma));
    assert forall|i: int| 0 <= i < first.len() implies !cut(#[trigger] first[i]) by {
        if artist_separators().contains(first[i]) {
            let k = choose|k: int|
                0 <= k < artist_separators().len() && artist_separators()[k] == first[i];
            assert(k == 0 || k == 1 || k == 2);
        }
    }
    assert forall|i: int| 0 <= i < second.len() implies !cut(#[trigger] second[i]) by {
        if artist_separators().contains(second[i]) {
            let k = choose|k: int|
                0 <= k < artist_separators().len() && artist_separators()[k] == second[i];
            assert(k == 0 || k == 1 || k == 2);
        }
    }
    a_cut_parts_the_pieces(first, comma, second, cut);
    a_text_without_cuts_is_one_piece(first, cut);
    a_text_without_cuts_is_one_piece(second, cut);
    let parts = split(whole, cut);
    assert(parts =~= seq![first, second]);
    let one = seq![first];
    assert(parts.drop_last() =~= one);
    assert(one.drop_last() =~= Seq::empty());
    assert(with_parts(whole, Seq::empty()) =~= seq![whole]);
    assert(!seq![whole].contains(trim(first)));
    assert(with_parts(whole, one) =~= seq![whole, trim(first)]);
    assert(!seq![whole, trim(first)].contains(trim(second)));
    assert(with_parts(whole, parts) =~= seq![whole, trim(first), trim(second)]);
}

/// Nothing is offered but the whole and its parts.
pub proof fn nothing_else_is_offered(value: Seq<char>, i: int)
    requires
        0 <= i < artist_names(value).len(),
    ensures
        artist_names(value)[i] == trim(value) || exists|j: int|
            0 <= j < split(trim(value), at_any(artist_separators())).len() && trim(
                #[trigger] split(trim(value), at_any(artist_separators()))[j],
            ) == artist_names(value)[i],
{
    names_are_the_whole_or_a_part(
        trim(value),
        split(trim(value), at_any(artist_separators())),
        i,
    );
}

// --------------------------------------------------------------------------------- sessions

/// Whether a text says `spotify` at a place, each letter in either case.
pub open spec fn says_spotify_at(id: Seq<char>, at: int) -> bool {
    &&& 0 <= at
    &&& at + 7 <= id.len()
    &&& id[at] == 's' || id[at] == 'S'
    &&& id[at + 1] == 'p' || id[at + 1] == 'P'
    &&& id[at + 2] == 'o' || id[at + 2] == 'O'
    &&& id[at + 3] == 't' || id[at + 3] == 'T'
    &&& id[at + 4] == 'i' || id[at + 4] == 'I'
    &&& id[at + 5] == 'f' || id[at + 5] == 'F'
    &&& id[at + 6] == 'y' || id[at + 6] == 'Y'
}

/// A session is Spotify's exactly where its application id says so, in whatever case.
pub proof fn a_session_of_spotify_says_so(id: Seq<char>)
    ensures
        spotify_id(id) <==> exists|at: int| says_spotify_at(id, at),
{
    reveal_strlit("spotify");
    let part = "spotify"@;
    assert(part.len() == 7);
    if spotify_id(id) {
        let at = choose|at: int| stands_at(lowered(id), part, at);
        let cut = lowered(id).subrange(at, at + 7);
        assert(forall|k: int| 0 <= k < 7 ==> #[trigger] cut[k] == ascii_lower(id[at + k]));
        assert(cut[0] == 's' && cut[1] == 'p' && cut[2] == 'o' && cut[3] == 't' && cut[4] == 'i'
            && cut[5] == 'f' && cut[6] == 'y');
        assert(says_spotify_at(id, at));
    }
    if exists|at: int| says_spotify_at(id, at) {
        let at = choose|at: int| says_spotify_at(id, at);
        assert(lowered(id).subrange(at, at + 7) =~= part);
        assert(stands_at(lowered(id), part, at));
    }
}

/// Of the listed sessions the first that is not Spotify's is followed.
pub proof fn the_first_other_session_is_followed(ids: Seq<Seq<char>>, at: int, from: int)
    requires
        0 <= from <= at <= ids.len(),
        forall|i: int| from <= i < at ==> spotify_id(#[trigger] ids[i]),
    ensures
        at < ids.len() && !spotify_id(ids[at]) ==> first_other(ids, from) == Some(at),
        at == ids.len() ==> first_other(ids, from) is None,
    decreases at - from,
{
    if from < at {
        assert(spotify_id(ids[from]));
        the_first_other_session_is_followed(ids, at, from + 1);
    }
}

/// A picture is written out under its own type where that is one of a picture, and as JPEG where
/// it is not.
pub proof fn a_picture_is_written_out(kind: Seq<char>, other: Seq<char>, encoded: Seq<char>)
    ensures
        art_address(Some("image/"@ + kind), encoded) == "data:"@ + ("image/"@ + kind)
            + ";base64,"@ + encoded,
        art_address(None, encoded) == "data:"@ + "image/jpeg"@ + ";base64,"@ + encoded,
        !stands_at(other, "image/"@, 0) ==> art_address(Some(other), encoded) == "data:"@
            + "image/jpeg"@ + ";base64,"@ + encoded,
{
    let value = "image/"@ + kind;
    assert(value.subrange(0, "image/"@.len() as int) =~= "image/"@);
    assert(stands_at(value, "image/"@, 0));
}

/// A control that was accepted is done, and any other is told why not.
pub proof fn a_control_is_answered()
    ensures
        forall|answer: Answer| control_outcome(answer) is Ok <==> answer == Answer::Accepted,
        control_outcome(Answer::NoSession) == Err::<(), _>(
            PlayerErrorView::Refused { message: "Nothing is playing."@ },
        ),
        control_outcome(Answer::Declined) == Err::<(), _>(
            PlayerErrorView::Refused { message: "The player did not accept that."@ },
        ),
        control_outcome(Answer::Silent) == Err::<(), _>(
            PlayerErrorView::Network("The system media session is not answering."@),
        ),
{
}

/// A song is new where its title is one and not the one last reported.
pub proof fn a_song_is_new_by_its_title(title: Seq<char>, sample: SampleView)
    ensures
        sample.title.len() == 0 ==> !is_new_song(title, sample),
        sample.title == title ==> !is_new_song(title, sample),
        sample.title.len() > 0 && sample.title != title ==> is_new_song(title, sample),
{
}

/// A count that leaves the range of an `i64` goes on at its other end.
pub proof fn a_count_goes_on_at_the_other_end(n: int)
    ensures
        i64::MIN <= wrapped(n) <= i64::MAX,
        i64::MIN <= n <= i64::MAX ==> wrapped(n) == n,
        i64::MAX < n <= i64::MAX + 0x1_0000_0000_0000_0000 ==> wrapped(n) == n
            - 0x1_0000_0000_0000_0000,
        i64::MIN - 0x1_0000_0000_0000_0000 <= n < i64::MIN ==> wrapped(n) == n
            + 0x1_0000_0000_0000_0000,
{
}

} // verus!
