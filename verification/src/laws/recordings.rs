//! When two recordings are the same.

use vstd::prelude::*;

use crate::lrc::html_decoded;
use crate::matching::{
    alphanumeric, case_folded, is_match, key_of, keys_of, letters_and_digits, nfkc, overlap,
    simplified,
};

verus! {

/// The letters and digits of a text: none of an empty one, of a longer one those of its parts in
/// the same order, and a single character is kept exactly where Unicode calls it alphabetic or
/// numeric.
pub proof fn exactly_the_alphanumeric_characters_are_kept(
    before: Seq<char>,
    c: char,
    after: Seq<char>,
)
    ensures
        letters_and_digits(Seq::empty()) == Seq::<char>::empty(),
        letters_and_digits(before + after) == letters_and_digits(before) + letters_and_digits(after),
        alphanumeric(c) ==> letters_and_digits(seq![c]) == seq![c],
        !alphanumeric(c) ==> letters_and_digits(seq![c]) == Seq::<char>::empty(),
        letters_and_digits(before.push(c) + after) == letters_and_digits(before) + (if alphanumeric(
            c,
        ) {
            seq![c]
        } else {
            Seq::empty()
        }) + letters_and_digits(after),
{
    reveal(Seq::filter);
    let keep = |c: char| alphanumeric(c);
    assert(Seq::<char>::empty().filter(keep) =~= Seq::empty());
    assert(seq![c].drop_last() =~= Seq::<char>::empty());
    assert(seq![c].filter(keep) =~= if keep(c) {
        seq![c]
    } else {
        Seq::empty()
    });
    assert(before.push(c) =~= before + seq![c]);
    Seq::filter_distributes_over_add(before, seq![c], keep);
    Seq::filter_distributes_over_add(before.push(c), after, keep);
    Seq::filter_distributes_over_add(before, after, keep);
}

/// Every alphanumeric character of a text is in it as often as among its letters and digits.
pub proof fn no_letter_or_digit_is_lost(text: Seq<char>, c: char)
    requires
        alphanumeric(c),
    ensures
        letters_and_digits(text).to_multiset().count(c) == text.to_multiset().count(c),
    decreases text.len(),
{
    broadcast use vstd::seq_lib::group_to_multiset_ensures;

    if text.len() > 0 {
        let front = text.drop_last();
        no_letter_or_digit_is_lost(front, c);
        exactly_the_alphanumeric_characters_are_kept(front, text.last(), Seq::empty());
        assert(front.push(text.last()) =~= text);
        assert(text + Seq::<char>::empty() =~= text);
        let kept = letters_and_digits(front);
        if alphanumeric(text.last()) {
            assert(letters_and_digits(text) =~= kept.push(text.last()));
        } else {
            assert(letters_and_digits(text) =~= kept);
        }
    } else {
        assert(text =~= Seq::<char>::empty());
        exactly_the_alphanumeric_characters_are_kept(text, c, text);
        assert(letters_and_digits(text) =~= text);
    }
}

/// Two texts that differ in one letter or digit have different letters and digits.
pub proof fn one_different_digit_tells_texts_apart(
    before: Seq<char>,
    a: char,
    b: char,
    after: Seq<char>,
)
    requires
        alphanumeric(a),
        alphanumeric(b),
        a != b,
    ensures
        letters_and_digits(before.push(a) + after) != letters_and_digits(before.push(b) + after),
{
    exactly_the_alphanumeric_characters_are_kept(before, a, after);
    exactly_the_alphanumeric_characters_are_kept(before, b, after);
    let n = letters_and_digits(before).len() as int;
    assert(letters_and_digits(before.push(a) + after)[n] == a);
    assert(letters_and_digits(before.push(b) + after)[n] == b);
}

/// Texts that stand for the same characters, or that differ only in form, case or script, have
/// the same key; and two keys are the same only where the folded texts have the same letters and
/// digits.
pub proof fn folding_makes_keys_the_same(a: Seq<char>, b: Seq<char>)
    ensures
        html_decoded(a) == html_decoded(b) ==> key_of(a) == key_of(b),
        nfkc(html_decoded(a)) == nfkc(html_decoded(b)) ==> key_of(a) == key_of(b),
        case_folded(nfkc(html_decoded(a))) == case_folded(nfkc(html_decoded(b))) ==> key_of(a)
            == key_of(b),
        simplified(case_folded(nfkc(html_decoded(a)))) == simplified(
            case_folded(nfkc(html_decoded(b))),
        ) ==> key_of(a) == key_of(b),
        key_of(a) == key_of(b) ==> letters_and_digits(
            simplified(case_folded(nfkc(html_decoded(a)))),
        ) == letters_and_digits(simplified(case_folded(nfkc(html_decoded(b))))),
{
}

/// Whether one of these names has this key. A name without characters does not count.
pub open spec fn is_named(names: Seq<Seq<char>>, key: Seq<char>) -> bool {
    exists|i: int| 0 <= i < names.len() && (#[trigger] names[i]).len() > 0 && key_of(names[i]) == key
}

proof fn keys_are_those_of_the_names(names: Seq<Seq<char>>)
    ensures
        forall|key: Seq<char>| #[trigger] keys_of(names).contains(key) <==> is_named(names, key),
    decreases names.len(),
{
    if names.len() > 0 {
        let front = names.drop_last();
        let keys = keys_of(names);
        keys_are_those_of_the_names(front);
        assert forall|key: Seq<char>| #[trigger] keys.contains(key) <==> is_named(names, key) by {
            if keys.contains(key) {
                let k = choose|k: int| 0 <= k < keys.len() && keys[k] == key;
                if k < keys_of(front).len() {
                    assert(keys_of(front)[k] == key);
                    assert(keys_of(front).contains(key));
                    let i = choose|i: int|
                        0 <= i < front.len() && (#[trigger] front[i]).len() > 0 && key_of(front[i])
                            == key;
                    assert(names[i] == front[i]);
                } else {
                    assert(names[names.len() - 1] == names.last());
                }
            }
            if is_named(names, key) {
                let i = choose|i: int|
                    0 <= i < names.len() && (#[trigger] names[i]).len() > 0 && key_of(names[i])
                        == key;
                if i < front.len() {
                    assert(front[i] == names[i]);
                    assert(keys_of(front).contains(key));
                    let k = choose|k: int| 0 <= k < keys_of(front).len() && keys_of(front)[k] == key;
                    assert(keys[k] == key);
                } else {
                    assert(keys[keys.len() - 1] == key);
                }
            }
        }
    }
}

/// A candidate is the wanted recording exactly where the titles have the same key, which is not
/// empty, some artist of one has the key of some artist of the other, and both lengths are known
/// and no more than four seconds apart.
pub proof fn a_recording_is_known_by_title_artist_and_length(
    track: Seq<char>,
    artists: Seq<Seq<char>>,
    duration_ms: int,
    title: Seq<char>,
    candidate_artists: Seq<Seq<char>>,
    candidate_ms: Option<i64>,
)
    ensures
        is_match(track, artists, duration_ms, title, candidate_artists, candidate_ms) <==> {
            &&& key_of(title) == key_of(track)
            &&& key_of(track).len() != 0
            &&& exists|key: Seq<char>| #[trigger]
                is_named(artists, key) && is_named(candidate_artists, key)
            &&& candidate_ms is Some
            &&& duration_ms >= 1
            &&& candidate_ms->0 >= 1
            &&& duration_ms <= candidate_ms->0 + 4000
            &&& candidate_ms->0 <= duration_ms + 4000
        },
{
    keys_are_those_of_the_names(artists);
    keys_are_those_of_the_names(candidate_artists);
    let a = keys_of(artists);
    let b = keys_of(candidate_artists);
    if overlap(a, b) {
        let i = choose|i: int| 0 <= i < a.len() && b.contains(#[trigger] a[i]);
        assert(a.contains(a[i]));
        assert(is_named(artists, a[i]) && is_named(candidate_artists, a[i]));
    }
    if exists|key: Seq<char>| #[trigger] is_named(artists, key) && is_named(candidate_artists, key) {
        let key = choose|key: Seq<char>| #[trigger]
            is_named(artists, key) && is_named(candidate_artists, key);
        assert(a.contains(key) && b.contains(key));
        let i = choose|i: int| 0 <= i < a.len() && a[i] == key;
        assert(b.contains(a[i]));
    }
}

/// A recording is always recognised by its own title, one of its own artists and its own length.
pub proof fn a_recording_is_itself(
    track: Seq<char>,
    artists: Seq<Seq<char>>,
    duration_ms: i64,
    listed: Seq<Seq<char>>,
    artist: Seq<char>,
)
    requires
        key_of(track).len() > 0,
        artists.contains(artist),
        listed.contains(artist),
        artist.len() > 0,
        duration_ms > 0,
    ensures
        is_match(track, artists, duration_ms as int, track, listed, Some(duration_ms)),
{
    a_recording_is_known_by_title_artist_and_length(
        track,
        artists,
        duration_ms as int,
        track,
        listed,
        Some(duration_ms),
    );
    let i = choose|i: int| 0 <= i < artists.len() && artists[i] == artist;
    let j = choose|j: int| 0 <= j < listed.len() && listed[j] == artist;
    assert(artists[i].len() > 0 && listed[j].len() > 0);
    assert(is_named(artists, key_of(artist)) && is_named(listed, key_of(artist)));
}

} // verus!
