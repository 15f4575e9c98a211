//! Conservative track identity matching.
//!
//! Version words (Live, Remix, ...) are deliberately kept: stripping them picks wrong
//! recordings. Traditional/Simplified conversion is used for comparison only — displayed
//! lyrics are never rewritten.

use unicode_normalization::UnicodeNormalization;
use vstd::prelude::*;

use crate::lrc::{html_decoded, unescape};
use crate::text::{chars_of, filter_last, same};

verus! {

/// The Unicode normalization form KC of a text.
pub uninterp spec fn nfkc(text: Seq<char>) -> Seq<char>;

/// `unicode_normalization::UnicodeNormalization::nfkc`, all characters of it. A function of
/// the text; what it maps to what is left unsaid.
#[verifier::external_body]
fn normalize_nfkc(text: &str) -> (normalized: String)
    ensures
        normalized@ == nfkc(text@),
{
    text.nfkc().collect()
}

/// A text after Unicode default case folding.
pub uninterp spec fn case_folded(text: Seq<char>) -> Seq<char>;

/// `caseless::default_case_fold_str`. A function of the text; what it maps to what is left
/// unsaid.
#[verifier::external_body]
fn fold_case(text: &str) -> (folded: String)
    ensures
        folded@ == case_folded(text@),
{
    caseless::default_case_fold_str(text)
}

/// A text with Traditional Chinese written in Simplified characters.
pub uninterp spec fn simplified(text: Seq<char>) -> Seq<char>;

/// `ferrous_opencc::OpenCC::convert` of the built-in Traditional to Simplified converter,
/// whose dictionaries are part of the crate. A function of the text; what it maps to what is
/// left unsaid.
#[verifier::external_body]
fn to_simplified(text: &str) -> (converted: String)
    ensures
        converted@ == simplified(text@),
{
    ferrous_opencc::OpenCC::from_config(ferrous_opencc::config::BuiltinConfig::T2s)
        .expect("embedded t2s dictionary must load")
        .convert(text)
}

/// The characters that Unicode calls alphabetic or numeric.
pub uninterp spec fn alphanumeric(c: char) -> bool;

/// `char::is_alphanumeric`: whether Unicode calls the character alphabetic or numeric.
#[verifier::external_body]
fn is_alphanumeric(c: char) -> (r: bool)
    ensures
        r == alphanumeric(c),
{
    c.is_alphanumeric()
}

/// The letters and digits of a text.
pub open spec fn letters_and_digits(text: Seq<char>) -> Seq<char> {
    text.filter(|c: char| alphanumeric(c))
}

/// The comparison key of a title or a name.
pub open spec fn key_of(value: Seq<char>) -> Seq<char> {
    letters_and_digits(simplified(case_folded(nfkc(html_decoded(value)))))
}

/// Keep the letters and digits of a text.
pub fn keep_letters_and_digits(text: &str) -> (kept: String)
    ensures
        kept@ == letters_and_digits(text@),
{
    let chars = chars_of(text);
    let ghost keep = |c: char| alphanumeric(c);
    let mut kept = String::new();
    let mut i: usize = 0;
    proof {
        reveal(Seq::filter);
        assert(kept@ =~= chars@.take(0).filter(keep));
    }
    while i < chars.len()
        invariant
            i <= chars@.len(),
            keep == (|c: char| alphanumeric(c)),
            kept@ == chars@.take(i as int).filter(keep),
        decreases chars@.len() - i,
    {
        proof {
            filter_last(chars@.take(i + 1), keep);
            assert(chars@.take(i + 1).drop_last() == chars@.take(i as int));
        }
        if is_alphanumeric(chars[i]) {
            kept.push(chars[i]);
        }
        i += 1;
    }
    assert(chars@.take(chars@.len() as int) == chars@);
    kept
}

/// Fold a title or artist name down to a comparison key.
pub fn normalize(value: &str) -> (key: String)
    ensures
        key@ == key_of(value@),
{
    let decoded = unescape(value);
    let composed = normalize_nfkc(decoded.as_str());
    let folded = fold_case(composed.as_str());
    let converted = to_simplified(folded.as_str());
    keep_letters_and_digits(converted.as_str())
}

// ------------------------------------------------------------------------ matching

/// The keys of the names that are not empty.
pub open spec fn keys_of(names: Seq<Seq<char>>) -> Seq<Seq<char>>
    decreases names.len(),
{
    if names.len() == 0 {
        Seq::empty()
    } else if names.last().len() > 0 {
        keys_of(names.drop_last()).push(key_of(names.last()))
    } else {
        keys_of(names.drop_last())
    }
}

/// Whether two lists have an item in common.
pub open spec fn overlap(a: Seq<Seq<char>>, b: Seq<Seq<char>>) -> bool {
    exists|i: int| 0 <= i < a.len() && b.contains(#[trigger] a[i])
}

/// Whether two lengths are known and within four seconds of each other. A missing duration
/// cannot establish which recording this is.
pub open spec fn close_in_length(duration_ms: int, candidate_ms: Option<i64>) -> bool {
    match candidate_ms {
        Some(candidate) => duration_ms > 0 && candidate > 0 && -4000 <= duration_ms - candidate
            <= 4000,
        None => false,
    }
}

/// Whether keys name the same recording: the titles are the same and not empty, an artist
/// overlaps, and the lengths are close.
pub open spec fn keys_match(
    title: Seq<char>,
    artists: Seq<Seq<char>>,
    duration_ms: int,
    candidate_title: Seq<char>,
    candidate_artists: Seq<Seq<char>>,
    candidate_ms: Option<i64>,
) -> bool {
    &&& title.len() > 0
    &&& title == candidate_title
    &&& overlap(artists, candidate_artists)
    &&& close_in_length(duration_ms, candidate_ms)
}

/// Whether a candidate is the wanted recording.
pub open spec fn is_match(
    track: Seq<char>,
    artists: Seq<Seq<char>>,
    duration_ms: int,
    title: Seq<char>,
    candidate_artists: Seq<Seq<char>>,
    candidate_ms: Option<i64>,
) -> bool {
    keys_match(
        key_of(track),
        keys_of(artists),
        duration_ms,
        key_of(title),
        keys_of(candidate_artists),
        candidate_ms,
    )
}

/// Matching is symmetric: a recording matches a candidate where the candidate matches it.
pub proof fn matching_is_symmetric(
    track: Seq<char>,
    artists: Seq<Seq<char>>,
    duration_ms: i64,
    title: Seq<char>,
    candidate_artists: Seq<Seq<char>>,
    candidate_ms: i64,
)
    ensures
        is_match(track, artists, duration_ms as int, title, candidate_artists, Some(candidate_ms))
            == is_match(
            title,
            candidate_artists,
            candidate_ms as int,
            track,
            artists,
            Some(duration_ms),
        ),
{
    let a = keys_of(artists);
    let b = keys_of(candidate_artists);
    if overlap(a, b) {
        let i = choose|i: int| 0 <= i < a.len() && b.contains(#[trigger] a[i]);
        let j = choose|j: int| 0 <= j < b.len() && b[j] == a[i];
        assert(a.contains(b[j]));
    }
    if overlap(b, a) {
        let i = choose|i: int| 0 <= i < b.len() && a.contains(#[trigger] b[i]);
        let j = choose|j: int| 0 <= j < a.len() && a[j] == b[i];
        assert(b.contains(a[j]));
    }
}

fn normalize_all(names: &[String]) -> (keys: Vec<String>)
    ensures
        keys.deep_view() == keys_of(names.deep_view()),
{
    let mut keys: Vec<String> = Vec::new();
    let ghost all = names.deep_view();
    let mut i: usize = 0;
    assert(keys.deep_view() =~= keys_of(all.take(0)));
    while i < names.len()
        invariant
            i <= names@.len(),
            all == names.deep_view(),
            keys.deep_view() == keys_of(all.take(i as int)),
        decreases names@.len() - i,
    {
        let ghost before = keys.deep_view();
        assert(all.take(i + 1).drop_last() =~= all.take(i as int));
        assert(all.take(i + 1).last() == names@[i as int]@);
        if !names[i].as_str().is_empty() {
            keys.push(normalize(names[i].as_str()));
            assert(keys.deep_view() =~= before.push(key_of(names@[i as int]@)));
        }
        i += 1;
    }
    assert(all.take(all.len() as int) =~= all);
    keys
}

fn have_overlap(a: &[String], b: &[String]) -> (r: bool)
    ensures
        r == overlap(a.deep_view(), b.deep_view()),
{
    let mut i: usize = 0;
    while i < a.len()
        invariant
            i <= a@.len(),
            forall|j: int| 0 <= j < i ==> !b.deep_view().contains(#[trigger] a.deep_view()[j]),
        decreases a@.len() - i,
    {
        assert(a.deep_view()[i as int] == a@[i as int]@);
        if crate::text::list_contains(b, a[i].as_str()) {
            return true;
        }
        i += 1;
    }
    false
}

/// Compare keys: the titles must be the same and not empty, an artist must overlap, and the
/// lengths must be within four seconds.
pub fn match_keys(
    title: &str,
    artists: &[String],
    duration_ms: i64,
    candidate_title: &str,
    candidate_artists: &[String],
    candidate_ms: Option<i64>,
) -> (r: bool)
    ensures
        r == keys_match(
            title@,
            artists.deep_view(),
            duration_ms as int,
            candidate_title@,
            candidate_artists.deep_view(),
            candidate_ms,
        ),
{
    if title.is_empty() || !same(title, candidate_title) {
        return false;
    }
    if !have_overlap(artists, candidate_artists) {
        return false;
    }
    match candidate_ms {
        Some(candidate) => {
            if duration_ms > 0 && candidate > 0 {
                let difference = duration_ms - candidate;
                -4000 <= difference && difference <= 4000
            } else {
                false
            }
        },
        None => false,
    }
}

/// A candidate only matches when the title is identical after folding, at least
/// one artist overlaps, and both durations are known and within four seconds —
/// the same window LRCLIB uses.
pub fn matches(
    track: &str,
    artists: &[String],
    duration_ms: i64,
    title: &str,
    candidate_artists: &[String],
    candidate_ms: Option<i64>,
) -> (r: bool)
    ensures
        r == is_match(
            track@,
            artists.deep_view(),
            duration_ms as int,
            title@,
            candidate_artists.deep_view(),
            candidate_ms,
        ),
{
    let wanted_title = normalize(track);
    let found_title = normalize(title);
    let wanted = normalize_all(artists);
    let found = normalize_all(candidate_artists);
    match_keys(
        wanted_title.as_str(),
        &wanted,
        duration_ms,
        found_title.as_str(),
        &found,
        candidate_ms,
    )
}

} // verus!
