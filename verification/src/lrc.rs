//! LRC timelines.
//!
//! A lyric file in this format is lines of text, each led by the times at which it is sung:
//! `[01:02.50]words`. A positive `[offset:]` advances the lyrics, so it is subtracted from
//! the cue times.

use vstd::prelude::*;

use crate::text::{
    all_digits, ascii_digit, ascii_lower, at_any, chars_of, decimal, decimal_is_read_back,
    digits_value, find_char, join, join_text, list_contains, parse_i64, parsed_i64,
    pieces_hold_only_the_text, position_of, split, split_any, to_ascii_lower, trim, trim_chars,
};

verus! {

/// One timed lyric line. `text` may hold several lines joined by `\n` when a
/// source stamps a translation with the same time as the original.
#[derive(Debug, Clone, PartialEq, Eq)]
pub struct Cue {
    pub time_ms: i64,
    pub text: String,
}

/// What a [`Cue`] says.
pub ghost struct CueView {
    pub time_ms: int,
    pub text: Seq<char>,
}

impl View for Cue {
    type V = CueView;

    open spec fn view(&self) -> CueView {
        CueView { time_ms: self.time_ms as int, text: self.text@ }
    }
}

impl DeepView for Cue {
    type V = CueView;

    open spec fn deep_view(&self) -> CueView {
        self@
    }
}

// ------------------------------------------------------------------ HTML entities

/// What `html_escape::decode_html_entities` makes of a text.
pub uninterp spec fn html_decoded(raw: Seq<char>) -> Seq<char>;

/// `html_escape::decode_html_entities`, which replaces HTML entities by the characters
/// that they stand for. The result is a function of the text alone and is given a name. An
/// entity begins with an ampersand: a text without one is kept as it is, and so is what stands
/// before the first one, with what follows decoded as if it stood alone. Which entities there
/// are is left unsaid.
#[verifier::external_body]
fn decode_html_entities(raw: &str) -> (decoded: String)
    ensures
        decoded@ == html_decoded(raw@),
        !raw@.contains('&') ==> decoded@ == raw@,
        forall|n: int|
            0 <= n <= raw@.len() && !raw@.take(n).contains('&') ==> decoded@ == raw@.take(n)
                + #[trigger] html_decoded(raw@.skip(n)),
{
    html_escape::decode_html_entities(raw).into_owned()
}

/// Decode the HTML entities of a lyric payload.
pub fn unescape(raw: &str) -> (decoded: String)
    ensures
        decoded@ == html_decoded(raw@),
        !raw@.contains('&') ==> decoded@ == raw@,
        forall|n: int|
            0 <= n <= raw@.len() && !raw@.take(n).contains('&') ==> decoded@ == raw@.take(n)
                + #[trigger] html_decoded(raw@.skip(n)),
{
    decode_html_entities(raw)
}

// ------------------------------------------------------------------ decimal digits

/// Whether the character class `\d` of the `regex` crate holds a character.
pub uninterp spec fn regex_digit(c: char) -> bool;

/// `regex::Regex::is_match` with the pattern `^\d$`, on one character: whether Unicode
/// calls it a decimal digit. Which characters those are is left unsaid.
#[verifier::external_body]
fn is_regex_digit(c: char) -> (r: bool)
    ensures
        r == regex_digit(c),
{
    regex::Regex::new(r"^\d$").unwrap().is_match(c.encode_utf8(&mut [0; 4]))
}

/// A decimal digit of any script: `0` to `9` among the ASCII characters.
pub open spec fn decimal_digit(c: char) -> bool {
    if c <= '\u{7f}' {
        ascii_digit(c)
    } else {
        regex_digit(c)
    }
}

fn is_decimal_digit(c: char) -> (r: bool)
    ensures
        r == decimal_digit(c),
{
    if c <= '\u{7f}' {
        '0' <= c && c <= '9'
    } else {
        is_regex_digit(c)
    }
}

/// How many decimal digits stand in a row from `from` on, counting no further than `most`.
pub open spec fn digit_run(s: Seq<char>, from: int, most: nat) -> nat
    decreases most,
{
    if most > 0 && 0 <= from < s.len() && decimal_digit(s[from]) {
        1 + digit_run(s, from + 1, (most - 1) as nat)
    } else {
        0
    }
}

proof fn digit_run_is_digits(s: Seq<char>, from: int, most: nat)
    requires
        0 <= from <= s.len(),
    ensures
        digit_run(s, from, most) <= most,
        from + digit_run(s, from, most) <= s.len(),
        forall|j: int| from <= j < from + digit_run(s, from, most) ==> decimal_digit(#[trigger] s[j]),
    decreases most,
{
    if most > 0 && from < s.len() && decimal_digit(s[from]) {
        digit_run_is_digits(s, from + 1, (most - 1) as nat);
    }
}

fn count_digits(chars: &[char], from: usize, most: usize) -> (n: usize)
    requires
        from <= chars@.len(),
    ensures
        n == digit_run(chars@, from as int, most as nat),
        n <= most,
        from + n <= chars@.len(),
        forall|j: int| from <= j < from + n ==> decimal_digit(#[trigger] chars@[j]),
{
    let mut n: usize = 0;
    let total = chars.len();
    while n < most && from + n < total && is_decimal_digit(chars[from + n])
        invariant
            n <= most,
            total == chars@.len(),
            from + n <= total,
            digit_run(chars@, from as int, most as nat) == n + digit_run(
                chars@,
                from + n,
                (most - n) as nat,
            ),
        decreases most - n,
    {
        n += 1;
    }
    proof {
        digit_run_is_digits(chars@, from as int, most as nat);
    }
    n
}

/// The number a row of digits stands for. Digits of other scripts are not read: a row
/// that holds one counts as zero.
pub open spec fn number(s: Seq<char>) -> int {
    match parsed_i64(s) {
        Some(n) => n as int,
        None => 0,
    }
}

proof fn number_of_three_digits(s: Seq<char>)
    requires
        1 <= s.len() <= 3,
        forall|j: int| 0 <= j < s.len() ==> decimal_digit(#[trigger] s[j]),
    ensures
        0 <= number(s) <= 999,
        s.len() == 2 && s[0] <= '5' ==> number(s) <= 59,
{
    assert(decimal_digit(s[0]));
    if all_digits(s) {
        assert(ascii_digit(s[0]));
        let a = s.drop_last();
        let b = a.drop_last();
        assert(digits_value(s) == digits_value(a) * 10 + (s.last() as nat - 48) as nat);
        assert(ascii_digit(s.last()));
        if a.len() > 0 {
            assert(ascii_digit(a.last())) by {
                assert(a.last() == s[s.len() - 2]);
            }
            assert(digits_value(a) == digits_value(b) * 10 + (a.last() as nat - 48) as nat);
            if b.len() > 0 {
                assert(ascii_digit(b.last())) by {
                    assert(b.last() == s[0]);
                }
                assert(b.drop_last().len() == 0);
                assert(digits_value(b.drop_last()) == 0);
                assert(digits_value(b) == (b.last() as nat - 48) as nat);
            } else {
                assert(digits_value(b) == 0);
            }
        } else {
            assert(digits_value(a) == 0);
        }
    }
}

// ------------------------------------------------------------------------- stamps

/// The parts of one timestamp, and the position after its closing bracket.
pub ghost struct Stamp {
    pub minutes: Seq<char>,
    pub seconds: Seq<char>,
    pub fraction: Option<Seq<char>>,
    pub end: int,
}

/// The timestamp that begins at `at`: `[`, one to three digits, `:`, a digit from 0 to 5 and
/// another digit, then perhaps `.` or `:` with one to three digits, and `]`.
pub open spec fn stamp_at(s: Seq<char>, at: int) -> Option<Stamp> {
    let colon = at + 1 + digit_run(s, at + 1, 3);
    let after = colon + 3;
    let close = after + 1 + digit_run(s, after + 1, 3);
    if !(0 <= at && after < s.len() && s[at] == '[' && colon > at + 1 && s[colon] == ':' && '0'
        <= s[colon + 1] <= '5' && decimal_digit(s[colon + 2])) {
        None
    } else if s[after] == ']' {
        Some(
            Stamp {
                minutes: s.subrange(at + 1, colon),
                seconds: s.subrange(colon + 1, after),
                fraction: None,
                end: after + 1,
            },
        )
    } else if (s[after] == '.' || s[after] == ':') && close > after + 1 && close < s.len()
        && s[close] == ']' {
        Some(
            Stamp {
                minutes: s.subrange(at + 1, colon),
                seconds: s.subrange(colon + 1, after),
                fraction: Some(s.subrange(after + 1, close)),
                end: close + 1,
            },
        )
    } else {
        None
    }
}

/// A fraction is left-aligned: `.1` is 100 ms, not 1 ms.
pub open spec fn left_aligned(fraction: Seq<char>) -> Seq<char>
    decreases 3 - fraction.len(),
{
    if fraction.len() < 3 {
        left_aligned(fraction.push('0'))
    } else {
        fraction
    }
}

/// The time a stamp stands for, in milliseconds.
pub open spec fn stamp_millis(stamp: Stamp) -> int {
    (number(stamp.minutes) * 60 + number(stamp.seconds)) * 1000 + (match stamp.fraction {
        Some(fraction) => number(left_aligned(fraction)),
        None => 0,
    })
}

/// Two timestamps never overlap: none begins inside another one.
pub proof fn stamps_never_overlap(s: Seq<char>, at: int, inside: int)
    requires
        stamp_at(s, at) is Some,
        at < inside < stamp_at(s, at)->0.end,
    ensures
        stamp_at(s, inside) is None,
{
    let colon = at + 1 + digit_run(s, at + 1, 3);
    let after = colon + 3;
    digit_run_is_digits(s, at + 1, 3);
    digit_run_is_digits(s, after + 1, 3);
    assert(s[inside] != '[') by {
        if inside < colon {
            assert(decimal_digit(s[inside]));
        } else if inside > after {
            assert(inside < stamp_at(s, at)->0.end - 1 ==> decimal_digit(s[inside]));
        }
    }
}

fn zero_padded(chars: &[char], from: usize, to: usize) -> (padded: Vec<char>)
    requires
        from < to <= chars@.len(),
        to - from <= 3,
        forall|j: int| from <= j < to ==> decimal_digit(#[trigger] chars@[j]),
    ensures
        padded@ == left_aligned(chars@.subrange(from as int, to as int)),
        padded@.len() == 3,
        forall|j: int| 0 <= j < 3 ==> decimal_digit(#[trigger] padded@[j]),
{
    let mut padded: Vec<char> = Vec::new();
    let mut i: usize = from;
    while i < to
        invariant
            from <= i <= to <= chars@.len(),
            padded@ == chars@.subrange(from as int, i as int),
        decreases to - i,
    {
        padded.push(chars[i]);
        i += 1;
    }
    assert forall|j: int| 0 <= j < padded@.len() implies decimal_digit(#[trigger] padded@[j]) by {
        assert(decimal_digit(chars@[from + j]));
    }
    let ghost fraction = padded@;
    while padded.len() < 3
        invariant
            1 <= padded@.len() <= 3,
            left_aligned(padded@) == left_aligned(fraction),
            forall|j: int| 0 <= j < padded@.len() ==> decimal_digit(#[trigger] padded@[j]),
        decreases 3 - padded@.len(),
    {
        padded.push('0');
    }
    padded
}

fn number_of(chars: &[char]) -> (n: i64)
    ensures
        n == number(chars@),
{
    match parse_i64(chars) {
        Some(n) => n,
        None => 0,
    }
}

/// Read the timestamp that begins at `at`: its time in milliseconds, and where it ends.
fn read_stamp(chars: &[char], at: usize) -> (stamp: Option<(i64, usize)>)
    requires
        at <= chars@.len(),
    ensures
        match stamp {
            Some((millis, end)) => {
                &&& stamp_at(chars@, at as int) is Some
                &&& millis == stamp_millis(stamp_at(chars@, at as int)->0)
                &&& end == stamp_at(chars@, at as int)->0.end
                &&& 0 <= millis <= 59_999_999
                &&& at < end <= chars@.len()
            },
            None => stamp_at(chars@, at as int) is None,
        },
{
    let total = chars.len();
    if at >= total || chars[at] != '[' {
        return None;
    }
    let colon = at + 1 + count_digits(chars, at + 1, 3);
    if colon == at + 1 || colon >= total || total - colon <= 3 || chars[colon] != ':' || !('0'
        <= chars[colon + 1] && chars[colon + 1] <= '5') || !is_decimal_digit(chars[colon + 2]) {
        return None;
    }
    let after = colon + 3;
    let minutes = number_of(vstd::slice::slice_subrange(chars, at + 1, colon));
    let seconds = number_of(vstd::slice::slice_subrange(chars, colon + 1, after));
    proof {
        let m = chars@.subrange(at + 1, colon as int);
        let n = chars@.subrange(colon + 1, after as int);
        assert forall|j: int| 0 <= j < m.len() implies decimal_digit(#[trigger] m[j]) by {
            assert(decimal_digit(chars@[at + 1 + j]));
        }
        number_of_three_digits(m);
        assert(n[0] == chars@[colon + 1]);
        assert(n[1] == chars@[colon + 2]);
        number_of_three_digits(n);
    }
    let whole = (minutes * 60 + seconds) * 1000;
    if chars[after] == ']' {
        return Some((whole, after + 1));
    }
    if chars[after] != '.' && chars[after] != ':' {
        return None;
    }
    let close = after + 1 + count_digits(chars, after + 1, 3);
    if close == after + 1 || close >= total || chars[close] != ']' {
        return None;
    }
    let padded = zero_padded(chars, after + 1, close);
    proof {
        number_of_three_digits(padded@);
    }
    let fraction = number_of(&padded);
    Some((whole + fraction, close + 1))
}

// ------------------------------------------------------------------- metadata tags

/// Whether a character is a letter of a tag name, in either case. The long s counts as an s.
pub open spec fn same_letter(c: char, letter: char) -> bool {
    ||| ascii_lower(c) == letter
    ||| letter == 's' && c == '\u{17f}'
}

/// Whether the tag name stands at `at`, with a colon behind it.
pub open spec fn tag_name_at(s: Seq<char>, at: int, name: Seq<char>) -> bool {
    &&& 0 <= at
    &&& at + name.len() < s.len()
    &&& s[at + name.len()] == ':'
    &&& forall|i: int| 0 <= i < name.len() ==> same_letter(s[at + i], #[trigger] name[i])
}

fn reads_tag_name(chars: &[char], at: usize, name: &str) -> (after: Option<usize>)
    requires
        at <= chars@.len(),
    ensures
        match after {
            Some(after) => {
                &&& tag_name_at(chars@, at as int, name@)
                &&& after == at + name@.len() + 1
                &&& after <= chars@.len()
            },
            None => !tag_name_at(chars@, at as int, name@),
        },
{
    let total = chars.len();
    let letters = chars_of(name);
    if letters.len() >= total - at || chars[at + letters.len()] != ':' {
        return None;
    }
    let mut i: usize = 0;
    while i < letters.len()
        invariant
            total == chars@.len(),
            letters@ == name@,
            at + letters@.len() < total,
            i <= letters@.len(),
            forall|j: int| 0 <= j < i ==> same_letter(chars@[at + j], #[trigger] name@[j]),
        decreases letters@.len() - i,
    {
        let c = chars[at + i];
        if !(to_ascii_lower(c) == letters[i] || (letters[i] == 's' && c == '\u{17f}')) {
            assert(!same_letter(chars@[at + i], name@[i as int]));
            return None;
        }
        i += 1;
    }
    Some(at + letters.len() + 1)
}

/// Where the value of a metadata tag whose name stands at `at` begins.
pub open spec fn meta_value_at(s: Seq<char>, at: int) -> Option<int> {
    if tag_name_at(s, at, "ar"@) {
        Some(at + "ar"@.len() + 1)
    } else if tag_name_at(s, at, "ti"@) {
        Some(at + "ti"@.len() + 1)
    } else if tag_name_at(s, at, "al"@) {
        Some(at + "al"@.len() + 1)
    } else if tag_name_at(s, at, "by"@) {
        Some(at + "by"@.len() + 1)
    } else if tag_name_at(s, at, "re"@) {
        Some(at + "re"@.len() + 1)
    } else if tag_name_at(s, at, "ve"@) {
        Some(at + "ve"@.len() + 1)
    } else if tag_name_at(s, at, "length"@) {
        Some(at + "length"@.len() + 1)
    } else if tag_name_at(s, at, "offset"@) {
        Some(at + "offset"@.len() + 1)
    } else {
        None
    }
}

/// Where the metadata tag that begins at `at` ends: behind the first `]` after its colon.
pub open spec fn meta_end(s: Seq<char>, at: int) -> Option<int> {
    if 0 <= at < s.len() && s[at] == '[' {
        match meta_value_at(s, at + 1) {
            Some(value) => if position_of(s, ']', value) < s.len() {
                Some(position_of(s, ']', value) + 1)
            } else {
                None
            },
            None => None,
        }
    } else {
        None
    }
}

fn read_meta_value(chars: &[char], at: usize) -> (value: Option<usize>)
    requires
        at <= chars@.len(),
    ensures
        match value {
            Some(value) => meta_value_at(chars@, at as int) == Some(value as int) && at <= value
                <= chars@.len(),
            None => meta_value_at(chars@, at as int) is None,
        },
{
    if let Some(value) = reads_tag_name(chars, at, "ar") {
        return Some(value);
    }
    if let Some(value) = reads_tag_name(chars, at, "ti") {
        return Some(value);
    }
    if let Some(value) = reads_tag_name(chars, at, "al") {
        return Some(value);
    }
    if let Some(value) = reads_tag_name(chars, at, "by") {
        return Some(value);
    }
    if let Some(value) = reads_tag_name(chars, at, "re") {
        return Some(value);
    }
    if let Some(value) = reads_tag_name(chars, at, "ve") {
        return Some(value);
    }
    if let Some(value) = reads_tag_name(chars, at, "length") {
        return Some(value);
    }
    reads_tag_name(chars, at, "offset")
}

fn read_meta(chars: &[char], at: usize) -> (end: Option<usize>)
    requires
        at <= chars@.len(),
    ensures
        match end {
            Some(end) => meta_end(chars@, at as int) == Some(end as int) && at < end
                <= chars@.len(),
            None => meta_end(chars@, at as int) is None,
        },
{
    if at >= chars.len() || chars[at] != '[' {
        return None;
    }
    match read_meta_value(chars, at + 1) {
        Some(value) => {
            let close = find_char(chars, ']', value);
            if close < chars.len() {
                Some(close + 1)
            } else {
                None
            }
        },
        None => None,
    }
}

// ------------------------------------------------------------------ stripping tags

/// The text from `from` on, without its metadata tags. Of two tags that overlap the first
/// one counts.
pub open spec fn without_meta(s: Seq<char>, from: int) -> Seq<char>
    decreases s.len() - from,
{
    if from < 0 || from >= s.len() {
        Seq::empty()
    } else {
        match meta_end(s, from) {
            Some(end) => if end > from {
                without_meta(s, end)
            } else {
                Seq::empty()
            },
            None => seq![s[from]] + without_meta(s, from + 1),
        }
    }
}

/// The text from `from` on, without its timestamps.
pub open spec fn without_stamps(s: Seq<char>, from: int) -> Seq<char>
    decreases s.len() - from,
{
    if from < 0 || from >= s.len() {
        Seq::empty()
    } else {
        match stamp_at(s, from) {
            Some(stamp) => if stamp.end > from {
                without_stamps(s, stamp.end)
            } else {
                Seq::empty()
            },
            None => seq![s[from]] + without_stamps(s, from + 1),
        }
    }
}

/// The words of a line: what is left of it without its tags and the white space around.
pub open spec fn stripped(raw: Seq<char>) -> Seq<char> {
    trim(without_stamps(without_meta(raw, 0), 0))
}

fn remove_meta(chars: &[char]) -> (rest: Vec<char>)
    ensures
        rest@ == without_meta(chars@, 0),
{
    let mut rest: Vec<char> = Vec::new();
    let mut i: usize = 0;
    assert(rest@ + without_meta(chars@, 0) =~= without_meta(chars@, 0));
    while i < chars.len()
        invariant
            i <= chars@.len(),
            rest@ + without_meta(chars@, i as int) == without_meta(chars@, 0),
        decreases chars@.len() - i,
    {
        match read_meta(chars, i) {
            Some(end) => {
                i = end;
            },
            None => {
                let ghost before = rest@;
                rest.push(chars[i]);
                assert(rest@ + without_meta(chars@, i + 1) =~= before + (seq![chars@[i as int]]
                    + without_meta(chars@, i + 1)));
                i += 1;
            },
        }
    }
    assert(rest@ + without_meta(chars@, i as int) =~= rest@);
    rest
}

fn remove_stamps(chars: &[char]) -> (rest: Vec<char>)
    ensures
        rest@ == without_stamps(chars@, 0),
{
    let mut rest: Vec<char> = Vec::new();
    let mut i: usize = 0;
    assert(rest@ + without_stamps(chars@, 0) =~= without_stamps(chars@, 0));
    while i < chars.len()
        invariant
            i <= chars@.len(),
            rest@ + without_stamps(chars@, i as int) == without_stamps(chars@, 0),
        decreases chars@.len() - i,
    {
        match read_stamp(chars, i) {
            Some((_millis, end)) => {
                i = end;
            },
            None => {
                let ghost before = rest@;
                rest.push(chars[i]);
                assert(rest@ + without_stamps(chars@, i + 1) =~= before + (seq![chars@[i as int]]
                    + without_stamps(chars@, i + 1)));
                i += 1;
            },
        }
    }
    assert(rest@ + without_stamps(chars@, i as int) =~= rest@);
    rest
}

/// Strip timestamps and LRC metadata tags, leaving the words of a line.
pub fn strip_tags(raw: &str) -> (words: String)
    ensures
        words@ == stripped(raw@),
{
    let chars = chars_of(raw);
    let without_meta = remove_meta(&chars);
    let without_stamps = remove_stamps(&without_meta);
    trim_chars(&without_stamps)
}

// -------------------------------------------------------------------------- offset

/// The value of the offset tag that begins at `at`: a sign, where there is one, and digits.
pub open spec fn offset_at(s: Seq<char>, at: int) -> Option<Seq<char>> {
    let value = at + 1 + "offset"@.len() + 1;
    let digits = if value < s.len() && (s[value] == '+' || s[value] == '-') {
        value + 1
    } else {
        value
    };
    let close = digits + digit_run(s, digits, s.len());
    if 0 <= at < s.len() && s[at] == '[' && tag_name_at(s, at + 1, "offset"@) && close > digits
        && close < s.len() && s[close] == ']' {
        Some(s.subrange(value, close))
    } else {
        None
    }
}

/// The value of the last offset tag that begins before `end`, 0 where there is none or where
/// it is no number that fits.
pub open spec fn offset_before(s: Seq<char>, end: int) -> int
    decreases end,
{
    if end <= 0 {
        0
    } else {
        match offset_at(s, end - 1) {
            Some(value) => number(value),
            None => offset_before(s, end - 1),
        }
    }
}

/// The offset of a file, in milliseconds.
pub open spec fn offset_of(s: Seq<char>) -> int {
    offset_before(s, s.len() as int)
}

fn read_offset(chars: &[char], at: usize) -> (offset: Option<i64>)
    requires
        at < chars@.len(),
    ensures
        match offset {
            Some(offset) => offset_at(chars@, at as int) is Some && offset == number(
                offset_at(chars@, at as int)->0,
            ),
            None => offset_at(chars@, at as int) is None,
        },
{
    let total = chars.len();
    if chars[at] != '[' {
        return None;
    }
    let value = match reads_tag_name(chars, at + 1, "offset") {
        Some(value) => value,
        None => {
            return None;
        },
    };
    let digits = if value < total && (chars[value] == '+' || chars[value] == '-') {
        value + 1
    } else {
        value
    };
    let close = digits + count_digits(chars, digits, total);
    if close == digits || close >= total || chars[close] != ']' {
        return None;
    }
    Some(number_of(vstd::slice::slice_subrange(chars, value, close)))
}

fn last_offset(chars: &[char]) -> (offset: i64)
    ensures
        offset == offset_of(chars@),
{
    let mut end: usize = chars.len();
    while end > 0
        invariant
            end <= chars@.len(),
            offset_of(chars@) == offset_before(chars@, end as int),
        decreases end,
    {
        if let Some(offset) = read_offset(chars, end - 1) {
            return offset;
        }
        end -= 1;
    }
    0
}

// ------------------------------------------------------------------------ timeline

/// The time of a cue: its stamp, moved by the offset. It is never below zero, and a
/// difference that no `i64` can hold counts as zero too.
pub open spec fn cue_time(millis: int, offset: int) -> int {
    let moved = millis - offset;
    if 0 <= moved <= i64::MAX {
        moved
    } else {
        0
    }
}

fn moved_time(millis: i64, offset: i64) -> (time: i64)
    requires
        0 <= millis,
    ensures
        time == cue_time(millis as int, offset as int),
        time >= 0,
{
    match millis.checked_sub(offset) {
        Some(moved) => if moved < 0 {
            0
        } else {
            moved
        },
        None => 0,
    }
}

/// A time at which something is sung.
pub ghost struct Sung {
    pub time_ms: int,
    pub words: Seq<char>,
}

/// What the stamps that begin before `end` in a line say: at each of their times, `words`.
pub open spec fn sung_before(line: Seq<char>, words: Seq<char>, offset: int, end: int) -> Seq<Sung>
    decreases end,
{
    if end <= 0 {
        Seq::empty()
    } else {
        let before = sung_before(line, words, offset, end - 1);
        match stamp_at(line, end - 1) {
            Some(stamp) => before.push(
                Sung { time_ms: cue_time(stamp_millis(stamp), offset), words },
            ),
            None => before,
        }
    }
}

/// What one line says.
pub open spec fn sung_in_line(line: Seq<char>, offset: int) -> Seq<Sung> {
    sung_before(line, stripped(line), offset, line.len() as int)
}

/// What several lines say, one after the other.
pub open spec fn sung_in_lines(lines: Seq<Seq<char>>, offset: int) -> Seq<Sung>
    decreases lines.len(),
{
    if lines.len() == 0 {
        Seq::empty()
    } else {
        sung_in_lines(lines.drop_last(), offset) + sung_in_line(lines.last(), offset)
    }
}

/// The times in ascending order, with one more among them. None stands there twice.
pub open spec fn with_time(times: Seq<int>, time: int) -> Seq<int>
    decreases times.len(),
{
    if times.len() == 0 || times.last() < time {
        times.push(time)
    } else if times.last() == time {
        times
    } else {
        with_time(times.drop_last(), time).push(times.last())
    }
}

/// All times at which something is sung, in ascending order.
pub open spec fn times_of(sung: Seq<Sung>) -> Seq<int>
    decreases sung.len(),
{
    if sung.len() == 0 {
        Seq::empty()
    } else {
        with_time(times_of(sung.drop_last()), sung.last().time_ms)
    }
}

/// The different words sung at one time, in the order in which they come up. Blank ones do
/// not count.
pub open spec fn words_at(sung: Seq<Sung>, time: int) -> Seq<Seq<char>>
    decreases sung.len(),
{
    if sung.len() == 0 {
        Seq::empty()
    } else {
        let before = words_at(sung.drop_last(), time);
        let last = sung.last();
        if last.time_ms == time && last.words.len() > 0 && !before.contains(last.words) {
            before.push(last.words)
        } else {
            before
        }
    }
}

/// One cue for every time at which something is sung.
pub open spec fn timeline(sung: Seq<Sung>) -> Seq<CueView> {
    let times = times_of(sung);
    Seq::new(
        times.len(),
        |i: int| CueView { time_ms: times[i], text: join(words_at(sung, times[i]), "\n"@) },
    )
}

/// Where lines end. Some sources still use a bare carriage return.
pub open spec fn line_ends() -> Seq<char> {
    seq!['\n', '\r']
}

/// The cues of an LRC file whose HTML entities have been decoded.
pub open spec fn decoded_cues(decoded: Seq<char>, offset: int) -> Seq<CueView> {
    timeline(sung_in_lines(split(decoded, at_any(line_ends())), offset))
}

/// The cues of an LRC file. The offset is read before the HTML entities are decoded.
pub open spec fn lrc_cues(raw: Seq<char>) -> Seq<CueView> {
    decoded_cues(html_decoded(raw), offset_of(raw))
}

/// Whether something is stamped with this time.
pub open spec fn is_sung_at(sung: Seq<Sung>, time: int) -> bool {
    exists|k: int| 0 <= k < sung.len() && (#[trigger] sung[k]).time_ms == time
}

/// Whether there is a cue at this time.
pub open spec fn has_cue_at(cues: Seq<CueView>, time: int) -> bool {
    exists|i: int| 0 <= i < cues.len() && (#[trigger] cues[i]).time_ms == time
}

/// Whether each time is later than the one before it.
pub open spec fn ascending(cues: Seq<CueView>) -> bool {
    forall|i: int, j: int|
        0 <= i < j < cues.len() ==> (#[trigger] cues[i]).time_ms < (#[trigger] cues[j]).time_ms
}

proof fn with_time_inserts(times: Seq<int>, time: int, at: int)
    requires
        0 <= at <= times.len(),
        forall|j: int| at <= j < times.len() ==> times[j] > time,
        at > 0 ==> times[at - 1] <= time,
    ensures
        with_time(times, time) == (if at > 0 && times[at - 1] == time {
            times
        } else {
            times.insert(at, time)
        }),
    decreases times.len(),
{
    if times.len() > 0 && at < times.len() {
        with_time_inserts(times.drop_last(), time, at);
        assert(times.drop_last().push(times.last()) =~= times);
        assert(times.drop_last().insert(at, time).push(times.last()) =~= times.insert(at, time));
    } else {
        assert(times.insert(at, time) =~= times.push(time));
    }
}

proof fn with_time_is_ascending(times: Seq<int>, time: int)
    requires
        forall|i: int, j: int| 0 <= i < j < times.len() ==> times[i] < times[j],
    ensures
        forall|i: int, j: int|
            0 <= i < j < with_time(times, time).len() ==> with_time(times, time)[i] < with_time(
                times,
                time,
            )[j],
        forall|t: int| #[trigger]
            with_time(times, time).contains(t) <==> (times.contains(t) || t == time),
    decreases times.len(),
{
    let next = with_time(times, time);
    if times.len() == 0 || times.last() < time {
        assert(next[times.len() as int] == time);
        assert forall|t: int| times.contains(t) implies next.contains(t) by {
            let i = choose|i: int| 0 <= i < times.len() && times[i] == t;
            assert(next[i] == t);
        }
    } else if times.last() == time {
        assert(times[times.len() - 1] == time);
    } else {
        let front = times.drop_last();
        with_time_is_ascending(front, time);
        let inner = with_time(front, time);
        assert forall|i: int| 0 <= i < inner.len() implies inner[i] < times.last() by {
            assert(inner.contains(inner[i]));
            if front.contains(inner[i]) {
                let k = choose|k: int| 0 <= k < front.len() && front[k] == inner[i];
                assert(times[k] == inner[i]);
            }
        }
        assert forall|t: int| #[trigger] next.contains(t) <==> (times.contains(t) || t == time) by {
            if next.contains(t) {
                let i = choose|i: int| 0 <= i < next.len() && next[i] == t;
                if i < inner.len() {
                    assert(inner.contains(t));
                    if front.contains(t) {
                        let k = choose|k: int| 0 <= k < front.len() && front[k] == t;
                        assert(times[k] == t);
                    }
                } else {
                    assert(times[times.len() - 1] == t);
                }
            }
            if times.contains(t) {
                let i = choose|i: int| 0 <= i < times.len() && times[i] == t;
                if i < front.len() {
                    assert(front[i] == t);
                    assert(inner.contains(t));
                    let k = choose|k: int| 0 <= k < inner.len() && inner[k] == t;
                    assert(next[k] == t);
                } else {
                    assert(next[inner.len() as int] == t);
                }
            }
            if t == time {
                assert(inner.contains(t));
                let k = choose|k: int| 0 <= k < inner.len() && inner[k] == t;
                assert(next[k] == t);
            }
        }
    }
}

proof fn times_are_ascending(sung: Seq<Sung>)
    ensures
        forall|i: int, j: int| 0 <= i < j < times_of(sung).len() ==> times_of(sung)[i] < times_of(sung)[j],
        forall|t: int| #[trigger] times_of(sung).contains(t) <==> is_sung_at(sung, t),
    decreases sung.len(),
{
    if sung.len() > 0 {
        let front = sung.drop_last();
        times_are_ascending(front);
        with_time_is_ascending(times_of(front), sung.last().time_ms);
        assert forall|t: int| #[trigger] times_of(sung).contains(t) <==> is_sung_at(sung, t) by {
            if times_of(front).contains(t) {
                let k = choose|k: int| 0 <= k < front.len() && (#[trigger] front[k]).time_ms == t;
                assert(sung[k].time_ms == t);
            }
            if t == sung.last().time_ms {
                assert(sung[sung.len() - 1].time_ms == t);
            }
            if is_sung_at(sung, t) {
                let k = choose|k: int| 0 <= k < sung.len() && (#[trigger] sung[k]).time_ms == t;
                if k < front.len() {
                    assert(front[k].time_ms == t);
                }
            }
        }
    }
}

/// A timeline runs forward, and it has a cue at a time exactly where something is stamped
/// with that time.
pub proof fn timelines_run_forward(sung: Seq<Sung>)
    ensures
        ascending(timeline(sung)),
        forall|t: int| #[trigger] has_cue_at(timeline(sung), t) <==> is_sung_at(sung, t),
{
    times_are_ascending(sung);
    let times = times_of(sung);
    assert forall|t: int| #[trigger] has_cue_at(timeline(sung), t) <==> is_sung_at(sung, t) by {
        if times.contains(t) {
            let i = choose|i: int| 0 <= i < times.len() && times[i] == t;
            assert(timeline(sung)[i].time_ms == t);
        }
    }
}

spec fn times_fit(sung: Seq<Sung>) -> bool {
    forall|k: int| 0 <= k < sung.len() ==> 0 <= (#[trigger] sung[k]).time_ms <= i64::MAX
}

proof fn sung_times_fit(line: Seq<char>, words: Seq<char>, offset: int, end: int)
    ensures
        times_fit(sung_before(line, words, offset, end)),
    decreases end,
{
    if end > 0 {
        sung_times_fit(line, words, offset, end - 1);
    }
}

proof fn sung_in_lines_times_fit(lines: Seq<Seq<char>>, offset: int)
    ensures
        times_fit(sung_in_lines(lines, offset)),
    decreases lines.len(),
{
    if lines.len() > 0 {
        sung_in_lines_times_fit(lines.drop_last(), offset);
        let line = lines.last();
        sung_times_fit(line, stripped(line), offset, line.len() as int);
    }
}

/// The cues of every LRC file run forward, and none comes before the start: offsets never
/// push a cue below zero.
pub proof fn lrc_cues_run_forward(raw: Seq<char>)
    ensures
        ascending(lrc_cues(raw)),
        forall|i: int| 0 <= i < lrc_cues(raw).len() ==> 0 <= (#[trigger] lrc_cues(raw)[i]).time_ms <= i64::MAX,
{
    let lines = split(html_decoded(raw), at_any(line_ends()));
    let sung = sung_in_lines(lines, offset_of(raw));
    timelines_run_forward(sung);
    sung_in_lines_times_fit(lines, offset_of(raw));
    assert forall|i: int| 0 <= i < lrc_cues(raw).len() implies 0 <= (#[trigger] lrc_cues(
        raw,
    )[i]).time_ms <= i64::MAX by {
        let t = timeline(sung)[i].time_ms;
        assert(has_cue_at(timeline(sung), t));
        let k = choose|k: int| 0 <= k < sung.len() && (#[trigger] sung[k]).time_ms == t;
        assert(sung[k].time_ms == t);
    }
}

proof fn lines_without_brackets_are_not_sung(lines: Seq<Seq<char>>, offset: int)
    requires
        forall|i: int| 0 <= i < lines.len() ==> !(#[trigger] lines[i]).contains('['),
    ensures
        sung_in_lines(lines, offset).len() == 0,
    decreases lines.len(),
{
    if lines.len() > 0 {
        let front = lines.drop_last();
        assert forall|i: int| 0 <= i < front.len() implies !(#[trigger] front[i]).contains('[') by {
            assert(!lines[i].contains('['));
        }
        lines_without_brackets_are_not_sung(front, offset);
        let line = lines.last();
        assert(!lines[lines.len() - 1].contains('['));
        no_stamp_without_a_bracket(line, stripped(line), offset, line.len() as int);
    }
}

proof fn no_stamp_without_a_bracket(line: Seq<char>, words: Seq<char>, offset: int, end: int)
    requires
        !line.contains('['),
        end <= line.len(),
    ensures
        sung_before(line, words, offset, end).len() == 0,
    decreases end,
{
    if end > 0 {
        no_stamp_without_a_bracket(line, words, offset, end - 1);
        assert(line[end - 1] != '[');
    }
}

/// No timings are invented: a text without stamps has no cues.
pub proof fn plain_text_has_no_cues(decoded: Seq<char>, offset: int)
    requires
        !decoded.contains('['),
    ensures
        decoded_cues(decoded, offset).len() == 0,
{
    let cut = at_any(line_ends());
    let lines = split(decoded, cut);
    assert forall|i: int| 0 <= i < lines.len() implies !(#[trigger] lines[i]).contains('[') by {
        if lines[i].contains('[') {
            let j = choose|j: int| 0 <= j < lines[i].len() && lines[i][j] == '[';
            pieces_hold_only_the_text(decoded, cut, i, j);
        }
    }
    lines_without_brackets_are_not_sung(lines, offset);
}

// ------------------------------------------------------------------ moving by an offset

/// Whether two timelines have the same cues, each of them `n` milliseconds earlier in the
/// second one.
pub open spec fn is_earlier_by(cues: Seq<CueView>, moved: Seq<CueView>, n: int) -> bool {
    &&& moved.len() == cues.len()
    &&& forall|i: int|
        0 <= i < cues.len() ==> (#[trigger] moved[i]).text == cues[i].text && moved[i].time_ms
            == cues[i].time_ms - n
}

/// Whether every cue can be moved `n` milliseconds ahead without leaving the range of times.
pub open spec fn can_move(cues: Seq<CueView>, n: int) -> bool {
    forall|i: int| 0 <= i < cues.len() ==> 0 <= (#[trigger] cues[i]).time_ms - n <= i64::MAX
}

/// What is sung, with each time moved by an offset.
spec fn moved_sung(sung: Seq<Sung>, offset: int) -> Seq<Sung> {
    sung.map_values(|s: Sung| Sung { time_ms: cue_time(s.time_ms, offset), words: s.words })
}

proof fn stamp_times_fit(s: Seq<char>, at: int)
    requires
        stamp_at(s, at) is Some,
    ensures
        0 <= stamp_millis(stamp_at(s, at)->0) <= 59_999_999,
{
    let stamp = stamp_at(s, at)->0;
    let colon = at + 1 + digit_run(s, at + 1, 3);
    let after = colon + 3;
    digit_run_is_digits(s, at + 1, 3);
    assert forall|j: int| 0 <= j < stamp.minutes.len() implies decimal_digit(
        #[trigger] stamp.minutes[j],
    ) by {
        assert(decimal_digit(s[at + 1 + j]));
    }
    number_of_three_digits(stamp.minutes);
    assert(stamp.seconds[0] == s[colon + 1]);
    assert(stamp.seconds[1] == s[colon + 2]);
    number_of_three_digits(stamp.seconds);
    if let Some(fraction) = stamp.fraction {
        digit_run_is_digits(s, after + 1, 3);
        assert forall|j: int| 0 <= j < fraction.len() implies decimal_digit(
            #[trigger] fraction[j],
        ) by {
            assert(decimal_digit(s[after + 1 + j]));
        }
        reveal_with_fuel(left_aligned, 3);
        number_of_three_digits(left_aligned(fraction));
    }
}

proof fn an_offset_moves_a_line(line: Seq<char>, words: Seq<char>, offset: int, end: int)
    ensures
        sung_before(line, words, offset, end) == moved_sung(
            sung_before(line, words, 0, end),
            offset,
        ),
    decreases end,
{
    let plain = sung_before(line, words, 0, end);
    if end > 0 {
        an_offset_moves_a_line(line, words, offset, end - 1);
        if stamp_at(line, end - 1) is Some {
            stamp_times_fit(line, end - 1);
        }
    }
    assert(sung_before(line, words, offset, end) =~= moved_sung(plain, offset));
}

proof fn an_offset_moves_the_lines(lines: Seq<Seq<char>>, offset: int)
    ensures
        sung_in_lines(lines, offset) == moved_sung(sung_in_lines(lines, 0), offset),
    decreases lines.len(),
{
    if lines.len() > 0 {
        let line = lines.last();
        an_offset_moves_the_lines(lines.drop_last(), offset);
        an_offset_moves_a_line(line, stripped(line), offset, line.len() as int);
    }
    assert(sung_in_lines(lines, offset) =~= moved_sung(sung_in_lines(lines, 0), offset));
}

spec fn earlier(times: Seq<int>, n: int) -> Seq<int> {
    times.map_values(|t: int| t - n)
}

proof fn earlier_times_are_inserted_alike(times: Seq<int>, time: int, n: int)
    ensures
        with_time(earlier(times, n), time - n) == earlier(with_time(times, time), n),
    decreases times.len(),
{
    if times.len() > 0 && times.last() > time {
        earlier_times_are_inserted_alike(times.drop_last(), time, n);
        assert(earlier(times, n).drop_last() =~= earlier(times.drop_last(), n));
    }
    assert(with_time(earlier(times, n), time - n) =~= earlier(with_time(times, time), n));
}

proof fn an_earlier_timeline(sung: Seq<Sung>, n: int)
    requires
        forall|k: int| 0 <= k < sung.len() ==> 0 <= (#[trigger] sung[k]).time_ms - n <= i64::MAX,
    ensures
        times_of(moved_sung(sung, n)) == earlier(times_of(sung), n),
        forall|t: int| #[trigger] words_at(moved_sung(sung, n), t - n) == words_at(sung, t),
    decreases sung.len(),
{
    let moved = moved_sung(sung, n);
    if sung.len() > 0 {
        let front = sung.drop_last();
        assert forall|k: int| 0 <= k < front.len() implies 0 <= (#[trigger] front[k]).time_ms - n
            <= i64::MAX by {
            assert(front[k] == sung[k]);
        }
        an_earlier_timeline(front, n);
        assert(moved.drop_last() =~= moved_sung(front, n));
        assert(sung.last() == sung[sung.len() - 1]);
        assert(moved.last().time_ms == sung.last().time_ms - n);
        earlier_times_are_inserted_alike(times_of(front), sung.last().time_ms, n);
        assert forall|t: int| #[trigger] words_at(moved, t - n) == words_at(sung, t) by {
            assert(words_at(moved_sung(front, n), t - n) == words_at(front, t));
        }
    } else {
        assert(times_of(moved) =~= earlier(times_of(sung), n));
    }
}

/// An offset moves every cue by exactly that amount, where this leaves none of them before the
/// start.
pub proof fn an_offset_moves_every_cue(decoded: Seq<char>, n: int)
    requires
        can_move(decoded_cues(decoded, 0), n),
    ensures
        is_earlier_by(decoded_cues(decoded, 0), decoded_cues(decoded, n), n),
{
    let lines = split(decoded, at_any(line_ends()));
    let sung = sung_in_lines(lines, 0);
    let cues = decoded_cues(decoded, 0);
    let moved = decoded_cues(decoded, n);
    timelines_run_forward(sung);
    assert forall|k: int| 0 <= k < sung.len() implies 0 <= (#[trigger] sung[k]).time_ms - n
        <= i64::MAX by {
        let t = sung[k].time_ms;
        assert(is_sung_at(sung, t));
        assert(has_cue_at(timeline(sung), t));
        let i = choose|i: int| 0 <= i < cues.len() && (#[trigger] cues[i]).time_ms == t;
        assert(cues[i].time_ms == t);
    }
    an_offset_moves_the_lines(lines, n);
    an_earlier_timeline(sung, n);
    assert forall|i: int| 0 <= i < cues.len() implies (#[trigger] moved[i]).text == cues[i].text
        && moved[i].time_ms == cues[i].time_ms - n by {
        let t = times_of(sung)[i];
        assert(words_at(moved_sung(sung, n), t - n) == words_at(sung, t));
    }
}

/// Whether a timeline has a cue that an offset moves to this time.
pub open spec fn has_cue_moved_to(cues: Seq<CueView>, offset: int, time: int) -> bool {
    exists|i: int| 0 <= i < cues.len() && cue_time((#[trigger] cues[i]).time_ms, offset) == time
}

/// Under any offset there is a cue at a time exactly where the file without one has a cue that
/// the offset moves there. One that would come before the start is held at zero.
pub proof fn a_moved_cue_is_held_at_zero(decoded: Seq<char>, offset: int)
    ensures
        forall|t: int| #[trigger]
            has_cue_at(decoded_cues(decoded, offset), t) <==> has_cue_moved_to(
                decoded_cues(decoded, 0),
                offset,
                t,
            ),
{
    let lines = split(decoded, at_any(line_ends()));
    let sung = sung_in_lines(lines, 0);
    let moved = moved_sung(sung, offset);
    let cues = decoded_cues(decoded, 0);
    an_offset_moves_the_lines(lines, offset);
    timelines_run_forward(sung);
    timelines_run_forward(moved);
    assert forall|t: int| #[trigger]
        has_cue_at(decoded_cues(decoded, offset), t) <==> has_cue_moved_to(cues, offset, t) by {
        assert(has_cue_at(timeline(moved), t) <==> is_sung_at(moved, t));
        if is_sung_at(moved, t) {
            let k = choose|k: int| 0 <= k < moved.len() && (#[trigger] moved[k]).time_ms == t;
            assert(is_sung_at(sung, sung[k].time_ms));
            assert(has_cue_at(cues, sung[k].time_ms));
            let i = choose|i: int|
                0 <= i < cues.len() && (#[trigger] cues[i]).time_ms == sung[k].time_ms;
            assert(cue_time(cues[i].time_ms, offset) == t);
        }
        if has_cue_moved_to(cues, offset, t) {
            let i = choose|i: int|
                0 <= i < cues.len() && cue_time((#[trigger] cues[i]).time_ms, offset) == t;
            assert(has_cue_at(cues, cues[i].time_ms));
            assert(is_sung_at(sung, cues[i].time_ms));
            let k = choose|k: int|
                0 <= k < sung.len() && (#[trigger] sung[k]).time_ms == cues[i].time_ms;
            assert(moved[k].time_ms == t);
        }
    }
}

/// An offset tag.
pub open spec fn offset_tag(n: int) -> Seq<char> {
    "[offset:"@ + decimal(n).push(']')
}

/// Whether a file is an offset tag on a line of its own with a body behind it.
pub open spec fn leads_with_offset(text: Seq<char>, n: int, body: Seq<char>) -> bool {
    text == offset_tag(n).push('\n') + body
}

/// Whether there is no offset tag in a text.
pub open spec fn has_no_offset(text: Seq<char>) -> bool {
    forall|at: int| 0 <= at < text.len() ==> #[trigger] offset_at(text, at) is None
}

proof fn no_offset_is_zero(s: Seq<char>, end: int)
    requires
        has_no_offset(s),
        end <= s.len(),
    ensures
        offset_before(s, end) == 0,
    decreases end,
{
    if end > 0 {
        assert(offset_at(s, end - 1) is None);
        no_offset_is_zero(s, end - 1);
    }
}

proof fn digit_run_behind(start: Seq<char>, rest: Seq<char>, from: int, most: nat, behind: nat)
    requires
        0 <= from,
        rest.len() - from <= most,
        rest.len() - from <= behind,
    ensures
        digit_run(start + rest, start.len() + from, behind) == digit_run(rest, from, most),
    decreases rest.len() - from,
{
    let s = start + rest;
    if from < rest.len() {
        assert(s[start.len() + from] == rest[from]);
        if decimal_digit(rest[from]) {
            digit_run_behind(start, rest, from + 1, (most - 1) as nat, (behind - 1) as nat);
        }
    }
}

proof fn offset_behind(start: Seq<char>, rest: Seq<char>, at: int)
    requires
        0 <= at < rest.len(),
    ensures
        offset_at(start + rest, start.len() + at) is None <==> offset_at(rest, at) is None,
{
    reveal_strlit("offset");
    let s = start + rest;
    let shift = start.len() as int;
    let name = "offset"@;
    assert(s[shift + at] == rest[at]);
    assert(tag_name_at(s, shift + at + 1, name) == tag_name_at(rest, at + 1, name)) by {
        if at + 1 + name.len() < rest.len() {
            assert(s[shift + at + 1 + name.len()] == rest[at + 1 + name.len()]);
            if tag_name_at(s, shift + at + 1, name) {
                assert forall|i: int| 0 <= i < name.len() implies same_letter(
                    rest[at + 1 + i],
                    #[trigger] name[i],
                ) by {
                    assert(s[shift + at + 1 + i] == rest[at + 1 + i]);
                    assert(same_letter(s[shift + at + 1 + i], name[i]));
                }
            }
            if tag_name_at(rest, at + 1, name) {
                assert forall|i: int| 0 <= i < name.len() implies same_letter(
                    s[shift + at + 1 + i],
                    #[trigger] name[i],
                ) by {
                    assert(s[shift + at + 1 + i] == rest[at + 1 + i]);
                    assert(same_letter(rest[at + 1 + i], name[i]));
                }
            }
        }
    }
    let value = at + 1 + name.len() + 1;
    if value < rest.len() {
        assert(s[shift + value] == rest[value]);
    }
    let digits = if value < rest.len() && (rest[value] == '+' || rest[value] == '-') {
        value + 1
    } else {
        value
    };
    digit_run_behind(start, rest, digits, rest.len(), s.len());
    let close = digits + digit_run(rest, digits, rest.len());
    if close < rest.len() {
        assert(s[shift + close] == rest[close]);
    }
}

/// An offset tag on a line of its own sets the offset of a body that has none, and adds no cue.
pub proof fn a_leading_offset_tag_only_sets_the_offset(
    n: int,
    body: Seq<char>,
    decoded: Seq<char>,
    offset: int,
)
    requires
        i64::MIN <= n <= i64::MAX,
        has_no_offset(body),
    ensures
        offset_of(body) == 0,
        offset_of(offset_tag(n).push('\n') + body) == n,
        decoded_cues(offset_tag(n).push('\n') + decoded, offset) == decoded_cues(decoded, offset),
{
    no_offset_is_zero(body, body.len() as int);
    the_tag_sets_the_offset(n, body);
    the_tag_is_not_sung(n, decoded, offset);
}

proof fn tag_characters(n: int)
    requires
        i64::MIN <= n <= i64::MAX,
    ensures
        offset_tag(n).len() == 9 + decimal(n).len(),
        offset_tag(n)[0] == '[',
        offset_tag(n)[1] == 'o',
        offset_tag(n).last() == ']',
        forall|i: int| 1 <= i < offset_tag(n).len() ==> #[trigger] offset_tag(n)[i] != '[',
        forall|i: int| 0 <= i < offset_tag(n).len() ==> #[trigger] offset_tag(n)[i] != '\n',
        forall|i: int| 0 <= i < offset_tag(n).len() ==> #[trigger] offset_tag(n)[i] != '\r',
        forall|i: int| 0 <= i < offset_tag(n).len() ==> #[trigger] offset_tag(n)[i] != '&',
        forall|i: int| 0 <= i < decimal(n).len() ==> #[trigger] decimal(n)[i] == '-' || ascii_digit(
            decimal(n)[i],
        ),
{
    reveal_strlit("[offset:");
    decimal_is_read_back(n);
    let digits = decimal(n);
    assert forall|i: int| 0 <= i < digits.len() implies #[trigger] digits[i] == '-' || ascii_digit(
        digits[i],
    ) by {
        if n < 0 && i > 0 {
            assert(digits[i] == decimal(-n)[i - 1]);
        }
    }
    let tag = offset_tag(n);
    assert forall|i: int| 8 <= i < tag.len() - 1 implies #[trigger] tag[i] == digits[i - 8] by {}
}

proof fn the_tag_sets_the_offset(n: int, body: Seq<char>)
    requires
        i64::MIN <= n <= i64::MAX,
        has_no_offset(body),
    ensures
        offset_of(offset_tag(n).push('\n') + body) == n,
{
    let line = offset_tag(n).push('\n');
    let s = line + body;
    tag_characters(n);
    the_tag_is_read(n, body);
    nothing_behind_the_tag(n, body, s.len() as int);
}

proof fn nothing_behind_the_tag(n: int, body: Seq<char>, end: int)
    requires
        i64::MIN <= n <= i64::MAX,
        has_no_offset(body),
        1 <= end <= (offset_tag(n).push('\n') + body).len(),
        offset_at(offset_tag(n).push('\n') + body, 0) == Some(decimal(n)),
    ensures
        offset_before(offset_tag(n).push('\n') + body, end) == n,
    decreases end,
{
    let line = offset_tag(n).push('\n');
    let s = line + body;
    tag_characters(n);
    if end == 1 {
        decimal_is_read_back(n);
    } else {
        let at = end - 1;
        if at < line.len() {
            assert(s[at] == line[at]);
            assert(at < offset_tag(n).len() ==> line[at] == offset_tag(n)[at]);
        } else {
            offset_behind(line, body, at - line.len());
        }
        assert(offset_at(s, at) is None);
        nothing_behind_the_tag(n, body, end - 1);
    }
}

proof fn digit_run_ends(s: Seq<char>, from: int, to: int, most: nat)
    requires
        0 <= from <= to < s.len(),
        to - from <= most,
        forall|j: int| from <= j < to ==> decimal_digit(#[trigger] s[j]),
        !decimal_digit(s[to]),
    ensures
        digit_run(s, from, most) == to - from,
    decreases to - from,
{
    if from < to {
        digit_run_ends(s, from + 1, to, (most - 1) as nat);
    }
}

proof fn the_tag_is_read(n: int, body: Seq<char>)
    requires
        i64::MIN <= n <= i64::MAX,
    ensures
        offset_at(offset_tag(n).push('\n') + body, 0) == Some(decimal(n)),
{
    reveal_strlit("[offset:");
    reveal_strlit("offset");
    tag_characters(n);
    decimal_is_read_back(n);
    let tag = offset_tag(n);
    let s = tag.push('\n') + body;
    let digits = decimal(n);
    let close = 8 + digits.len() as int;
    assert forall|i: int| 0 <= i < tag.len() implies s[i] == tag[i] by {}
    assert forall|i: int| 0 <= i < digits.len() implies s[8 + i] == #[trigger] digits[i] by {
        assert(tag[8 + i] == digits[i]);
    }
    assert(s[close] == ']');
    assert(tag_name_at(s, 1, "offset"@)) by {
        assert(s[7] == tag[7]);
        assert forall|i: int| 0 <= i < "offset"@.len() implies same_letter(
            s[1 + i],
            #[trigger] "offset"@[i],
        ) by {
            assert(s[1 + i] == tag[1 + i]);
        }
    }
    let from: int = if n < 0 {
        9
    } else {
        8
    };
    assert(s[8] == digits[0]);
    if n < 0 {
        assert(digits[0] == '-');
        assert(decimal(-n).len() > 0);
    } else {
        assert(ascii_digit(digits[0]));
    }
    assert forall|j: int| from <= j < close implies decimal_digit(#[trigger] s[j]) by {
        assert(s[8 + (j - 8)] == digits[j - 8]);
        if n < 0 {
            assert(digits[j - 8] == decimal(-n)[j - 9]);
            assert(ascii_digit(decimal(-n)[j - 9]));
        } else {
            assert(ascii_digit(digits[j - 8]));
        }
    }
    digit_run_ends(s, from, close, s.len());
    assert(s.subrange(8, close) =~= digits);
}

proof fn the_tag_is_not_sung(n: int, decoded: Seq<char>, offset: int)
    requires
        i64::MIN <= n <= i64::MAX,
    ensures
        decoded_cues(offset_tag(n).push('\n') + decoded, offset) == decoded_cues(decoded, offset),
{
    let tag = offset_tag(n);
    let cut = at_any(line_ends());
    tag_characters(n);
    assert(cut('\n')) by {
        assert(line_ends()[0] == '\n');
    }
    assert forall|i: int| 0 <= i < tag.len() implies !cut(#[trigger] tag[i]) by {}
    crate::text::a_text_without_cuts_is_one_piece(tag, cut);
    crate::text::a_cut_parts_the_pieces(tag, '\n', decoded, cut);
    assert(sung_in_line(tag, offset) =~= Seq::empty()) by {
        the_tag_has_no_stamp(n, stripped(tag), offset, tag.len() as int);
    }
    a_silent_line_adds_nothing(tag, split(decoded, cut), offset);
}

proof fn the_tag_has_no_stamp(n: int, words: Seq<char>, offset: int, end: int)
    requires
        i64::MIN <= n <= i64::MAX,
        end <= offset_tag(n).len(),
    ensures
        sung_before(offset_tag(n), words, offset, end).len() == 0,
    decreases end,
{
    if end > 0 {
        tag_characters(n);
        the_tag_has_no_stamp(n, words, offset, end - 1);
        let tag = offset_tag(n);
        if end == 1 {
            assert(!decimal_digit(tag[1]));
            assert(digit_run(tag, 1, 3) == 0);
        } else {
            assert(tag[end - 1] != '[');
        }
        assert(stamp_at(tag, end - 1) is None);
    }
}

proof fn a_silent_line_adds_nothing(silent: Seq<char>, lines: Seq<Seq<char>>, offset: int)
    requires
        sung_in_line(silent, offset) == Seq::<Sung>::empty(),
    ensures
        sung_in_lines(seq![silent] + lines, offset) == sung_in_lines(lines, offset),
    decreases lines.len(),
{
    let all = seq![silent] + lines;
    if lines.len() == 0 {
        assert(all.drop_last() =~= Seq::empty());
        assert(all.last() == silent);
        assert(sung_in_lines(all.drop_last(), offset) =~= Seq::empty());
        assert(sung_in_lines(all, offset) =~= Seq::empty());
    } else {
        a_silent_line_adds_nothing(silent, lines.drop_last(), offset);
        assert(all.drop_last() =~= seq![silent] + lines.drop_last());
        assert(all.last() == lines.last());
    }
}

/// The words gathered for one time.
struct Bucket {
    time_ms: i64,
    words: Vec<String>,
}

/// Whether the buckets hold what is sung, in the order of the times.
spec fn gathers(buckets: Seq<Bucket>, sung: Seq<Sung>) -> bool {
    &&& times_of(sung) == Seq::new(buckets.len(), |i: int| buckets[i].time_ms as int)
    &&& forall|i: int|
        0 <= i < buckets.len() ==> (#[trigger] buckets[i]).words.deep_view() == words_at(
            sung,
            buckets[i].time_ms as int,
        )
}

proof fn words_only_at_their_times(sung: Seq<Sung>, time: int)
    requires
        !times_of(sung).contains(time),
    ensures
        words_at(sung, time) == Seq::<Seq<char>>::empty(),
    decreases sung.len(),
{
    if sung.len() > 0 {
        times_are_ascending(sung);
        times_are_ascending(sung.drop_last());
        assert(sung[sung.len() - 1].time_ms != time);
        assert(!times_of(sung.drop_last()).contains(time)) by {
            if times_of(sung.drop_last()).contains(time) {
                let front = sung.drop_last();
                let k = choose|k: int| 0 <= k < front.len() && (#[trigger] front[k]).time_ms == time;
                assert(sung[k].time_ms == time);
            }
        }
        words_only_at_their_times(sung.drop_last(), time);
    }
}

fn gather(buckets: &mut Vec<Bucket>, time: i64, words: &String, Ghost(sung): Ghost<Seq<Sung>>)
    requires
        gathers(old(buckets)@, sung),
    ensures
        gathers(final(buckets)@, sung.push(Sung { time_ms: time as int, words: words@ })),
{
    let ghost before = buckets@;
    let ghost times = times_of(sung);
    let ghost last = Sung { time_ms: time as int, words: words@ };
    let ghost next = sung.push(last);
    let mut at: usize = buckets.len();
    while at > 0 && buckets[at - 1].time_ms > time
        invariant
            at <= buckets@.len(),
            buckets@ == before,
            forall|j: int| at <= j < buckets@.len() ==> (#[trigger] buckets@[j]).time_ms > time,
        decreases at,
    {
        at -= 1;
    }
    proof {
        assert(next.drop_last() =~= sung);
        times_are_ascending(sung);
        with_time_inserts(times, time as int, at as int);
    }
    if at > 0 && buckets[at - 1].time_ms == time {
        let spot = at - 1;
        if !words.as_str().is_empty() && !list_contains(&buckets[spot].words, words.as_str()) {
            let copy = words.clone();
            buckets[spot].words.push(copy);
            assert(buckets@[spot as int].words.deep_view() =~= before[spot as int].words.deep_view().push(words@));
        }
        assert forall|i: int| 0 <= i < buckets@.len() implies (#[trigger] buckets@[i]).words.deep_view()
            == words_at(next, buckets@[i].time_ms as int) by {
            if i != spot {
                assert(buckets@[i] == before[i]);
                assert(times[i] != times[spot as int]);
            }
        }
        assert(times_of(next) =~= Seq::new(buckets@.len(), |i: int| buckets@[i].time_ms as int));
    } else {
        let mut fresh: Vec<String> = Vec::new();
        if !words.as_str().is_empty() {
            fresh.push(words.clone());
        }
        proof {
            assert(!times.contains(time as int)) by {
                if times.contains(time as int) {
                    let k = choose|k: int| 0 <= k < times.len() && times[k] == time;
                    assert(before[k].time_ms == time);
                    if k < at {
                        assert(times[at - 1] == before[at - 1].time_ms);
                        assert(k < at - 1 ==> times[k] < times[at - 1]);
                    }
                }
            }
            words_only_at_their_times(sung, time as int);
            assert(fresh.deep_view() =~= words_at(next, time as int));
        }
        buckets.insert(at, Bucket { time_ms: time, words: fresh });
        assert forall|i: int| 0 <= i < buckets@.len() implies (#[trigger] buckets@[i]).words.deep_view()
            == words_at(next, buckets@[i].time_ms as int) by {
            if i < at {
                assert(buckets@[i] == before[i]);
                assert(times.contains(times[i]));
            } else if i > at {
                assert(buckets@[i] == before[i - 1]);
                assert(times.contains(times[i - 1]));
            }
        }
        assert(times_of(next) =~= Seq::new(buckets@.len(), |i: int| buckets@[i].time_ms as int));
    }
}

fn gather_line(
    buckets: &mut Vec<Bucket>,
    line: &String,
    offset: i64,
    Ghost(sung): Ghost<Seq<Sung>>,
)
    requires
        gathers(old(buckets)@, sung),
    ensures
        gathers(final(buckets)@, sung + sung_in_line(line@, offset as int)),
{
    let chars = chars_of(line.as_str());
    let words = strip_tags(line.as_str());
    let ghost mut said: Seq<Sung> = Seq::empty();
    let mut i: usize = 0;
    assert(sung + said =~= sung);
    while i < chars.len()
        invariant
            i <= chars@.len(),
            chars@ == line@,
            words@ == stripped(line@),
            said == sung_before(line@, words@, offset as int, i as int),
            gathers(buckets@, sung + said),
        decreases chars@.len() - i,
    {
        if let Some((millis, _end)) = read_stamp(&chars, i) {
            let time = moved_time(millis, offset);
            gather(buckets, time, &words, Ghost(sung + said));
            proof {
                let last = Sung { time_ms: time as int, words: words@ };
                assert((sung + said).push(last) =~= sung + said.push(last));
                said = said.push(last);
            }
        }
        i += 1;
    }
}

fn cues_of(buckets: Vec<Bucket>, Ghost(sung): Ghost<Seq<Sung>>) -> (cues: Vec<Cue>)
    requires
        gathers(buckets@, sung),
    ensures
        cues.deep_view() == timeline(sung),
{
    let mut cues: Vec<Cue> = Vec::new();
    let mut i: usize = 0;
    while i < buckets.len()
        invariant
            i <= buckets@.len(),
            cues@.len() == i,
            gathers(buckets@, sung),
            forall|j: int| 0 <= j < i ==> (#[trigger] cues@[j])@ == timeline(sung)[j],
        decreases buckets@.len() - i,
    {
        let text = join_text(&buckets[i].words, "\n");
        assert(times_of(sung)[i as int] == buckets@[i as int].time_ms);
        cues.push(Cue { time_ms: buckets[i].time_ms, text });
        i += 1;
    }
    assert(cues.deep_view() =~= timeline(sung));
    cues
}

/// The cues of a file whose HTML entities have been decoded, moved by `offset`.
pub fn parse_decoded(decoded: &str, offset: i64) -> (cues: Vec<Cue>)
    ensures
        cues.deep_view() == decoded_cues(decoded@, offset as int),
{
    let chars = chars_of(decoded);
    let ends: [char; 2] = ['\n', '\r'];
    let lines = split_any(&chars, &ends);
    assert(ends@ =~= line_ends());
    let ghost all = lines.deep_view();
    let mut buckets: Vec<Bucket> = Vec::new();
    let ghost mut sung: Seq<Sung> = Seq::empty();
    let mut i: usize = 0;
    assert(times_of(sung) =~= Seq::new(0, |i: int| buckets@[i].time_ms as int));
    while i < lines.len()
        invariant
            i <= lines@.len(),
            all == lines.deep_view(),
            sung == sung_in_lines(all.take(i as int), offset as int),
            gathers(buckets@, sung),
        decreases lines@.len() - i,
    {
        gather_line(&mut buckets, &lines[i], offset, Ghost(sung));
        proof {
            assert(all.take(i + 1).drop_last() =~= all.take(i as int));
            assert(all.take(i + 1).last() == lines@[i as int]@);
            sung = sung + sung_in_line(lines@[i as int]@, offset as int);
        }
        i += 1;
    }
    assert(all.take(all.len() as int) =~= all);
    cues_of(buckets, Ghost(sung))
}

/// Read an LRC file. A file without timestamps has no cues. An offset tag before a file that has
/// none makes each of its cues earlier by exactly that much.
pub fn parse_lrc(text: &str) -> (cues: Vec<Cue>)
    ensures
        cues.deep_view() == lrc_cues(text@),
        !text@.contains('&') ==> cues.deep_view() == decoded_cues(text@, offset_of(text@)),
        !text@.contains('&') && !text@.contains('[') ==> cues@.len() == 0,
        forall|n: int, body: Seq<char>| #[trigger]
            leads_with_offset(text@, n, body) && i64::MIN <= n <= i64::MAX && has_no_offset(body)
                && can_move(lrc_cues(body), n) ==> is_earlier_by(
                lrc_cues(body),
                cues.deep_view(),
                n,
            ),
{
    // The offset tag is read before entity decoding.
    let chars = chars_of(text);
    let offset = last_offset(&chars);
    let decoded = unescape(text);
    proof {
        if !text@.contains('[') {
            plain_text_has_no_cues(text@, offset as int);
        }
        assert forall|n: int, body: Seq<char>| #[trigger]
            leads_with_offset(text@, n, body) && i64::MIN <= n <= i64::MAX && has_no_offset(body)
                && can_move(lrc_cues(body), n) implies is_earlier_by(
            lrc_cues(body),
            lrc_cues(text@),
            n,
        ) by {
            let line = offset_tag(n).push('\n');
            tag_characters(n);
            assert(text@.take(line.len() as int) =~= line);
            assert(text@.skip(line.len() as int) =~= body);
            assert(!line.contains('&')) by {
                if line.contains('&') {
                    let i = choose|i: int| 0 <= i < line.len() && line[i] == '&';
                    assert(i < offset_tag(n).len() ==> line[i] == offset_tag(n)[i]);
                }
            }
            assert(html_decoded(text@) == line + html_decoded(body));
            a_leading_offset_tag_only_sets_the_offset(n, body, html_decoded(body), n);
            an_offset_moves_every_cue(html_decoded(body), n);
        }
    }
    parse_decoded(decoded.as_str(), offset)
}

// --------------------------------------------------------------------- active line

/// Where a binary search between `low` and `high` puts a position: behind the cues that
/// are not after it.
pub open spec fn bisected(cues: Seq<CueView>, position_ms: int, low: int, high: int) -> int
    decreases high - low,
{
    if low >= high {
        low
    } else {
        let mid = low + (high - low) / 2;
        if position_ms < cues[mid].time_ms {
            bisected(cues, position_ms, low, mid)
        } else {
            bisected(cues, position_ms, mid + 1, high)
        }
    }
}

/// Whether no cue is earlier than one before it.
pub open spec fn never_goes_back(cues: Seq<CueView>) -> bool {
    forall|i: int, j: int|
        0 <= i <= j < cues.len() ==> (#[trigger] cues[i]).time_ms <= (#[trigger] cues[j]).time_ms
}

/// In a timeline that never goes back, the active line is the last one whose time has come: it
/// has, and the next one's has not.
pub proof fn the_active_line_has_begun_and_the_next_has_not(
    cues: Seq<CueView>,
    position_ms: int,
    line: int,
)
    requires
        never_goes_back(cues),
        line == bisected(cues, position_ms, 0, cues.len() as int) - 1,
    ensures
        -1 <= line < cues.len(),
        forall|i: int| 0 <= i <= line ==> (#[trigger] cues[i]).time_ms <= position_ms,
        forall|i: int| line < i < cues.len() ==> position_ms < (#[trigger] cues[i]).time_ms,
{
    bisected_splits(cues, position_ms, 0, cues.len() as int);
}

proof fn bisected_splits(cues: Seq<CueView>, position_ms: int, low: int, high: int)
    requires
        never_goes_back(cues),
        0 <= low <= high <= cues.len(),
        forall|i: int| 0 <= i < low ==> (#[trigger] cues[i]).time_ms <= position_ms,
        forall|i: int| high <= i < cues.len() ==> position_ms < (#[trigger] cues[i]).time_ms,
    ensures
        low <= bisected(cues, position_ms, low, high) <= high,
        forall|i: int|
            0 <= i < bisected(cues, position_ms, low, high) ==> (#[trigger] cues[i]).time_ms
                <= position_ms,
        forall|i: int|
            bisected(cues, position_ms, low, high) <= i < cues.len() ==> position_ms < (
            #[trigger] cues[i]).time_ms,
    decreases high - low,
{
    if low < high {
        let mid = low + (high - low) / 2;
        if position_ms < cues[mid].time_ms {
            assert forall|i: int| mid <= i < cues.len() implies position_ms < (
            #[trigger] cues[i]).time_ms by {
                assert(cues[mid].time_ms <= cues[i].time_ms);
            }
            bisected_splits(cues, position_ms, low, mid);
        } else {
            assert forall|i: int| 0 <= i < mid + 1 implies (#[trigger] cues[i]).time_ms
                <= position_ms by {
                assert(cues[i].time_ms <= cues[mid].time_ms);
            }
            bisected_splits(cues, position_ms, mid + 1, high);
        }
    }
}

/// Index of the cue covering `position_ms`, or -1 before the first cue.
pub fn active_line(cues: &[Cue], position_ms: i64) -> (line: i64)
    requires
        cues@.len() <= i64::MAX,
    ensures
        line == bisected(cues.deep_view(), position_ms as int, 0, cues@.len() as int) - 1,
        -1 <= line < cues@.len(),
        line >= 0 ==> cues@[line as int].time_ms <= position_ms,
        line + 1 < cues@.len() ==> position_ms < cues@[line + 1].time_ms,
        never_goes_back(cues.deep_view()) ==> {
            &&& forall|i: int| 0 <= i <= line ==> (#[trigger] cues@[i]).time_ms <= position_ms
            &&& forall|i: int|
                line < i < cues@.len() ==> position_ms < (#[trigger] cues@[i]).time_ms
        },
{
    let mut low: usize = 0;
    let mut high: usize = cues.len();
    while low < high
        invariant
            low <= high <= cues@.len(),
            bisected(cues.deep_view(), position_ms as int, 0, cues@.len() as int) == bisected(
                cues.deep_view(),
                position_ms as int,
                low as int,
                high as int,
            ),
            low > 0 ==> cues@[low - 1].time_ms <= position_ms,
            high < cues@.len() ==> position_ms < cues@[high as int].time_ms,
        decreases high - low,
    {
        let mid = low + (high - low) / 2;
        assert(cues.deep_view()[mid as int] == cues@[mid as int]@);
        if position_ms < cues[mid].time_ms {
            high = mid;
        } else {
            low = mid + 1;
        }
    }
    proof {
        let views = cues.deep_view();
        if never_goes_back(views) {
            bisected_splits(views, position_ms as int, 0, views.len() as int);
            assert forall|i: int| 0 <= i < cues@.len() implies (#[trigger] cues@[i]).time_ms
                == views[i].time_ms by {}
        }
    }
    low as i64 - 1
}

} // verus!
