//! Reading LRC files: what a stamp says, which words a cue has, and what tags leave behind.

use vstd::prelude::*;

use crate::lrc::{
    cue_time, decimal_digit, decoded_cues, digit_run, has_cue_at, is_sung_at, left_aligned,
    line_ends, meta_end, meta_value_at, number, offset_at, offset_before, same_letter, stamp_at,
    stamp_millis, stripped, sung_before, sung_in_lines, tag_name_at, timeline,
    timelines_run_forward, times_of, without_meta, without_stamps, words_at, CueView, Sung,
};
use crate::text::{
    a_cut_parts_the_pieces, a_text_without_cuts_is_one_piece, all_digits, ascii_digit, at_any,
    decimal, decimal_is_read_back, digit_char, digits_value, join, position_of, position_of_bounds,
    split, trim, whole_number,
};

verus! {

// ------------------------------------------------------------------------------ stamps

/// A stamp, written out: minutes, two digits of seconds, and perhaps a separator with a
/// fraction.
pub open spec fn written_stamp(
    minutes: Seq<char>,
    seconds: Seq<char>,
    fraction: Option<(char, Seq<char>)>,
) -> Seq<char> {
    seq!['['] + minutes + seq![':'] + seconds + (match fraction {
        Some((separator, digits)) => seq![separator] + digits,
        None => Seq::empty(),
    }) + seq![']']
}

/// Whether these are the parts of a stamp: one to three digits of minutes, seconds below sixty,
/// and one to three digits of a fraction behind a full stop or a colon.
pub open spec fn makes_a_stamp(
    minutes: Seq<char>,
    seconds: Seq<char>,
    fraction: Option<(char, Seq<char>)>,
) -> bool {
    &&& all_digits(minutes)
    &&& minutes.len() <= 3
    &&& all_digits(seconds)
    &&& seconds.len() == 2
    &&& seconds[0] <= '5'
    &&& fraction matches Some((separator, digits)) ==> (separator == '.' || separator == ':')
        && all_digits(digits) && digits.len() <= 3
}

/// How many milliseconds a digit of a fraction counts at this length: hundreds where there is
/// one, tens where there are two.
pub open spec fn fraction_unit(digits: Seq<char>) -> int {
    if digits.len() == 1 {
        100
    } else if digits.len() == 2 {
        10
    } else {
        1
    }
}

/// The time that the parts of a stamp give: 60000 for each minute, 1000 for each second.
pub open spec fn written_time(
    minutes: Seq<char>,
    seconds: Seq<char>,
    fraction: Option<(char, Seq<char>)>,
) -> int {
    60_000 * digits_value(minutes) + 1_000 * digits_value(seconds) + (match fraction {
        Some((separator, digits)) => fraction_unit(digits) * digits_value(digits),
        None => 0,
    })
}

/// Whether a text is words alone: no bracket, and no end of a line.
pub open spec fn plain_words(words: Seq<char>) -> bool {
    forall|i: int|
        0 <= i < words.len() ==> (#[trigger] words[i]) != '[' && words[i] != '\n' && words[i]
            != '\r'
}

proof fn three_digits(s: Seq<char>)
    requires
        all_digits(s),
        s.len() <= 3,
    ensures
        number(s) == digits_value(s),
        digits_value(s) <= 999,
        s.len() == 2 && s[0] <= '5' ==> digits_value(s) <= 59,
        s.len() == 1 ==> digits_value(s) <= 9,
        s.len() == 2 ==> digits_value(s) <= 99,
{
    reveal_with_fuel(digits_value, 5);
    let a = s.drop_last();
    let b = a.drop_last();
    assert(ascii_digit(s.last())) by {
        assert(s.last() == s[s.len() - 1]);
    }
    if a.len() > 0 {
        assert(ascii_digit(a.last())) by {
            assert(a.last() == s[s.len() - 2]);
        }
    }
    if s.len() == 3 {
        assert(ascii_digit(b.last())) by {
            assert(b.last() == s[0]);
        }
    }
    assert(whole_number(s) == Some(digits_value(s) as int));
}

proof fn an_aligned_fraction(s: Seq<char>)
    requires
        all_digits(s),
        s.len() <= 3,
    ensures
        number(left_aligned(s)) == fraction_unit(s) * digits_value(s),
{
    reveal_with_fuel(left_aligned, 4);
    reveal_with_fuel(digits_value, 2);
    let one = s.push('0');
    let two = one.push('0');
    assert(one.drop_last() =~= s);
    assert(two.drop_last() =~= one);
    assert(digits_value(one) == 10 * digits_value(s));
    assert(digits_value(two) == 10 * digits_value(one));
    let all = left_aligned(s);
    assert(all_digits(all));
    three_digits(all);
}

proof fn a_run_of_digits(s: Seq<char>, from: int, to: int, most: nat)
    requires
        0 <= from <= to < s.len(),
        to - from <= most,
        forall|j: int| from <= j < to ==> decimal_digit(#[trigger] s[j]),
        !decimal_digit(s[to]),
    ensures
        digit_run(s, from, most) == to - from,
    decreases to - from,
{
    if from < to {
        a_run_of_digits(s, from + 1, to, (most - 1) as nat);
    }
}

proof fn a_written_stamp_is_read(
    minutes: Seq<char>,
    seconds: Seq<char>,
    fraction: Option<(char, Seq<char>)>,
    words: Seq<char>,
)
    requires
        makes_a_stamp(minutes, seconds, fraction),
    ensures
        ({
            let s = written_stamp(minutes, seconds, fraction) + words;
            &&& stamp_at(s, 0) matches Some(stamp)
            &&& stamp_millis(stamp) == written_time(minutes, seconds, fraction)
            &&& stamp.end == written_stamp(minutes, seconds, fraction).len()
        }),
{
    let text = written_stamp(minutes, seconds, fraction);
    let s = text + words;
    let colon = 1 + minutes.len() as int;
    let after = colon + 3;
    assert forall|j: int| 0 <= j < minutes.len() implies s[1 + j] == #[trigger] minutes[j] by {}
    assert(s[colon] == ':');
    assert(s[colon + 1] == seconds[0]);
    assert(s[colon + 2] == seconds[1]);
    assert(ascii_digit(seconds[0]) && ascii_digit(seconds[1]));
    assert forall|j: int| 1 <= j < colon implies decimal_digit(#[trigger] s[j]) by {
        assert(s[1 + (j - 1)] == minutes[j - 1]);
        assert(ascii_digit(minutes[j - 1]));
    }
    a_run_of_digits(s, 1, colon, 3);
    assert(s.subrange(1, colon) =~= minutes);
    assert(s.subrange(colon + 1, after) =~= seconds);
    three_digits(minutes);
    three_digits(seconds);
    match fraction {
        None => {
            assert(s[after] == ']');
        },
        Some((separator, digits)) => {
            let close = after + 1 + digits.len();
            assert(s[after] == separator);
            assert forall|j: int| 0 <= j < digits.len() implies s[after + 1 + j]
                == #[trigger] digits[j] by {}
            assert forall|j: int| after + 1 <= j < close implies decimal_digit(#[trigger] s[j]) by {
                assert(s[after + 1 + (j - after - 1)] == digits[j - after - 1]);
                assert(ascii_digit(digits[j - after - 1]));
            }
            assert(s[close] == ']');
            a_run_of_digits(s, after + 1, close, 3);
            assert(s.subrange(after + 1, close) =~= digits);
            an_aligned_fraction(digits);
        },
    }
}

proof fn stamp_characters(
    minutes: Seq<char>,
    seconds: Seq<char>,
    fraction: Option<(char, Seq<char>)>,
)
    requires
        makes_a_stamp(minutes, seconds, fraction),
    ensures
        ({
            let text = written_stamp(minutes, seconds, fraction);
            &&& text.len() >= 2
            &&& text[0] == '['
            &&& ascii_digit(text[1])
            &&& forall|i: int|
                1 <= i < text.len() ==> (#[trigger] text[i]) != '[' && text[i] != '\n' && text[i]
                    != '\r'
        }),
{
    let text = written_stamp(minutes, seconds, fraction);
    let colon = 1 + minutes.len() as int;
    assert(text[1] == minutes[0]);
    assert forall|i: int| 1 <= i < text.len() implies (#[trigger] text[i]) != '[' && text[i] != '\n'
        && text[i] != '\r' by {
        if i < colon {
            assert(text[i] == minutes[i - 1]);
            assert(ascii_digit(minutes[i - 1]));
        } else if colon < i < colon + 3 {
            assert(text[i] == seconds[i - colon - 1]);
            assert(ascii_digit(seconds[i - colon - 1]));
        } else if let Some((separator, digits)) = fraction {
            if colon + 3 < i < colon + 4 + digits.len() {
                assert(text[i] == digits[i - colon - 4]);
                assert(ascii_digit(digits[i - colon - 4]));
            }
        }
    }
}

proof fn nothing_to_strip(s: Seq<char>, from: int)
    requires
        0 <= from <= s.len(),
        forall|i: int| from <= i < s.len() ==> meta_end(s, i) is None,
    ensures
        without_meta(s, from) == s.skip(from),
    decreases s.len() - from,
{
    if from < s.len() {
        nothing_to_strip(s, from + 1);
        assert(seq![s[from]] + s.skip(from + 1) =~= s.skip(from));
    } else {
        assert(s.skip(from) =~= Seq::empty());
    }
}

proof fn no_stamps_to_strip(s: Seq<char>, from: int)
    requires
        0 <= from <= s.len(),
        forall|i: int| from <= i < s.len() ==> (#[trigger] s[i]) != '[',
    ensures
        without_stamps(s, from) == s.skip(from),
    decreases s.len() - from,
{
    if from < s.len() {
        no_stamps_to_strip(s, from + 1);
        assert(s[from] != '[');
        assert(seq![s[from]] + s.skip(from + 1) =~= s.skip(from));
    } else {
        assert(s.skip(from) =~= Seq::empty());
    }
}

proof fn a_digit_begins_no_tag(s: Seq<char>, at: int)
    requires
        0 <= at < s.len(),
        ascii_digit(s[at]),
    ensures
        meta_value_at(s, at) is None,
{
    reveal_strlit("ar");
    reveal_strlit("ti");
    reveal_strlit("al");
    reveal_strlit("by");
    reveal_strlit("re");
    reveal_strlit("ve");
    reveal_strlit("length");
    reveal_strlit("offset");
    assert(s[at + 0] == s[at]);
    assert("ar"@[0] == 'a');
    assert("ti"@[0] == 't');
    assert("al"@[0] == 'a');
    assert("by"@[0] == 'b');
    assert("re"@[0] == 'r');
    assert("ve"@[0] == 'v');
    assert("length"@[0] == 'l');
    assert("offset"@[0] == 'o');
}

proof fn one_stamp_in_a_line(line: Seq<char>, words: Seq<char>, time: int, end: int)
    requires
        1 <= end <= line.len(),
        stamp_at(line, 0) matches Some(stamp) && stamp_millis(stamp) == time,
        0 <= time <= i64::MAX,
        forall|i: int| 1 <= i < line.len() ==> (#[trigger] line[i]) != '[',
    ensures
        sung_before(line, words, 0, end) == seq![Sung { time_ms: time, words }],
    decreases end,
{
    reveal_with_fuel(sung_before, 2);
    if end > 1 {
        one_stamp_in_a_line(line, words, time, end - 1);
        assert(line[end - 1] != '[');
        assert(stamp_at(line, end - 1) is None);
    } else {
        assert(sung_before(line, words, 0, 0) =~= Seq::empty());
        assert(sung_before(line, words, 0, 1) =~= seq![Sung { time_ms: time, words }]);
    }
}

proof fn one_time(time: int, words: Seq<char>)
    ensures
        timeline(seq![Sung { time_ms: time, words }]) == seq![CueView { time_ms: time, text: words }],
{
    let said = Sung { time_ms: time, words };
    let sung = seq![said];
    reveal_with_fuel(times_of, 2);
    reveal_with_fuel(words_at, 2);
    reveal_with_fuel(join, 3);
    assert(sung.drop_last() =~= Seq::empty());
    assert(times_of(Seq::empty()) =~= Seq::empty());
    assert(times_of(sung) =~= seq![time]);
    let empty: Seq<Seq<char>> = Seq::empty();
    assert(words_at(Seq::empty(), time) =~= empty);
    if words.len() > 0 {
        assert(words_at(sung, time) =~= seq![words]);
        assert(seq![words].drop_last() =~= empty);
        assert(join(seq![words], "\n"@) =~= words);
    } else {
        assert(words_at(sung, time) =~= empty);
        assert(join(empty, "\n"@) =~= words);
    }
    assert(timeline(sung) =~= seq![CueView { time_ms: time, text: words }]);
}

/// A line with one stamp is one cue, at 60000 milliseconds for each minute of the stamp, 1000 for
/// each second, and its fraction read as a decimal one, with the words of the line.
pub proof fn a_stamped_line_is_one_cue(
    minutes: Seq<char>,
    seconds: Seq<char>,
    fraction: Option<(char, Seq<char>)>,
    words: Seq<char>,
)
    requires
        makes_a_stamp(minutes, seconds, fraction),
        plain_words(words),
    ensures
        decoded_cues(written_stamp(minutes, seconds, fraction) + words, 0) == seq![
            CueView { time_ms: written_time(minutes, seconds, fraction), text: trim(words) },
        ],
{
    let stamp = written_stamp(minutes, seconds, fraction);
    let line = stamp + words;
    let time = written_time(minutes, seconds, fraction);
    let cut = at_any(line_ends());
    a_written_stamp_is_read(minutes, seconds, fraction, words);
    stamp_characters(minutes, seconds, fraction);
    three_digits(minutes);
    three_digits(seconds);
    if let Some((separator, digits)) = fraction {
        three_digits(digits);
    }
    assert forall|i: int| 1 <= i < line.len() implies (#[trigger] line[i]) != '[' && line[i] != '\n'
        && line[i] != '\r' by {
        if i < stamp.len() {
            assert(line[i] == stamp[i]);
        } else {
            assert(line[i] == words[i - stamp.len()]);
        }
    }
    assert(line[0] == stamp[0] && line[1] == stamp[1]);
    assert forall|i: int| 0 <= i < line.len() implies !cut(#[trigger] line[i]) by {
        if i > 0 {
            assert(line[i] != '\n' && line[i] != '\r');
        }
    }
    a_text_without_cuts_is_one_piece(line, cut);
    a_digit_begins_no_tag(line, 1);
    assert forall|i: int| 0 <= i < line.len() implies meta_end(line, i) is None by {
        if i > 0 {
            assert(line[i] != '[');
        }
    }
    nothing_to_strip(line, 0);
    assert(line.skip(0) =~= line);
    no_stamps_to_strip(line, stamp.len() as int);
    assert(line.skip(stamp.len() as int) =~= words);
    assert(without_stamps(line, 0) == words);
    assert(stripped(line) == trim(words));
    one_stamp_in_a_line(line, trim(words), time, line.len() as int);
    let lines = seq![line];
    assert(lines.drop_last() =~= Seq::empty());
    assert(lines.last() == line);
    reveal_with_fuel(sung_in_lines, 2);
    assert(sung_in_lines(Seq::empty(), 0) =~= Seq::empty());
    assert(sung_in_lines(lines, 0) =~= seq![Sung { time_ms: time, words: trim(words) }]);
    one_time(time, trim(words));
}

/// Two decimal digits.
pub open spec fn two_digits(n: int) -> Seq<char> {
    seq![digit_char(n / 10), digit_char(n % 10)]
}

/// Three decimal digits.
pub open spec fn three_digits_of(n: int) -> Seq<char> {
    seq![digit_char(n / 100), digit_char(n / 10 % 10), digit_char(n % 10)]
}

/// A time, written out as a stamp.
pub open spec fn stamp_for(time_ms: int) -> Seq<char> {
    written_stamp(
        decimal(time_ms / 60_000),
        two_digits(time_ms / 1_000 % 60),
        Some(('.', three_digits_of(time_ms % 1_000))),
    )
}

proof fn digits_of_small_numbers(n: int)
    requires
        0 <= n < 1000,
    ensures
        all_digits(decimal(n)),
        decimal(n).len() <= 3,
        digits_value(decimal(n)) == n,
        n < 100 ==> all_digits(two_digits(n)) && digits_value(two_digits(n)) == n,
        n < 60 ==> two_digits(n)[0] <= '5',
        all_digits(three_digits_of(n)),
        digits_value(three_digits_of(n)) == n,
{
    reveal_with_fuel(decimal, 4);
    reveal_with_fuel(digits_value, 4);
    decimal_is_read_back(n);
    let two = two_digits(n);
    let three = three_digits_of(n);
    if n < 100 {
        assert(two.drop_last() =~= seq![digit_char(n / 10)]);
        assert(two.drop_last().drop_last() =~= Seq::empty());
        assert(digits_value(two) == n);
    }
    assert(three.drop_last() =~= seq![digit_char(n / 100), digit_char(n / 10 % 10)]);
    assert(three.drop_last().drop_last() =~= seq![digit_char(n / 100)]);
    assert(three.drop_last().drop_last().drop_last() =~= Seq::empty());
    assert(digits_value(three) == n);
}

/// A time below a thousand minutes that is written out as a stamp is read back as that time. So a
/// stamp one minute on moves its cue exactly 60000 milliseconds.
pub proof fn a_written_time_is_read_back(time_ms: int, words: Seq<char>)
    requires
        0 <= time_ms < 60_000_000,
        plain_words(words),
    ensures
        decoded_cues(stamp_for(time_ms) + words, 0) == seq![
            CueView { time_ms, text: trim(words) },
        ],
{
    let minutes = time_ms / 60_000;
    let seconds = time_ms / 1_000 % 60;
    let rest = time_ms % 1_000;
    digits_of_small_numbers(minutes);
    digits_of_small_numbers(seconds);
    digits_of_small_numbers(rest);
    assert(60_000 * minutes + 1_000 * seconds + rest == time_ms);
    a_stamped_line_is_one_cue(
        decimal(minutes),
        two_digits(seconds),
        Some(('.', three_digits_of(rest))),
        words,
    );
}

// ------------------------------------------------------------------------------- lines

proof fn sung_in_more_lines(a: Seq<Seq<char>>, b: Seq<Seq<char>>, offset: int)
    ensures
        sung_in_lines(a + b, offset) == sung_in_lines(a, offset) + sung_in_lines(b, offset),
    decreases b.len(),
{
    if b.len() == 0 {
        assert(a + b =~= a);
        assert(sung_in_lines(a, offset) + sung_in_lines(b, offset) =~= sung_in_lines(a, offset));
    } else {
        sung_in_more_lines(a, b.drop_last(), offset);
        assert((a + b).drop_last() =~= a + b.drop_last());
        assert((a + b).last() == b.last());
        assert(sung_in_lines(a + b, offset) =~= sung_in_lines(a, offset) + sung_in_lines(b, offset));
    }
}

/// A file of two parts on lines of their own has a cue exactly where one of the parts has one.
pub proof fn every_line_has_its_cues(a: Seq<char>, end: char, b: Seq<char>, offset: int)
    requires
        end == '\n' || end == '\r',
    ensures
        forall|t: int| #[trigger]
            has_cue_at(decoded_cues(a.push(end) + b, offset), t) <==> (has_cue_at(
                decoded_cues(a, offset),
                t,
            ) || has_cue_at(decoded_cues(b, offset), t)),
{
    let cut = at_any(line_ends());
    assert(line_ends()[0] == '\n' && line_ends()[1] == '\r');
    assert(cut(end));
    a_cut_parts_the_pieces(a, end, b, cut);
    sung_in_more_lines(split(a, cut), split(b, cut), offset);
    let x = sung_in_lines(split(a, cut), offset);
    let y = sung_in_lines(split(b, cut), offset);
    timelines_run_forward(x);
    timelines_run_forward(y);
    timelines_run_forward(x + y);
    assert forall|t: int| #[trigger]
        has_cue_at(decoded_cues(a.push(end) + b, offset), t) <==> (has_cue_at(
            decoded_cues(a, offset),
            t,
        ) || has_cue_at(decoded_cues(b, offset), t)) by {
        assert(has_cue_at(timeline(x + y), t) <==> is_sung_at(x + y, t));
        assert(has_cue_at(timeline(x), t) <==> is_sung_at(x, t));
        assert(has_cue_at(timeline(y), t) <==> is_sung_at(y, t));
        if is_sung_at(x + y, t) {
            let k = choose|k: int| 0 <= k < (x + y).len() && (#[trigger] (x + y)[k]).time_ms == t;
            if k < x.len() {
                assert(x[k].time_ms == t);
            } else {
                assert(y[k - x.len()].time_ms == t);
            }
        }
        if is_sung_at(x, t) {
            let k = choose|k: int| 0 <= k < x.len() && (#[trigger] x[k]).time_ms == t;
            assert((x + y)[k].time_ms == t);
        }
        if is_sung_at(y, t) {
            let k = choose|k: int| 0 <= k < y.len() && (#[trigger] y[k]).time_ms == t;
            assert((x + y)[x.len() + k].time_ms == t);
        }
    }
}

/// Whether these words, which are not blank, are sung at a time.
pub open spec fn says_at(sung: Seq<Sung>, time: int, words: Seq<char>) -> bool {
    words.len() > 0 && sung.contains(Sung { time_ms: time, words })
}

/// The words at one time are those that are sung then, blank ones left out, none of them twice.
/// What is sung later in the file only comes behind them.
pub proof fn the_words_of_a_time(sung: Seq<Sung>, time: int, n: int)
    requires
        0 <= n <= sung.len(),
    ensures
        words_at(sung, time).no_duplicates(),
        forall|words: Seq<char>| #[trigger]
            words_at(sung, time).contains(words) <==> says_at(sung, time, words),
        words_at(sung.take(n), time).is_prefix_of(words_at(sung, time)),
    decreases sung.len(),
{
    let all = words_at(sung, time);
    if sung.len() > 0 {
        let front = sung.drop_last();
        let before = words_at(front, time);
        let last = sung.last();
        the_words_of_a_time(front, time, if n < sung.len() {
            n
        } else {
            front.len() as int
        });
        assert(front.push(last) =~= sung);
        assert forall|words: Seq<char>| #[trigger] all.contains(words) <==> says_at(
            sung,
            time,
            words,
        ) by {
            let wanted = Sung { time_ms: time, words };
            if all.contains(words) {
                let k = choose|k: int| 0 <= k < all.len() && all[k] == words;
                if k < before.len() {
                    assert(before[k] == words);
                    assert(before.contains(words));
                    let i = choose|i: int| 0 <= i < front.len() && front[i] == wanted;
                    assert(sung[i] == wanted);
                } else {
                    assert(sung[sung.len() - 1] == wanted);
                }
            }
            if says_at(sung, time, words) {
                let i = choose|i: int| 0 <= i < sung.len() && sung[i] == wanted;
                if i < front.len() {
                    assert(front[i] == wanted);
                    assert(before.contains(words));
                    let k = choose|k: int| 0 <= k < before.len() && before[k] == words;
                    assert(all[k] == words);
                } else if before.contains(words) {
                    let k = choose|k: int| 0 <= k < before.len() && before[k] == words;
                    assert(all[k] == words);
                } else {
                    assert(all[all.len() - 1] == words);
                }
            }
        }
        if n < sung.len() {
            assert(front.take(n) =~= sung.take(n));
        } else {
            assert(sung.take(n) =~= sung);
        }
    } else {
        assert(sung.take(n) =~= sung);
    }
}

// -------------------------------------------------------------------------------- tags

/// The names of the metadata tags.
pub open spec fn is_tag_name(name: Seq<char>) -> bool {
    ||| name == "ar"@
    ||| name == "ti"@
    ||| name == "al"@
    ||| name == "by"@
    ||| name == "re"@
    ||| name == "ve"@
    ||| name == "length"@
    ||| name == "offset"@
}

proof fn a_tag_name_is_read(s: Seq<char>, at: int, name: Seq<char>)
    requires
        is_tag_name(name),
        0 <= at,
        at + name.len() < s.len(),
        s.subrange(at, at + name.len()) == name,
        s[at + name.len()] == ':',
    ensures
        meta_value_at(s, at) == Some(at + name.len() + 1),
{
    reveal_strlit("ar");
    reveal_strlit("ti");
    reveal_strlit("al");
    reveal_strlit("by");
    reveal_strlit("re");
    reveal_strlit("ve");
    reveal_strlit("length");
    reveal_strlit("offset");
    assert forall|i: int| 0 <= i < name.len() implies s[at + i] == #[trigger] name[i] by {
        assert(s.subrange(at, at + name.len())[i] == name[i]);
    }
    assert(tag_name_at(s, at, name));
    assert(name[0] == s[at + 0]);
    assert(name[1] == s[at + 1]);
    assert(tag_name_at(s, at, "ar"@) ==> "ar"@[0] == 'a' && "ar"@[1] == 'r');
    assert(tag_name_at(s, at, "ti"@) ==> "ti"@[0] == 't' && "ti"@[1] == 'i');
    assert(tag_name_at(s, at, "al"@) ==> "al"@[0] == 'a' && "al"@[1] == 'l');
    assert(tag_name_at(s, at, "by"@) ==> "by"@[0] == 'b' && "by"@[1] == 'y');
    assert(tag_name_at(s, at, "re"@) ==> "re"@[0] == 'r' && "re"@[1] == 'e');
    assert(tag_name_at(s, at, "ve"@) ==> "ve"@[0] == 'v' && "ve"@[1] == 'e');
    assert(tag_name_at(s, at, "length"@) ==> "length"@[0] == 'l' && "length"@[1] == 'e');
    assert(tag_name_at(s, at, "offset"@) ==> "offset"@[0] == 'o' && "offset"@[1] == 'f');
}

/// A metadata tag before the words of a line leaves the words.
pub proof fn a_tag_leaves_the_words(name: Seq<char>, value: Seq<char>, words: Seq<char>)
    requires
        is_tag_name(name),
        !value.contains(']'),
        plain_words(words),
    ensures
        stripped(seq!['['] + name + seq![':'] + value + seq![']'] + words) == trim(words),
{
    let s = seq!['['] + name + seq![':'] + value + seq![']'] + words;
    let begin = 1 + name.len() as int + 1;
    let close = begin + value.len();
    assert(s.subrange(1, 1 + name.len() as int) =~= name);
    a_tag_name_is_read(s, 1, name);
    position_of_bounds(s, ']', begin);
    assert(s[close] == ']');
    let found = position_of(s, ']', begin);
    if found < close {
        assert(s[found] == value[found - begin]);
        assert(value.contains(']'));
    }
    assert(found == close);
    assert(meta_end(s, 0) == Some(close + 1));
    assert forall|i: int| close + 1 <= i < s.len() implies meta_end(s, i) is None by {
        assert(s[i] == words[i - close - 1]);
    }
    nothing_to_strip(s, close + 1);
    assert(s.skip(close + 1) =~= words);
    assert(without_meta(s, 0) == words);
    no_stamps_to_strip(words, 0);
    assert(words.skip(0) =~= words);
}

/// The last offset tag of a file counts, wherever it stands.
pub proof fn the_last_offset_counts(s: Seq<char>, at: int, end: int)
    requires
        0 <= at < end <= s.len(),
        offset_at(s, at) is Some,
        forall|i: int| at < i < end ==> #[trigger] offset_at(s, i) is None,
    ensures
        offset_before(s, end) == number(offset_at(s, at)->0),
    decreases end,
{
    if at < end - 1 {
        assert(offset_at(s, end - 1) is None);
        the_last_offset_counts(s, at, end - 1);
    }
}

/// A tag may be written in small letters or capitals.
pub proof fn a_tag_is_known_in_either_case(letter: char, c: char)
    requires
        'a' <= letter <= 'z',
    ensures
        same_letter(letter, letter),
        c as int == letter as int - 32 ==> same_letter(c, letter),
        c <= '\u{7f}' && c != letter && c as int != letter as int - 32 ==> !same_letter(c, letter),
{
}

/// A time is moved ahead by the offset, and held at zero where that leads before the start.
pub proof fn a_time_is_moved_by_the_offset(millis: int, offset: int)
    requires
        0 <= millis,
    ensures
        offset <= millis && millis - offset <= i64::MAX ==> cue_time(millis, offset) == millis
            - offset,
        offset >= millis ==> cue_time(millis, offset) == 0,
        millis <= i64::MAX ==> cue_time(millis, 0) == millis,
{
}

/// A cue holds the different words of its time, line by line, and there is one for every time at
/// which something is sung.
pub proof fn a_cue_holds_the_words_of_its_time(sung: Seq<Sung>, i: int)
    requires
        0 <= i < timeline(sung).len(),
    ensures
        timeline(sung)[i].text == join(words_at(sung, timeline(sung)[i].time_ms), "\n"@),
{
}

proof fn a_row_of_digits_is_counted(s: Seq<char>, from: int, n: nat, most: nat)
    requires
        0 <= from,
        from + n < s.len(),
        n <= most,
        forall|i: int| from <= i < from + n ==> decimal_digit(#[trigger] s[i]),
        !decimal_digit(s[from + n]),
    ensures
        digit_run(s, from, most) == n,
    decreases n,
{
    if n > 0 {
        assert(decimal_digit(s[from]));
        assert forall|i: int| from + 1 <= i < from + n implies decimal_digit(#[trigger] s[i]) by {}
        a_row_of_digits_is_counted(s, from + 1, (n - 1) as nat, (most - 1) as nat);
    }
}

/// An offset is written as digits with a sign before them or none, anywhere in a file.
pub proof fn an_offset_has_a_sign_or_none(
    before: Seq<char>,
    sign: Seq<char>,
    digits: Seq<char>,
    after: Seq<char>,
)
    requires
        sign == Seq::<char>::empty() || sign == seq!['+'] || sign == seq!['-'],
        digits.len() > 0,
        forall|i: int| 0 <= i < digits.len() ==> '0' <= #[trigger] digits[i] <= '9',
    ensures
        offset_at(before + "[offset:"@ + sign + digits + seq![']'] + after, before.len() as int)
            == Some(sign + digits),
{
    reveal_strlit("[offset:");
    reveal_strlit("offset");
    let s = before + "[offset:"@ + sign + digits + seq![']'] + after;
    let at = before.len() as int;
    let name = "offset"@;
    assert("[offset:"@.len() == 8 && name.len() == 6);
    assert(forall|i: int| 0 <= i < 8 ==> #[trigger] s[at + i] == "[offset:"@[i]);
    assert(s[at] == '[');
    assert(s[at + 7] == ':');
    assert(tag_name_at(s, at + 1, name)) by {
        assert(s[at + 1 + 6] == ':');
        assert forall|i: int| 0 <= i < name.len() implies same_letter(
            s[at + 1 + i],
            #[trigger] name[i],
        ) by {
            assert(s[at + (1 + i)] == "[offset:"@[1 + i]);
            assert("[offset:"@[1 + i] == name[i]);
        }
    }
    let value = at + 8;
    let start = value + sign.len();
    assert forall|i: int| start <= i < start + digits.len() implies decimal_digit(
        #[trigger] s[i],
    ) by {
        assert(s[i] == digits[i - start]);
    }
    assert(s[start + digits.len()] == ']');
    a_row_of_digits_is_counted(s, start, digits.len(), s.len());
    assert(s[start] == digits[0]);
    if sign.len() > 0 {
        assert(s[value] == sign[0]);
    }
    assert(s.subrange(value, start + digits.len()) =~= sign + digits);
}

} // verus!
