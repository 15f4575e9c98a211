//! How texts are trimmed, cut and read as numbers.

use vstd::prelude::*;

use crate::codec::{hex_value, percent_byte, unescaped};
use crate::text::{
    ascii_alphanumeric, ascii_digit, ascii_lower, at_white_space, digits_value, filter_last,
    parsed_i64, parsed_u64, position_of, position_of_bounds, split, split_once, trim, trim_end,
    trim_start, white_space, whole_number, words,
};

verus! {

// ------------------------------------------------------------------------------ white space

/// White space is what Unicode lists as such, and nothing else: five controls and a space, the
/// next line and the no-break space, and the spaces and separators of other scripts.
pub proof fn white_space_is_what_unicode_lists(c: char)
    ensures
        white_space(c) <==> {
            let n = c as int;
            (9 <= n <= 13) || n == 32 || n == 133 || n == 160 || n == 5760 || (8192 <= n <= 8202)
                || n == 8232 || n == 8233 || n == 8239 || n == 8287 || n == 12288
        },
{
}

proof fn leading_white_space_goes(before: Seq<char>, s: Seq<char>)
    requires
        forall|i: int| 0 <= i < before.len() ==> white_space(#[trigger] before[i]),
        s.len() == 0 || !white_space(s[0]),
    ensures
        trim_start(before + s) == s,
    decreases before.len(),
{
    if before.len() > 0 {
        let all = before + s;
        assert(all[0] == before[0]);
        assert(all.drop_first() =~= before.drop_first() + s);
        leading_white_space_goes(before.drop_first(), s);
    } else {
        assert(before + s =~= s);
    }
}

proof fn trailing_white_space_goes(s: Seq<char>, after: Seq<char>)
    requires
        forall|i: int| 0 <= i < after.len() ==> white_space(#[trigger] after[i]),
        s.len() == 0 || !white_space(s.last()),
    ensures
        trim_end(s + after) == s,
    decreases after.len(),
{
    if after.len() > 0 {
        let all = s + after;
        assert(all.last() == after[after.len() - 1]);
        assert(all.drop_last() =~= s + after.drop_last());
        trailing_white_space_goes(s, after.drop_last());
    } else {
        assert(s + after =~= s);
    }
}

/// Trimming takes away the white space around a text, all of it and nothing else.
pub proof fn trimming_takes_the_white_space_around(
    before: Seq<char>,
    inside: Seq<char>,
    after: Seq<char>,
)
    requires
        forall|i: int| 0 <= i < before.len() ==> white_space(#[trigger] before[i]),
        forall|i: int| 0 <= i < after.len() ==> white_space(#[trigger] after[i]),
        inside.len() > 0 ==> !white_space(inside[0]) && !white_space(inside.last()),
    ensures
        trim(before + inside + after) == inside,
{
    if inside.len() > 0 {
        assert(before + inside + after =~= before + (inside + after));
        assert((inside + after)[0] == inside[0]);
        leading_white_space_goes(before, inside + after);
        trailing_white_space_goes(inside, after);
    } else {
        let blank = before + inside + after;
        assert forall|i: int| 0 <= i < blank.len() implies white_space(#[trigger] blank[i]) by {
            if i >= before.len() {
                assert(blank[i] == after[i - before.len()]);
            } else {
                assert(blank[i] == before[i]);
            }
        }
        assert(blank + Seq::<char>::empty() =~= blank);
        leading_white_space_goes(blank, Seq::empty());
        assert(inside =~= Seq::empty());
    }
}

/// A text without anything in it has no words.
pub proof fn no_text_has_no_words()
    ensures
        words(Seq::empty()).len() == 0,
{
    let pieces = split(Seq::empty(), at_white_space());
    let keep = |piece: Seq<char>| piece.len() > 0;
    assert(pieces =~= seq![Seq::empty()]);
    filter_last(pieces, keep);
    assert(pieces.drop_last() =~= Seq::empty());
    assert(Seq::<Seq<char>>::empty().filter(keep).len() == 0) by {
        reveal(Seq::filter);
    }
}

/// A text is cut in two at the first place where the character stands, and nowhere else.
pub proof fn a_text_is_cut_at_the_first(before: Seq<char>, c: char, after: Seq<char>)
    requires
        !before.contains(c),
    ensures
        split_once(before.push(c) + after, c) == Some((before, after)),
        split_once(before, c) is None,
{
    let all = before.push(c) + after;
    let at = position_of(all, c, 0);
    position_of_bounds(all, c, 0);
    assert(all[before.len() as int] == c);
    assert(at == before.len()) by {
        if at < before.len() {
            assert(all[at] == before[at]);
        }
    }
    assert(all.take(at) =~= before);
    assert(all.skip(at + 1) =~= after);
    position_of_bounds(before, c, 0);
    if position_of(before, c, 0) < before.len() {
        assert(before[position_of(before, c, 0)] == c);
    }
}

/// A capital letter becomes the small one of the same name, and nothing else changes.
pub proof fn only_capitals_are_lowered(c: char)
    ensures
        'A' <= c <= 'Z' ==> ascii_lower(c) as int == c as int + 32,
        !('A' <= c <= 'Z') ==> ascii_lower(c) == c,
        ascii_lower(ascii_lower(c)) == ascii_lower(c),
        ascii_alphanumeric(ascii_lower(c)) == ascii_alphanumeric(c),
        ascii_digit(c) <==> 48 <= c as int <= 57,
{
}

// ---------------------------------------------------------------------------------- numbers

/// A digit behind a row of digits makes ten times the number, and the digit.
pub proof fn a_digit_makes_ten_times_as_much(s: Seq<char>, c: char)
    requires
        '0' <= c <= '9',
    ensures
        digits_value(Seq::empty()) == 0,
        digits_value(s.push(c)) == 10 * digits_value(s) + (c as int - '0' as int),
{
    assert(s.push(c).drop_last() =~= s);
}

/// A number is read with one sign before it at most, and only where it fits.
pub proof fn a_number_is_read_where_it_fits(s: Seq<char>)
    requires
        s.len() > 0,
        forall|i: int| 0 <= i < s.len() ==> '0' <= #[trigger] s[i] <= '9',
    ensures
        digits_value(s) <= i64::MAX ==> parsed_i64(s) == Some(digits_value(s) as i64) && parsed_i64(
            seq!['+'] + s,
        ) == Some(digits_value(s) as i64) && parsed_i64(seq!['-'] + s) == Some(
            (-(digits_value(s) as int)) as i64,
        ),
        digits_value(s) > i64::MAX ==> parsed_i64(s) is None,
        digits_value(s) <= u64::MAX ==> parsed_u64(s) == Some(digits_value(s) as u64),
        digits_value(s) > u64::MAX ==> parsed_u64(s) is None,
        parsed_u64(seq!['-'] + s) is None,
        parsed_i64(Seq::empty()) is None,
        parsed_u64(Seq::empty()) is None,
{
    let plus = seq!['+'] + s;
    let minus = seq!['-'] + s;
    assert(plus.skip(1) =~= s);
    assert(minus.skip(1) =~= s);
    assert(plus[0] == '+' && minus[0] == '-');
    assert(ascii_digit(s[0]));
}

/// What holds a character that is neither a digit nor a sign at its front is no number.
pub proof fn other_characters_are_no_number(before: Seq<char>, c: char, after: Seq<char>)
    requires
        !('0' <= c <= '9'),
        before.len() > 0 || (c != '+' && c != '-'),
    ensures
        whole_number(before.push(c) + after) is None,
        parsed_i64(before.push(c) + after) is None,
        parsed_u64(before.push(c) + after) is None,
{
    let all = before.push(c) + after;
    assert(all[before.len() as int] == c);
    if before.len() > 0 {
        assert(all.skip(1)[before.len() - 1] == c);
    }
}

// ------------------------------------------------------------------------- percent-encoding

/// Letters, digits and four marks are left alone. Every other byte is written as a percent sign
/// and its two hexadecimal digits.
pub proof fn a_byte_is_written_by_its_digits(b: u8)
    ensures
        (('0' as int <= b <= '9' as int) || ('A' as int <= b <= 'Z' as int) || ('a' as int <= b
            <= 'z' as int) || b == '-' as int || b == '.' as int || b == '_' as int || b
            == '~' as int) ==> percent_byte(b) == seq![b as char],
        !(('0' as int <= b <= '9' as int) || ('A' as int <= b <= 'Z' as int) || ('a' as int <= b
            <= 'z' as int) || b == '-' as int || b == '.' as int || b == '_' as int || b
            == '~' as int) ==> ({
            let written = percent_byte(b);
            &&& written.len() == 3
            &&& written[0] == '%'
            &&& hex_value(written[1] as u8) is Some && hex_value(written[2] as u8) is Some
            &&& 16 * hex_value(written[1] as u8)->0 + hex_value(written[2] as u8)->0 == b
        }),
{
}

/// A percent sign with two hexadecimal digits is one byte, with the value of the digits in either
/// case.
pub proof fn an_escape_is_one_byte(high: u8, low: u8, rest: Seq<u8>)
    ensures
        hex_value(high) is Some && hex_value(low) is Some ==> unescaped(seq![37u8, high, low] + rest)
            == seq![(16 * hex_value(high)->0 + hex_value(low)->0) as u8] + unescaped(rest),
        high != 37 ==> unescaped(seq![high] + rest) == seq![high] + unescaped(rest),
        48 <= high <= 57 ==> hex_value(high) == Some(high - 48),
        65 <= high <= 70 ==> hex_value(high) == Some(high - 65 + 10),
        97 <= high <= 102 ==> hex_value(high) == Some(high - 97 + 10),
{
    let escape = seq![37u8, high, low] + rest;
    assert(escape.skip(3) =~= rest);
    let plain = seq![high] + rest;
    assert(plain.skip(1) =~= rest);
}

} // verus!
