//! Characters and strings: what the rest of the library says about text, and the few
//! operations on it that everything else is written with.

use vstd::prelude::*;

verus! {

/// `String::push` appends one character to the end of the string.
pub assume_specification[ String::push ](s: &mut String, c: char)
    ensures
        final(s)@ == old(s)@.push(c),
;

// ------------------------------------------------------------------- conversions

/// The characters of a string.
pub fn chars_of(s: &str) -> (chars: Vec<char>)
    ensures
        chars@ == s@,
{
    let mut chars: Vec<char> = Vec::new();
    for c in it: s.chars()
        invariant
            chars@ == it.seq().take(it.index() as int),
            it.seq() == s@,
    {
        chars.push(c);
    }
    chars
}

/// The string made of the characters between two positions.
pub fn string_of(chars: &[char], from: usize, to: usize) -> (s: String)
    requires
        from <= to <= chars@.len(),
    ensures
        s@ == chars@.subrange(from as int, to as int),
{
    let mut s = String::new();
    let mut i: usize = from;
    while i < to
        invariant
            from <= i <= to <= chars@.len(),
            s@ == chars@.subrange(from as int, i as int),
        decreases to - i,
    {
        s.push(chars[i]);
        i += 1;
    }
    s
}

/// Whether two strings hold the same characters.
pub fn same(a: &str, b: &str) -> (r: bool)
    ensures
        r == (a@ == b@),
{
    let left = chars_of(a);
    let right = chars_of(b);
    same_chars(&left, &right)
}

/// Whether two character sequences are the same.
pub fn same_chars(a: &[char], b: &[char]) -> (r: bool)
    ensures
        r == (a@ == b@),
{
    if a.len() != b.len() {
        return false;
    }
    let mut i: usize = 0;
    while i < a.len()
        invariant
            a@.len() == b@.len(),
            i <= a@.len(),
            forall|j: int| 0 <= j < i ==> a@[j] == b@[j],
        decreases a@.len() - i,
    {
        if a[i] != b[i] {
            return false;
        }
        i += 1;
    }
    assert(a@ =~= b@);
    true
}

/// Whether a list of strings holds the given one.
pub fn list_contains(list: &[String], wanted: &str) -> (r: bool)
    ensures
        r == list.deep_view().contains(wanted@),
{
    let mut i: usize = 0;
    while i < list.len()
        invariant
            i <= list@.len(),
            forall|j: int| 0 <= j < i ==> (#[trigger] list@[j])@ != wanted@,
        decreases list@.len() - i,
    {
        if same(list[i].as_str(), wanted) {
            assert(list.deep_view()[i as int] == wanted@);
            return true;
        }
        i += 1;
    }
    assert(forall|j: int| 0 <= j < list@.len() ==> list.deep_view()[j] == (#[trigger] list@[j])@);
    false
}

/// A copy of a list of strings.
pub fn copy_list(list: &[String]) -> (copy: Vec<String>)
    ensures
        copy.deep_view() == list.deep_view(),
{
    let mut copy: Vec<String> = Vec::new();
    let mut i: usize = 0;
    while i < list.len()
        invariant
            i <= list@.len(),
            copy@.len() == i,
            forall|j: int| 0 <= j < i ==> (#[trigger] copy@[j])@ == list@[j]@,
        decreases list@.len() - i,
    {
        copy.push(list[i].clone());
        i += 1;
    }
    assert(copy.deep_view() =~= list.deep_view());
    copy
}

// -------------------------------------------------------------------- white space

/// The characters that Unicode gives the `White_Space` property.
pub open spec fn white_space(c: char) -> bool {
    ||| '\u{9}' <= c <= '\u{d}'
    ||| c == ' '
    ||| c == '\u{85}'
    ||| c == '\u{a0}'
    ||| c == '\u{1680}'
    ||| '\u{2000}' <= c <= '\u{200a}'
    ||| c == '\u{2028}'
    ||| c == '\u{2029}'
    ||| c == '\u{202f}'
    ||| c == '\u{205f}'
    ||| c == '\u{3000}'
}

pub fn is_white_space(c: char) -> (r: bool)
    ensures
        r == white_space(c),
{
    ('\u{9}' <= c && c <= '\u{d}') || c == ' ' || c == '\u{85}' || c == '\u{a0}' || c == '\u{1680}'
        || ('\u{2000}' <= c && c <= '\u{200a}') || c == '\u{2028}' || c == '\u{2029}' || c
        == '\u{202f}' || c == '\u{205f}' || c == '\u{3000}'
}

/// The text without the white space it begins with.
pub open spec fn trim_start(s: Seq<char>) -> Seq<char>
    decreases s.len(),
{
    if s.len() > 0 && white_space(s[0]) {
        trim_start(s.drop_first())
    } else {
        s
    }
}

/// The text without the white space it ends with.
pub open spec fn trim_end(s: Seq<char>) -> Seq<char>
    decreases s.len(),
{
    if s.len() > 0 && white_space(s.last()) {
        trim_end(s.drop_last())
    } else {
        s
    }
}

/// The text without the white space around it.
pub open spec fn trim(s: Seq<char>) -> Seq<char> {
    trim_end(trim_start(s))
}

/// The given characters without the white space around them.
pub fn trim_chars(chars: &[char]) -> (s: String)
    ensures
        s@ == trim(chars@),
{
    let mut from: usize = 0;
    assert(chars@.skip(0) == chars@);
    while from < chars.len() && is_white_space(chars[from])
        invariant
            from <= chars@.len(),
            trim_start(chars@) == trim_start(chars@.skip(from as int)),
        decreases chars@.len() - from,
    {
        assert(chars@.skip(from as int).drop_first() == chars@.skip(from + 1));
        from += 1;
    }
    let ghost rest = chars@.skip(from as int);
    assert(trim_start(chars@) == rest);
    let mut to: usize = chars.len();
    assert(chars@.subrange(from as int, to as int) == rest);
    while to > from && is_white_space(chars[to - 1])
        invariant
            from <= to <= chars@.len(),
            trim_end(rest) == trim_end(chars@.subrange(from as int, to as int)),
        decreases to,
    {
        assert(chars@.subrange(from as int, to as int).drop_last() == chars@.subrange(
            from as int,
            to - 1,
        ));
        to -= 1;
    }
    string_of(chars, from, to)
}

/// The string without the white space around it.
pub fn trim_text(s: &str) -> (trimmed: String)
    ensures
        trimmed@ == trim(s@),
{
    let chars = chars_of(s);
    trim_chars(&chars)
}

/// Trimming twice is trimming once.
pub proof fn trim_is_idempotent(s: Seq<char>)
    ensures
        trim(trim(s)) == trim(s),
{
    trim_end_keeps_start(trim_start(s));
    trim_start_is_stable(s);
    trim_end_is_stable(trim_start(s));
}

proof fn trim_start_is_stable(s: Seq<char>)
    ensures
        trim_start(s).len() > 0 ==> !white_space(trim_start(s)[0]),
    decreases s.len(),
{
    if s.len() > 0 && white_space(s[0]) {
        trim_start_is_stable(s.drop_first());
    }
}

proof fn trim_end_is_stable(s: Seq<char>)
    ensures
        trim_end(trim_end(s)) == trim_end(s),
    decreases s.len(),
{
    if s.len() > 0 && white_space(s.last()) {
        trim_end_is_stable(s.drop_last());
    }
}

proof fn trim_end_keeps_start(s: Seq<char>)
    ensures
        trim_end(s).len() <= s.len(),
        trim_end(s).len() > 0 ==> trim_end(s)[0] == s[0],
    decreases s.len(),
{
    if s.len() > 0 && white_space(s.last()) {
        trim_end_keeps_start(s.drop_last());
    }
}

// ------------------------------------------------------------- cutting and joining

/// The pieces between the characters at which `cut` holds. There is always one piece
/// more than there are cuts.
pub open spec fn split(s: Seq<char>, cut: spec_fn(char) -> bool) -> Seq<Seq<char>>
    decreases s.len(),
{
    if s.len() == 0 {
        seq![Seq::empty()]
    } else {
        let before = split(s.drop_last(), cut);
        if cut(s.last()) {
            before.push(Seq::empty())
        } else {
            before.drop_last().push(before.last().push(s.last()))
        }
    }
}

/// Cuts at each of the given separators.
pub open spec fn at_any(separators: Seq<char>) -> spec_fn(char) -> bool {
    |c: char| separators.contains(c)
}

/// Cuts at white space.
pub open spec fn at_white_space() -> spec_fn(char) -> bool {
    |c: char| white_space(c)
}

pub proof fn split_is_never_empty(s: Seq<char>, cut: spec_fn(char) -> bool)
    ensures
        split(s, cut).len() >= 1,
    decreases s.len(),
{
    if s.len() > 0 {
        split_is_never_empty(s.drop_last(), cut);
    }
}

/// The pieces of a text hold only what the text holds.
pub proof fn pieces_hold_only_the_text(s: Seq<char>, cut: spec_fn(char) -> bool, i: int, j: int)
    requires
        0 <= i < split(s, cut).len(),
        0 <= j < split(s, cut)[i].len(),
    ensures
        s.contains(split(s, cut)[i][j]),
    decreases s.len(),
{
    if s.len() > 0 {
        let front = s.drop_last();
        let before = split(front, cut);
        split_is_never_empty(front, cut);
        let c = split(s, cut)[i][j];
        if i < before.len() && j < before[i].len() {
            pieces_hold_only_the_text(front, cut, i, j);
            let k = choose|k: int| 0 <= k < front.len() && front[k] == c;
            assert(s[k] == c);
        } else {
            assert(s[s.len() - 1] == c);
        }
    }
}

/// A text without cuts is one piece.
pub proof fn a_text_without_cuts_is_one_piece(s: Seq<char>, cut: spec_fn(char) -> bool)
    requires
        forall|i: int| 0 <= i < s.len() ==> !cut(#[trigger] s[i]),
    ensures
        split(s, cut) == seq![s],
    decreases s.len(),
{
    if s.len() > 0 {
        let front = s.drop_last();
        assert forall|i: int| 0 <= i < front.len() implies !cut(#[trigger] front[i]) by {
            assert(!cut(s[i]));
        }
        a_text_without_cuts_is_one_piece(front, cut);
        assert(!cut(s[s.len() - 1]));
        assert(front.push(s.last()) =~= s);
        assert(split(s, cut) =~= seq![s]);
    } else {
        assert(s =~= Seq::<char>::empty());
    }
}

/// The pieces on both sides of a cut are the pieces of the whole.
pub proof fn a_cut_parts_the_pieces(
    before: Seq<char>,
    c: char,
    after: Seq<char>,
    cut: spec_fn(char) -> bool,
)
    requires
        cut(c),
    ensures
        split(before.push(c) + after, cut) == split(before, cut) + split(after, cut),
    decreases after.len(),
{
    let s = before.push(c) + after;
    let left = split(before, cut);
    if after.len() == 0 {
        assert(after =~= Seq::<char>::empty());
        assert(s =~= before.push(c));
        assert(s.drop_last() =~= before);
        assert(split(s, cut) =~= left + split(after, cut));
    } else {
        let front = after.drop_last();
        let right = split(front, cut);
        a_cut_parts_the_pieces(before, c, front, cut);
        split_is_never_empty(front, cut);
        assert(s.drop_last() =~= before.push(c) + front);
        assert(s.last() == after.last());
        assert((left + right).last() == right.last());
        assert((left + right).drop_last() =~= left + right.drop_last());
        assert(split(s, cut) =~= left + split(after, cut));
    }
}

fn is_any(c: char, separators: &[char]) -> (r: bool)
    ensures
        r == separators@.contains(c),
{
    let mut i: usize = 0;
    while i < separators.len()
        invariant
            i <= separators@.len(),
            forall|j: int| 0 <= j < i ==> separators@[j] != c,
        decreases separators@.len() - i,
    {
        if separators[i] == c {
            return true;
        }
        i += 1;
    }
    false
}

/// Cut the characters at every separator.
pub fn split_any(chars: &[char], separators: &[char]) -> (pieces: Vec<String>)
    ensures
        pieces.deep_view() == split(chars@, at_any(separators@)),
{
    let mut pieces: Vec<String> = Vec::new();
    let mut current = String::new();
    let mut i: usize = 0;
    let ghost cut = at_any(separators@);
    assert(pieces.deep_view().push(current@) =~= split(chars@.take(0), cut));
    while i < chars.len()
        invariant
            i <= chars@.len(),
            cut == at_any(separators@),
            pieces.deep_view().push(current@) == split(chars@.take(i as int), cut),
        decreases chars@.len() - i,
    {
        let ghost before = split(chars@.take(i as int), cut);
        let ghost done = pieces.deep_view();
        proof {
            assert(chars@.take(i + 1).drop_last() == chars@.take(i as int));
            assert(chars@.take(i + 1).last() == chars@[i as int]);
            assert(before.drop_last() =~= done);
            assert(before.last() == current@);
        }
        if is_any(chars[i], separators) {
            pieces.push(current);
            current = String::new();
            assert(pieces.deep_view() =~= before);
        } else {
            current.push(chars[i]);
        }
        i += 1;
    }
    assert(chars@.take(chars@.len() as int) == chars@);
    let ghost done = pieces.deep_view();
    let ghost last = current@;
    pieces.push(current);
    assert(pieces.deep_view() =~= done.push(last));
    pieces
}

/// The non-empty ones of some pieces.
pub open spec fn non_empty(pieces: Seq<Seq<char>>) -> Seq<Seq<char>> {
    pieces.filter(|piece: Seq<char>| piece.len() > 0)
}

/// The words of a text: what stands between its white space.
pub open spec fn words(s: Seq<char>) -> Seq<Seq<char>> {
    non_empty(split(s, at_white_space()))
}

/// The words on both sides of white space are the words of the whole.
pub proof fn white_space_parts_the_words(before: Seq<char>, c: char, after: Seq<char>)
    requires
        white_space(c),
    ensures
        words(before.push(c) + after) == words(before) + words(after),
{
    a_cut_parts_the_pieces(before, c, after, at_white_space());
    Seq::filter_distributes_over_add(
        split(before, at_white_space()),
        split(after, at_white_space()),
        |piece: Seq<char>| piece.len() > 0,
    );
}

/// A text without white space is one word.
pub proof fn a_text_without_white_space_is_one_word(s: Seq<char>)
    requires
        s.len() > 0,
        forall|i: int| 0 <= i < s.len() ==> !white_space(#[trigger] s[i]),
    ensures
        words(s) == seq![s],
{
    a_text_without_cuts_is_one_piece(s, at_white_space());
    let keep = |piece: Seq<char>| piece.len() > 0;
    filter_last(seq![s], keep);
    reveal(Seq::filter);
    assert(seq![s].drop_last() =~= Seq::<Seq<char>>::empty());
    assert(words(s) =~= seq![s]);
}

/// Cut a text into its words.
pub fn split_words(s: &str) -> (list: Vec<String>)
    ensures
        list.deep_view() == words(s@),
{
    let chars = chars_of(s);
    let mut list: Vec<String> = Vec::new();
    let mut current = String::new();
    let mut i: usize = 0;
    let ghost cut = at_white_space();
    let ghost keep = |piece: Seq<char>| piece.len() > 0;
    proof {
        reveal_with_fuel(Seq::filter, 2);
        assert(split(chars@.take(0), cut) =~= Seq::empty().push(current@));
        assert(list.deep_view() =~= Seq::<Seq<char>>::empty().filter(keep));
        assert(split(chars@.take(0), cut).drop_last() =~= Seq::empty());
    }
    while i < chars.len()
        invariant
            i <= chars@.len(),
            cut == at_white_space(),
            keep == (|piece: Seq<char>| piece.len() > 0),
            split(chars@.take(i as int), cut).len() >= 1,
            current@ == split(chars@.take(i as int), cut).last(),
            list.deep_view() == split(chars@.take(i as int), cut).drop_last().filter(keep),
        decreases chars@.len() - i,
    {
        let ghost before = split(chars@.take(i as int), cut);
        let ghost done = list.deep_view();
        proof {
            assert(chars@.take(i + 1).drop_last() == chars@.take(i as int));
            assert(chars@.take(i + 1).last() == chars@[i as int]);
            filter_last(before, keep);
        }
        if is_white_space(chars[i]) {
            if !current.as_str().is_empty() {
                list.push(current);
                assert(list.deep_view() =~= done.push(before.last()));
            }
            current = String::new();
            assert(before.push(Seq::empty()).drop_last() =~= before);
        } else {
            current.push(chars[i]);
            assert(before.drop_last().push(current@).drop_last() =~= before.drop_last());
        }
        i += 1;
    }
    assert(chars@.take(chars@.len() as int) == chars@);
    let ghost all = split(chars@, cut);
    let ghost done = list.deep_view();
    proof {
        filter_last(all, keep);
    }
    if !current.as_str().is_empty() {
        list.push(current);
        assert(list.deep_view() =~= done.push(all.last()));
    }
    list
}

/// Filtering a sequence is filtering all of it but the last item, then that item.
pub proof fn filter_last<A>(s: Seq<A>, keep: spec_fn(A) -> bool)
    requires
        s.len() > 0,
    ensures
        s.filter(keep) == (if keep(s.last()) {
            s.drop_last().filter(keep).push(s.last())
        } else {
            s.drop_last().filter(keep)
        }),
{
    reveal(Seq::filter);
}

/// The pieces put together with `separator` between them.
pub open spec fn join(pieces: Seq<Seq<char>>, separator: Seq<char>) -> Seq<char>
    decreases pieces.len(),
{
    if pieces.len() == 0 {
        Seq::empty()
    } else if pieces.len() == 1 {
        pieces[0]
    } else {
        join(pieces.drop_last(), separator) + separator + pieces.last()
    }
}

/// Cutting what was put together gives the pieces back, where none of them holds the separator.
pub proof fn joined_pieces_are_cut_again(pieces: Seq<Seq<char>>, separator: char)
    requires
        pieces.len() > 0,
        forall|i: int| 0 <= i < pieces.len() ==> !(#[trigger] pieces[i]).contains(separator),
    ensures
        split(join(pieces, seq![separator]), at_any(seq![separator])) == pieces,
    decreases pieces.len(),
{
    let cut = at_any(seq![separator]);
    let last = pieces.last();
    assert(seq![separator][0] == separator);
    assert forall|i: int| 0 <= i < last.len() implies !cut(#[trigger] last[i]) by {
        assert(!pieces[pieces.len() - 1].contains(separator));
    }
    a_text_without_cuts_is_one_piece(last, cut);
    if pieces.len() == 1 {
        assert(pieces =~= seq![last]);
    } else {
        let front = pieces.drop_last();
        assert forall|i: int| 0 <= i < front.len() implies !(#[trigger] front[i]).contains(
            separator,
        ) by {
            assert(!pieces[i].contains(separator));
        }
        joined_pieces_are_cut_again(front, separator);
        let joined = join(front, seq![separator]);
        assert(joined + seq![separator] + last =~= joined.push(separator) + last);
        a_cut_parts_the_pieces(joined, separator, last, cut);
        assert(front + seq![last] =~= pieces);
    }
}

/// Put strings together with `separator` between them.
pub fn join_text(pieces: &[String], separator: &str) -> (s: String)
    ensures
        s@ == join(pieces.deep_view(), separator@),
{
    let mut s = String::new();
    let mut i: usize = 0;
    let ghost all = pieces.deep_view();
    while i < pieces.len()
        invariant
            i <= pieces@.len(),
            all == pieces.deep_view(),
            s@ == join(all.take(i as int), separator@),
        decreases pieces@.len() - i,
    {
        proof {
            assert(all.take(i + 1).drop_last() =~= all.take(i as int));
            assert(all.take(i + 1).last() == pieces@[i as int]@);
        }
        if i > 0 {
            s.append(separator);
        }
        s.append(pieces[i].as_str());
        assert(i == 0 ==> s@ =~= pieces@[0]@);
        i += 1;
    }
    assert(all.take(all.len() as int) =~= all);
    s
}

/// The first position at or after `from` at which `c` stands, or the length of the text.
pub open spec fn position_of(s: Seq<char>, c: char, from: int) -> int
    decreases s.len() - from,
{
    if from >= s.len() {
        s.len() as int
    } else if s[from] == c {
        from
    } else {
        position_of(s, c, from + 1)
    }
}

pub proof fn position_of_bounds(s: Seq<char>, c: char, from: int)
    requires
        0 <= from <= s.len(),
    ensures
        from <= position_of(s, c, from) <= s.len(),
        position_of(s, c, from) < s.len() ==> s[position_of(s, c, from)] == c,
        forall|j: int| from <= j < position_of(s, c, from) ==> s[j] != c,
    decreases s.len() - from,
{
    if from < s.len() && s[from] != c {
        position_of_bounds(s, c, from + 1);
    }
}

pub fn find_char(chars: &[char], c: char, from: usize) -> (position: usize)
    requires
        from <= chars@.len(),
    ensures
        position == position_of(chars@, c, from as int),
        from <= position <= chars@.len(),
{
    let mut i: usize = from;
    while i < chars.len() && chars[i] != c
        invariant
            from <= i <= chars@.len(),
            position_of(chars@, c, from as int) == position_of(chars@, c, i as int),
        decreases chars@.len() - i,
    {
        i += 1;
    }
    i
}

/// What stands before and after the first `c`, where there is one.
pub open spec fn split_once(s: Seq<char>, c: char) -> Option<(Seq<char>, Seq<char>)> {
    let at = position_of(s, c, 0);
    if at < s.len() {
        Some((s.take(at), s.skip(at + 1)))
    } else {
        None
    }
}

/// Cut a text at the first `c`, where there is one.
pub fn cut_once(s: &str, c: char) -> (parts: Option<(String, String)>)
    ensures
        parts.deep_view() == split_once(s@, c),
{
    let chars = chars_of(s);
    let at = find_char(&chars, c, 0);
    if at < chars.len() {
        let before = string_of(&chars, 0, at);
        let after = string_of(&chars, at + 1, chars.len());
        assert(before@ =~= s@.take(at as int));
        assert(after@ =~= s@.skip(at + 1));
        Some((before, after))
    } else {
        None
    }
}

/// A text is cut once at the first separator.
pub proof fn the_first_separator_cuts(before: Seq<char>, c: char, after: Seq<char>)
    requires
        !before.contains(c),
    ensures
        split_once(before.push(c) + after, c) == Some((before, after)),
{
    let s = before.push(c) + after;
    position_of_bounds(s, c, 0);
    let at = position_of(s, c, 0);
    assert(s[before.len() as int] == c);
    if at < before.len() {
        assert(before[at] == s[at]);
    }
    assert(at == before.len());
    assert(s.take(at) =~= before);
    assert(s.skip(at + 1) =~= after);
}

/// Whether `part` stands in `s` at position `at`.
pub open spec fn stands_at(s: Seq<char>, part: Seq<char>, at: int) -> bool {
    &&& 0 <= at
    &&& at + part.len() <= s.len()
    &&& s.subrange(at, at + part.len()) == part
}

/// Whether `part` stands anywhere in `s`.
pub open spec fn contains_text(s: Seq<char>, part: Seq<char>) -> bool {
    exists|at: int| stands_at(s, part, at)
}

pub fn is_at(chars: &[char], part: &[char], at: usize) -> (r: bool)
    requires
        at <= chars@.len(),
    ensures
        r == stands_at(chars@, part@, at as int),
{
    let total = chars.len();
    if part.len() > total - at {
        return false;
    }
    let mut i: usize = 0;
    while i < part.len()
        invariant
            total == chars@.len(),
            at + part@.len() <= total,
            i <= part@.len(),
            forall|j: int| 0 <= j < i ==> chars@[at + j] == part@[j],
        decreases part@.len() - i,
    {
        if chars[at + i] != part[i] {
            assert(chars@.subrange(at as int, at + part@.len())[i as int] != part@[i as int]);
            return false;
        }
        i += 1;
    }
    assert(chars@.subrange(at as int, at + part@.len()) =~= part@);
    true
}

pub fn has_text(chars: &[char], part: &[char]) -> (r: bool)
    ensures
        r == contains_text(chars@, part@),
{
    let mut at: usize = 0;
    while at < chars.len()
        invariant
            at <= chars@.len(),
            forall|j: int| 0 <= j < at ==> !stands_at(chars@, part@, j),
        decreases chars@.len() - at,
    {
        if is_at(chars, part, at) {
            return true;
        }
        at += 1;
    }
    is_at(chars, part, at)
}

/// Whether a text begins with another one.
pub fn starts_with(s: &str, start: &str) -> (r: bool)
    ensures
        r == stands_at(s@, start@, 0),
{
    let chars = chars_of(s);
    let part = chars_of(start);
    is_at(&chars, &part, 0)
}

/// Several strings in a row.
pub fn concat3(a: &str, b: &str, c: &str) -> (s: String)
    ensures
        s@ == a@ + b@ + c@,
{
    let mut s = String::new();
    s.append(a);
    s.append(b);
    s.append(c);
    assert(s@ =~= a@ + b@ + c@);
    s
}

// ------------------------------------------------------------------------- ASCII

pub open spec fn ascii_lower(c: char) -> char {
    if 'A' <= c <= 'Z' {
        ((c as u8) + 32) as char
    } else {
        c
    }
}

pub fn to_ascii_lower(c: char) -> (lower: char)
    ensures
        lower == ascii_lower(c),
{
    if 'A' <= c && c <= 'Z' {
        ((c as u8) + 32) as char
    } else {
        c
    }
}

pub open spec fn ascii_digit(c: char) -> bool {
    '0' <= c <= '9'
}

pub open spec fn ascii_alphanumeric(c: char) -> bool {
    ||| '0' <= c <= '9'
    ||| 'A' <= c <= 'Z'
    ||| 'a' <= c <= 'z'
}

// ----------------------------------------------------------------------- numbers

/// The character for one decimal digit.
pub open spec fn digit_char(d: int) -> char {
    (48 + d) as char
}

/// A number in decimal notation.
pub open spec fn decimal(n: int) -> Seq<char>
    decreases (if n < 0 { 1 - n } else { n }),
{
    if n < 0 {
        seq!['-'] + decimal(-n)
    } else if n < 10 {
        seq![digit_char(n)]
    } else {
        decimal(n / 10).push(digit_char(n % 10))
    }
}

fn push_decimal(s: &mut String, n: u64)
    ensures
        final(s)@ == old(s)@ + decimal(n as int),
    decreases n,
{
    let digit = 48 + (n % 10) as u8;
    if n >= 10 {
        push_decimal(s, n / 10);
    }
    s.push(digit as char);
    assert(s@ =~= old(s)@ + decimal(n as int));
}

/// Write a number in decimal notation.
pub fn decimal_text(n: i64) -> (s: String)
    ensures
        s@ == decimal(n as int),
{
    let mut s = String::new();
    if n < 0 {
        s.push('-');
        let magnitude = if n == i64::MIN {
            0x8000_0000_0000_0000u64
        } else {
            (-n) as u64
        };
        push_decimal(&mut s, magnitude);
    } else {
        push_decimal(&mut s, n as u64);
    }
    assert(s@ =~= decimal(n as int));
    s
}

/// Write a length in decimal notation.
pub fn length_text(n: usize) -> (s: String)
    ensures
        s@ == decimal(n as int),
{
    let mut s = String::new();
    push_decimal(&mut s, n as u64);
    assert(s@ =~= decimal(n as int));
    s
}

/// The number that a row of decimal digits stands for.
pub open spec fn digits_value(s: Seq<char>) -> nat
    decreases s.len(),
{
    if s.len() == 0 {
        0
    } else {
        digits_value(s.drop_last()) * 10 + (s.last() as nat - 48) as nat
    }
}

/// Whether a text is one or more decimal digits.
pub open spec fn all_digits(s: Seq<char>) -> bool {
    &&& s.len() > 0
    &&& forall|i: int| 0 <= i < s.len() ==> ascii_digit(#[trigger] s[i])
}

/// The whole number written in `s`: digits, with at most one sign before them.
pub open spec fn whole_number(s: Seq<char>) -> Option<int> {
    if all_digits(s) {
        Some(digits_value(s) as int)
    } else if s.len() > 0 && s[0] == '+' && all_digits(s.skip(1)) {
        Some(digits_value(s.skip(1)) as int)
    } else if s.len() > 0 && s[0] == '-' && all_digits(s.skip(1)) {
        Some(-(digits_value(s.skip(1)) as int))
    } else {
        None
    }
}

/// The number written in `s`, where it is one that an `i64` can hold.
pub open spec fn parsed_i64(s: Seq<char>) -> Option<i64> {
    match whole_number(s) {
        Some(n) => if i64::MIN <= n <= i64::MAX {
            Some(n as i64)
        } else {
            None
        },
        None => None,
    }
}

/// The number written in `s`, where it is one that a `u64` can hold. A minus sign is
/// never accepted.
pub open spec fn parsed_u64(s: Seq<char>) -> Option<u64> {
    if s.len() > 0 && s[0] == '-' {
        None
    } else {
        match whole_number(s) {
            Some(n) => if n <= u64::MAX {
                Some(n as u64)
            } else {
                None
            },
            None => None,
        }
    }
}

proof fn decimal_is_digits(n: int)
    requires
        0 <= n,
    ensures
        all_digits(decimal(n)),
        digits_value(decimal(n)) == n,
    decreases n,
{
    if n < 10 {
        let s = decimal(n);
        assert(s.drop_last() =~= Seq::empty());
        assert(digits_value(s.drop_last()) == 0);
        assert(s.last() as nat == 48 + n);
    } else {
        let front = decimal(n / 10);
        decimal_is_digits(n / 10);
        let s = decimal(n);
        assert(s.drop_last() =~= front);
        assert(s.last() as nat == 48 + n % 10);
        assert forall|i: int| 0 <= i < s.len() implies ascii_digit(#[trigger] s[i]) by {
            if i < front.len() {
                assert(s[i] == front[i]);
            }
        }
    }
}

/// A number is read back from its decimal notation.
pub proof fn decimal_is_read_back(n: int)
    requires
        i64::MIN <= n <= i64::MAX,
    ensures
        parsed_i64(decimal(n)) == Some(n as i64),
        n >= 0 ==> all_digits(decimal(n)),
        n < 0 ==> decimal(n) == seq!['-'] + decimal(-n) && all_digits(decimal(-n)),
{
    if n >= 0 {
        decimal_is_digits(n);
    } else {
        decimal_is_digits(-n);
        assert(decimal(n).skip(1) =~= decimal(-n));
        assert(!ascii_digit(decimal(n)[0]));
    }
}

proof fn digits_only_grow(s: Seq<char>, n: int)
    requires
        0 <= n <= s.len(),
    ensures
        digits_value(s.take(n)) <= digits_value(s),
    decreases s.len() - n,
{
    if n < s.len() {
        digits_only_grow(s, n + 1);
        assert(s.take(n + 1).drop_last() == s.take(n));
    } else {
        assert(s.take(n) == s);
    }
}

/// The value of a row of digits, `None` where it is not one, or where it is above 2^64 - 1.
fn digits_to_u64(chars: &[char]) -> (value: Option<u64>)
    ensures
        value == (if all_digits(chars@) && digits_value(chars@) <= u64::MAX {
            Some(digits_value(chars@) as u64)
        } else {
            None
        }),
{
    if chars.len() == 0 {
        return None;
    }
    let mut value: u64 = 0;
    let mut i: usize = 0;
    while i < chars.len()
        invariant
            i <= chars@.len(),
            value == digits_value(chars@.take(i as int)),
            forall|j: int| 0 <= j < i ==> ascii_digit(#[trigger] chars@[j]),
        decreases chars@.len() - i,
    {
        let c = chars[i];
        if !('0' <= c && c <= '9') {
            assert(!ascii_digit(chars@[i as int]));
            return None;
        }
        let digit = (c as u8 - 48) as u64;
        proof {
            assert(chars@.take(i + 1).drop_last() == chars@.take(i as int));
            digits_only_grow(chars@, i + 1);
        }
        match value.checked_mul(10) {
            Some(shifted) => match shifted.checked_add(digit) {
                Some(next) => {
                    value = next;
                },
                None => {
                    return None;
                },
            },
            None => {
                return None;
            },
        }
        i += 1;
    }
    assert(chars@.take(chars@.len() as int) == chars@);
    Some(value)
}

/// Read a number that may carry a sign.
pub fn parse_i64(chars: &[char]) -> (number: Option<i64>)
    ensures
        number == parsed_i64(chars@),
{
    if chars.len() == 0 {
        return None;
    }
    let signed = chars[0] == '+' || chars[0] == '-';
    let start: usize = if signed {
        1
    } else {
        0
    };
    let rest = vstd::slice::slice_subrange(chars, start, chars.len());
    assert(rest@ == chars@.skip(start as int));
    assert(signed ==> !ascii_digit(chars@[0]));
    assert(!signed ==> rest@ == chars@);
    match digits_to_u64(rest) {
        Some(magnitude) => {
            if chars[0] == '-' {
                if magnitude < 0x8000_0000_0000_0000 {
                    Some(-(magnitude as i64))
                } else if magnitude == 0x8000_0000_0000_0000 {
                    Some(i64::MIN)
                } else {
                    None
                }
            } else if magnitude <= i64::MAX as u64 {
                Some(magnitude as i64)
            } else {
                None
            }
        },
        None => None,
    }
}

/// Read a number that cannot be negative.
pub fn parse_u64(chars: &[char]) -> (number: Option<u64>)
    ensures
        number == parsed_u64(chars@),
{
    if chars.len() == 0 {
        return None;
    }
    let start: usize = if chars[0] == '+' {
        1
    } else {
        0
    };
    let rest = vstd::slice::slice_subrange(chars, start, chars.len());
    assert(rest@ == chars@.skip(start as int));
    assert(chars@[0] == '+' || chars@[0] == '-' ==> !ascii_digit(chars@[0]));
    assert(start == 0 ==> rest@ == chars@);
    digits_to_u64(rest)
}

} // verus!
