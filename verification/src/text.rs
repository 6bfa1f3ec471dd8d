//! Text primitives: what the rest of the library says of strings is said over
//! the sequence of their characters.
use vstd::prelude::*;
use vstd::utf8::{
    decode_utf8, encode_utf8, encode_utf8_decode_utf8, encode_utf8_valid_utf8, is_ascii_chars,
    valid_utf8,
};
use crate::outside::{alphabetic, lossy_text, lower_case, white_space};

verus! {

// ---------------------------------------------------------------------------
// Strings and vectors of characters
// ---------------------------------------------------------------------------
/// The characters of a string, in order.
pub fn chars_of(s: &str) -> (v: Vec<char>)
    ensures
        v@ == s@,
{
    let mut v: Vec<char> = Vec::new();
    for c in it: s.chars()
        invariant
            v@ == it.seq().take(it.index() as int),
            it.seq() == s@,
    {
        v.push(c);
    }
    v
}

/// The string made of the characters from position `from` up to, not including,
/// position `to`.
pub fn string_of(v: &Vec<char>, from: usize, to: usize) -> (s: String)
    requires
        from <= to <= v.len(),
    ensures
        s@ == v@.subrange(from as int, to as int),
{
    let mut s = String::new();
    let mut i: usize = from;
    while i < to
        invariant
            from <= i <= to <= v.len(),
            s@ == v@.subrange(from as int, i as int),
        decreases to - i,
    {
        s.push(v[i]);
        i = i + 1;
    }
    s
}

/// Whether two strings hold the same characters.
pub fn same_text(a: &str, b: &str) -> (same: bool)
    ensures
        same == (a@ == b@),
{
    let x = chars_of(a);
    let y = chars_of(b);
    if x.len() != y.len() {
        return false;
    }
    let mut i: usize = 0;
    while i < x.len()
        invariant
            i <= x.len(),
            x.len() == y.len(),
            x@ == a@,
            y@ == b@,
            forall|j: int| 0 <= j < i ==> x@[j] == y@[j],
        decreases x.len() - i,
    {
        if x[i] != y[i] {
            return false;
        }
        i = i + 1;
    }
    assert(a@ =~= b@);
    true
}

/// Two strings one after the other.
pub fn joined(a: &str, b: &str) -> (s: String)
    ensures
        s@ == a@ + b@,
{
    let mut s = String::new();
    s.append(a);
    s.append(b);
    s
}

/// The views of a list of strings.
pub open spec fn texts(v: Seq<String>) -> Seq<Seq<char>> {
    v.map_values(|s: String| s@)
}

/// The view of an optional string.
pub open spec fn opt_text(o: Option<String>) -> Option<Seq<char>> {
    match o {
        Some(s) => Some(s@),
        None => None,
    }
}

/// Whether `text` is one of `list`.
pub fn is_one_of(list: &Vec<&str>, text: &str) -> (found: bool)
    ensures
        found == list@.map_values(|s: &str| s@).contains(text@),
{
    let ghost views = list@.map_values(|s: &str| s@);
    let mut i: usize = 0;
    while i < list.len()
        invariant
            i <= list.len(),
            views == list@.map_values(|s: &str| s@),
            forall|j: int| 0 <= j < i ==> #[trigger] views[j] != text@,
        decreases list.len() - i,
    {
        if same_text(list[i], text) {
            assert(views[i as int] == text@);
            return true;
        }
        i = i + 1;
    }
    false
}

// ---------------------------------------------------------------------------
// Searching
// ---------------------------------------------------------------------------
/// `part` stands in `s` at position `i`.
pub open spec fn occurs_at(s: Seq<char>, part: Seq<char>, i: int) -> bool {
    &&& 0 <= i
    &&& i + part.len() <= s.len()
    &&& s.subrange(i, i + part.len()) == part
}

/// `part` stands somewhere in `s`.
pub open spec fn occurs_in(s: Seq<char>, part: Seq<char>) -> bool {
    exists|i: int| occurs_at(s, part, i)
}

/// `i` is the first position at which `part` stands in `s`.
pub open spec fn first_at(s: Seq<char>, part: Seq<char>, i: int) -> bool {
    &&& occurs_at(s, part, i)
    &&& forall|j: int| 0 <= j < i ==> !occurs_at(s, part, j)
}

/// Whether `part` stands in `s` at position `i`.
pub fn stands_at(s: &Vec<char>, part: &Vec<char>, i: usize) -> (b: bool)
    requires
        i <= s.len(),
    ensures
        b == occurs_at(s@, part@, i as int),
{
    if part.len() > s.len() - i {
        return false;
    }
    let mut j: usize = 0;
    while j < part.len()
        invariant
            j <= part.len(),
            i + part.len() <= s.len(),
            forall|k: int| 0 <= k < j ==> s@[i + k] == part@[k],
        decreases part.len() - j,
    {
        if s[i + j] != part[j] {
            assert(s@.subrange(i as int, i + part@.len())[j as int] != part@[j as int]);
            return false;
        }
        j = j + 1;
    }
    assert(s@.subrange(i as int, i + part@.len()) =~= part@);
    true
}

/// The first position at which `part` stands in `s`.
pub fn find_text(s: &Vec<char>, part: &Vec<char>) -> (r: Option<usize>)
    ensures
        match r {
            Some(i) => first_at(s@, part@, i as int),
            None => !occurs_in(s@, part@),
        },
{
    let mut i: usize = 0;
    while i < s.len()
        invariant
            i <= s.len(),
            forall|j: int| 0 <= j < i ==> !occurs_at(s@, part@, j),
        decreases s.len() - i,
    {
        if stands_at(s, part, i) {
            return Some(i);
        }
        i = i + 1;
    }
    if stands_at(s, part, i) {
        return Some(i);
    }
    None
}

/// Whether `part` stands somewhere in `s`.
pub fn contains_text(s: &str, part: &str) -> (b: bool)
    ensures
        b == occurs_in(s@, part@),
{
    let x = chars_of(s);
    let y = chars_of(part);
    match find_text(&x, &y) {
        Some(_) => true,
        None => false,
    }
}

/// Whether `s` begins with `part`.
pub fn begins_with(s: &str, part: &str) -> (b: bool)
    ensures
        b == occurs_at(s@, part@, 0),
{
    let x = chars_of(s);
    let y = chars_of(part);
    stands_at(&x, &y, 0)
}

/// Whether `s` ends with `part`.
pub fn finishes_with(s: &str, part: &str) -> (b: bool)
    ensures
        b == occurs_at(s@, part@, s@.len() - part@.len()),
{
    let x = chars_of(s);
    let y = chars_of(part);
    if y.len() > x.len() {
        return false;
    }
    stands_at(&x, &y, x.len() - y.len())
}

// ---------------------------------------------------------------------------
// Trimming
// ---------------------------------------------------------------------------
/// `s` without the white space it begins with.
pub open spec fn trimmed_start(s: Seq<char>) -> Seq<char>
    decreases s.len(),
{
    if s.len() > 0 && white_space(s[0]) {
        trimmed_start(s.drop_first())
    } else {
        s
    }
}

/// `s` without the white space it ends with.
pub open spec fn trimmed_end(s: Seq<char>) -> Seq<char>
    decreases s.len(),
{
    if s.len() > 0 && white_space(s.last()) {
        trimmed_end(s.drop_last())
    } else {
        s
    }
}

/// `s` without the white space at either end.
pub open spec fn trimmed(s: Seq<char>) -> Seq<char> {
    trimmed_end(trimmed_start(s))
}

/// A copy of the characters from position `from` on, without the white space at
/// either end.
pub fn trim_from(v: &Vec<char>, from: usize) -> (s: String)
    requires
        from <= v.len(),
    ensures
        s@ == trimmed(v@.skip(from as int)),
{
    let mut start: usize = from;
    while start < v.len() && v[start].is_whitespace()
        invariant
            from <= start <= v.len(),
            trimmed_start(v@.skip(start as int)) == trimmed_start(v@.skip(from as int)),
        decreases v.len() - start,
    {
        assert(v@.skip(start as int).drop_first() =~= v@.skip(start + 1));
        start = start + 1;
    }
    let mut end: usize = v.len();
    assert(v@.subrange(start as int, end as int) =~= v@.skip(start as int));
    while end > start && v[end - 1].is_whitespace()
        invariant
            start <= end <= v.len(),
            trimmed_end(v@.subrange(start as int, end as int)) == trimmed(v@.skip(from as int)),
        decreases end - start,
    {
        assert(v@.subrange(start as int, end as int).drop_last() =~= v@.subrange(
            start as int,
            end - 1,
        ));
        end = end - 1;
    }
    string_of(v, start, end)
}

/// A copy of `s` without the white space at either end.
pub fn trim_text(s: &str) -> (r: String)
    ensures
        r@ == trimmed(s@),
{
    let v = chars_of(s);
    assert(v@.skip(0) =~= v@);
    trim_from(&v, 0)
}

// ---------------------------------------------------------------------------
// Lines
// ---------------------------------------------------------------------------
/// The position of the first `c` in `s`, or the length of `s` if there is none.
pub open spec fn index_or_len(s: Seq<char>, c: char) -> int
    decreases s.len(),
{
    if s.len() == 0 || s[0] == c {
        0
    } else {
        1 + index_or_len(s.drop_first(), c)
    }
}

proof fn lemma_index_or_len(s: Seq<char>, c: char)
    ensures
        0 <= index_or_len(s, c) <= s.len(),
        index_or_len(s, c) < s.len() ==> s[index_or_len(s, c)] == c,
        forall|j: int| 0 <= j < index_or_len(s, c) ==> s[j] != c,
    decreases s.len(),
{
    if s.len() > 0 && s[0] != c {
        lemma_index_or_len(s.drop_first(), c);
        assert forall|j: int| 0 <= j < index_or_len(s, c) implies s[j] != c by {
            if j > 0 {
                assert(s.drop_first()[j - 1] == s[j]);
            }
        }
    }
}

/// A line whose line feed has been taken off, without the carriage return that
/// may stand before it.
pub open spec fn without_return(line: Seq<char>) -> Seq<char> {
    if line.len() > 0 && line.last() == '\r' {
        line.drop_last()
    } else {
        line
    }
}

/// The lines of `s`. A line ends with a line feed, or a carriage return and a
/// line feed, which are not part of it; the last line may end without one.
pub open spec fn lines_of(s: Seq<char>) -> Seq<Seq<char>>
    decreases s.len(),
    via lines_of_shrinks
{
    let n = index_or_len(s, '\n');
    if s.len() == 0 {
        seq![]
    } else if n == s.len() {
        seq![s]
    } else {
        seq![without_return(s.take(n))] + lines_of(s.skip(n + 1))
    }
}

#[via_fn]
proof fn lines_of_shrinks(s: Seq<char>) {
    lemma_index_or_len(s, '\n');
}

fn index_from(v: &Vec<char>, from: usize, c: char) -> (i: usize)
    requires
        from <= v.len(),
    ensures
        from <= i <= v.len(),
        i - from == index_or_len(v@.skip(from as int), c),
{
    let mut i: usize = from;
    while i < v.len() && v[i] != c
        invariant
            from <= i <= v.len(),
            index_or_len(v@.skip(from as int), c) == (i - from) + index_or_len(
                v@.skip(i as int),
                c,
            ),
        decreases v.len() - i,
    {
        assert(v@.skip(i as int).drop_first() =~= v@.skip(i + 1));
        i = i + 1;
    }
    i
}

/// The lines of `text`.
pub fn split_lines(text: &str) -> (lines: Vec<String>)
    ensures
        texts(lines@) == lines_of(text@),
{
    let v = chars_of(text);
    let mut lines: Vec<String> = Vec::new();
    let mut start: usize = 0;
    assert(v@.skip(0) =~= v@);
    while start < v.len()
        invariant
            start <= v.len(),
            v@ == text@,
            lines_of(text@) == texts(lines@) + lines_of(v@.skip(start as int)),
        decreases v.len() - start,
    {
        let end: usize = index_from(&v, start, '\n');
        let ghost rest = v@.skip(start as int);
        let ghost before = texts(lines@);
        proof {
            lemma_index_or_len(rest, '\n');
        }
        if end == v.len() {
            let line = string_of(&v, start, end);
            assert(line@ =~= rest);
            lines.push(line);
            start = end;
            assert(lines_of(v@.skip(start as int)) =~= seq![]);
            assert(texts(lines@) =~= before + seq![rest]);
        } else {
            let stop: usize = if end > start && v[end - 1] == '\r' {
                end - 1
            } else {
                end
            };
            let line = string_of(&v, start, stop);
            assert(rest.take(end - start) =~= v@.subrange(start as int, end as int));
            assert(line@ =~= without_return(rest.take(end - start)));
            lines.push(line);
            let ghost length = end - start;
            start = end + 1;
            assert(rest.skip(length + 1) =~= v@.skip(start as int));
            assert(texts(lines@) =~= before + seq![line@]);
            assert(before + (seq![line@] + lines_of(v@.skip(start as int))) =~= texts(lines@)
                + lines_of(v@.skip(start as int)));
        }
    }
    assert(lines_of(v@.skip(start as int)) =~= seq![]);
    assert(texts(lines@) + seq![] =~= texts(lines@));
    lines
}

/// What stands behind the first colon of a line; nothing if it has no colon.
pub open spec fn after_colon(line: Seq<char>) -> Seq<char>
    decreases line.len(),
{
    if line.len() == 0 {
        line
    } else if line[0] == ':' {
        line.drop_first()
    } else {
        after_colon(line.drop_first())
    }
}

/// What stands behind the first colon of a line, without the white space at
/// either end.
pub fn value_of_line(line: &str) -> (value: String)
    ensures
        value@ == trimmed(after_colon(line@)),
{
    let v = chars_of(line);
    let mut i: usize = 0;
    assert(v@.skip(0) =~= v@);
    while i < v.len() && v[i] != ':'
        invariant
            i <= v.len(),
            v@ == line@,
            after_colon(v@.skip(i as int)) == after_colon(line@),
        decreases v.len() - i,
    {
        assert(v@.skip(i as int).drop_first() =~= v@.skip(i + 1));
        i = i + 1;
    }
    if i < v.len() {
        assert(v@.skip(i as int).drop_first() =~= v@.skip(i + 1));
        trim_from(&v, i + 1)
    } else {
        trim_from(&v, i)
    }
}

// ---------------------------------------------------------------------------
// Bytes
// ---------------------------------------------------------------------------
/// The text that a row of bytes holds: what it encodes if it is UTF-8, and
/// otherwise a text with replacement characters.
pub open spec fn text_in(bytes: Seq<u8>) -> Seq<char> {
    if valid_utf8(bytes) {
        decode_utf8(bytes)
    } else {
        lossy_text(bytes)
    }
}

// ---------------------------------------------------------------------------
// Letters and their case
// ---------------------------------------------------------------------------
/// An ASCII character.
pub open spec fn is_ascii_char(c: char) -> bool {
    c <= '\u{7f}'
}

/// An ASCII letter.
pub open spec fn ascii_letter(c: char) -> bool {
    'A' <= c <= 'Z' || 'a' <= c <= 'z'
}

/// A letter, of ASCII or of the rest of Unicode.
pub open spec fn letter(c: char) -> bool {
    if is_ascii_char(c) {
        ascii_letter(c)
    } else {
        alphabetic(c)
    }
}

/// A text with its ASCII letters in lower case.
pub open spec fn ascii_lower_case(s: Seq<char>) -> Seq<char> {
    s.map_values(|c: char| ascii_lower(c))
}

/// A text in lower case: letter by letter if it is ASCII, and otherwise as
/// Unicode maps it.
pub open spec fn lowered(s: Seq<char>) -> Seq<char> {
    if is_ascii_chars(s) {
        ascii_lower_case(s)
    } else {
        lower_case(s)
    }
}

/// ASCII texts that agree but for their case are the same in lower case.
pub proof fn law_lower_case_ignores_ascii_case(a: Seq<char>, b: Seq<char>)
    requires
        is_ascii_chars(a),
        same_but_ascii_case(a, b),
    ensures
        lowered(a) == lowered(b),
{
    assert forall|i: int| 0 <= i < b.len() implies '\0' <= #[trigger] b[i] <= '\u{7f}' by {
        assert(ascii_lower(a[i]) == ascii_lower(b[i]));
    }
    assert(lowered(a) =~= lowered(b));
}

/// The lower-case form of an ASCII letter; any other character unchanged.
pub open spec fn ascii_lower(c: char) -> char {
    if 'A' <= c && c <= 'Z' {
        ((c as u32 + 32) as u32) as char
    } else {
        c
    }
}

/// Two texts agree but for the case of their ASCII letters.
pub open spec fn same_but_ascii_case(a: Seq<char>, b: Seq<char>) -> bool {
    &&& a.len() == b.len()
    &&& forall|i: int| 0 <= i < a.len() ==> ascii_lower(#[trigger] a[i]) == ascii_lower(b[i])
}

fn lower_ascii(c: char) -> (r: char)
    ensures
        r == ascii_lower(c),
{
    if 'A' <= c && c <= 'Z' {
        (c as u8 + 32u8) as char
    } else {
        c
    }
}

/// Whether two texts agree but for the case of their ASCII letters.
pub fn same_ignoring_ascii_case(a: &str, b: &str) -> (same: bool)
    ensures
        same == same_but_ascii_case(a@, b@),
{
    let x = chars_of(a);
    let y = chars_of(b);
    if x.len() != y.len() {
        return false;
    }
    let mut i: usize = 0;
    while i < x.len()
        invariant
            i <= x.len(),
            x.len() == y.len(),
            x@ == a@,
            y@ == b@,
            forall|j: int| 0 <= j < i ==> ascii_lower(#[trigger] x@[j]) == ascii_lower(y@[j]),
        decreases x.len() - i,
    {
        if lower_ascii(x[i]) != lower_ascii(y[i]) {
            return false;
        }
        i = i + 1;
    }
    true
}

// ---------------------------------------------------------------------------
// Laws
// ---------------------------------------------------------------------------
/// A text occurs in whatever is put around it, at the place where it was put.
pub proof fn law_part_occurs_in_the_whole(before: Seq<char>, part: Seq<char>, after: Seq<char>)
    ensures
        occurs_at(before + part + after, part, before.len() as int),
        occurs_in(before + part + after, part),
{
    let whole = before + part + after;
    assert(whole.subrange(before.len() as int, (before.len() + part.len()) as int) =~= part);
    assert(occurs_at(whole, part, before.len() as int));
}

/// Where a text occurs in another, the other can be cut there into what stands
/// before it, the text, and what stands behind it.
pub proof fn law_occurrence_cuts_the_text(s: Seq<char>, part: Seq<char>, i: int)
    requires
        occurs_at(s, part, i),
    ensures
        0 <= i <= i + part.len() <= s.len(),
        s == s.take(i) + part + s.skip(i + part.len()),
{
    assert forall|k: int| 0 <= k < part.len() implies s[i + k] == part[k] by {
        assert(s.subrange(i, i + part.len())[k] == part[k]);
    }
    assert(s =~= s.take(i) + part + s.skip(i + part.len()));
}

/// A text occurs in another only if the other can be cut around it.
pub proof fn law_what_occurs_is_there(s: Seq<char>, part: Seq<char>)
    requires
        occurs_in(s, part),
    ensures
        exists|i: int|
            0 <= i <= i + part.len() <= s.len() && s == #[trigger] s.take(i) + part + s.skip(
                i + part.len(),
            ),
{
    let i = choose|i: int| occurs_at(s, part, i);
    law_occurrence_cuts_the_text(s, part, i);
}

/// The first position of a text in another is one of its positions, and none is
/// smaller, however the other is cut around it.
pub proof fn law_first_position_is_least(
    s: Seq<char>,
    part: Seq<char>,
    i: int,
    before: Seq<char>,
    after: Seq<char>,
)
    requires
        first_at(s, part, i),
        s == before + part + after,
    ensures
        s == s.take(i) + part + s.skip(i + part.len()),
        i <= before.len(),
{
    law_occurrence_cuts_the_text(s, part, i);
    law_part_occurs_in_the_whole(before, part, after);
}

/// Trimming takes off white space at the ends, all of it and nothing else. The
/// result is where the text that is left begins and ends.
pub proof fn law_trimming_takes_off_white_space(s: Seq<char>) -> (cut: (int, int))
    ensures
        0 <= cut.0 <= cut.1 <= s.len(),
        trimmed(s) == s.subrange(cut.0, cut.1),
        forall|i: int| 0 <= i < cut.0 ==> white_space(#[trigger] s[i]),
        forall|i: int| cut.1 <= i < s.len() ==> white_space(#[trigger] s[i]),
        cut.0 < cut.1 ==> !white_space(s[cut.0]) && !white_space(s[cut.1 - 1]),
{
    let from = lemma_trimmed_start(s);
    let rest = s.skip(from);
    let to = lemma_trimmed_end(rest);
    assert(rest.take(to) =~= s.subrange(from, from + to));
    assert forall|i: int| from + to <= i < s.len() implies white_space(#[trigger] s[i]) by {
        assert(rest[i - from] == s[i]);
    }
    if to > 0 {
        assert(rest[0] == s[from]);
        assert(rest[to - 1] == s[from + to - 1]);
    }
    (from, from + to)
}

proof fn lemma_trimmed_start(s: Seq<char>) -> (from: int)
    ensures
        0 <= from <= s.len(),
        trimmed_start(s) == s.skip(from),
        forall|i: int| 0 <= i < from ==> white_space(#[trigger] s[i]),
        from < s.len() ==> !white_space(s[from]),
    decreases s.len(),
{
    if s.len() > 0 && white_space(s[0]) {
        let rest = s.drop_first();
        let from = lemma_trimmed_start(rest);
        assert(rest.skip(from) =~= s.skip(from + 1));
        assert forall|i: int| 0 <= i < from + 1 implies white_space(#[trigger] s[i]) by {
            if i > 0 {
                assert(rest[i - 1] == s[i]);
            }
        }
        if from < rest.len() {
            assert(rest[from] == s[from + 1]);
        }
        from + 1
    } else {
        assert(s.skip(0) =~= s);
        0
    }
}

proof fn lemma_trimmed_end(s: Seq<char>) -> (to: int)
    ensures
        0 <= to <= s.len(),
        trimmed_end(s) == s.take(to),
        forall|i: int| to <= i < s.len() ==> white_space(#[trigger] s[i]),
        to > 0 ==> !white_space(s[to - 1]),
    decreases s.len(),
{
    if s.len() > 0 && white_space(s.last()) {
        let rest = s.drop_last();
        let to = lemma_trimmed_end(rest);
        assert(rest.take(to) =~= s.take(to));
        assert forall|i: int| to <= i < s.len() implies white_space(#[trigger] s[i]) by {
            if i < s.len() - 1 {
                assert(rest[i] == s[i]);
            }
        }
        if to > 0 {
            assert(rest[to - 1] == s[to - 1]);
        }
        to
    } else {
        assert(s.take(s.len() as int) =~= s);
        s.len() as int
    }
}

proof fn lemma_index_in_front(a: Seq<char>, c: char, rest: Seq<char>)
    requires
        forall|i: int| 0 <= i < a.len() ==> a[i] != c,
    ensures
        index_or_len(a + seq![c] + rest, c) == a.len(),
    decreases a.len(),
{
    let whole = a + seq![c] + rest;
    if a.len() > 0 {
        assert(whole[0] == a[0]);
        assert(whole.drop_first() =~= a.drop_first() + seq![c] + rest);
        lemma_index_in_front(a.drop_first(), c, rest);
    } else {
        assert(whole[0] == c);
    }
}

/// A line feed, with or without a carriage return before it, ends a line and is
/// not part of it; what follows is read by itself.
pub proof fn law_line_feed_ends_a_line(line: Seq<char>, rest: Seq<char>)
    requires
        forall|i: int| 0 <= i < line.len() ==> line[i] != '\n',
    ensures
        lines_of(line + seq!['\r', '\n'] + rest) == seq![line] + lines_of(rest),
        line.len() == 0 || line.last() != '\r' ==> lines_of(line + seq!['\n'] + rest) == seq![line]
            + lines_of(rest),
{
    let with_return = line.push('\r');
    lemma_index_in_front(with_return, '\n', rest);
    let s = with_return + seq!['\n'] + rest;
    assert(line + seq!['\r', '\n'] + rest =~= s);
    assert(s.take(with_return.len() as int) =~= with_return);
    assert(with_return.drop_last() =~= line);
    assert(s.skip((with_return.len() + 1) as int) =~= rest);
    lemma_index_in_front(line, '\n', rest);
    let t = line + seq!['\n'] + rest;
    assert(t.take(line.len() as int) =~= line);
    assert(t.skip((line.len() + 1) as int) =~= rest);
}

/// A text without a line feed is one line, unless it is empty.
pub proof fn law_text_without_line_feed_is_a_line(s: Seq<char>)
    requires
        forall|i: int| 0 <= i < s.len() ==> s[i] != '\n',
    ensures
        lines_of(s) == (if s.len() == 0 {
            seq![]
        } else {
            seq![s]
        }),
{
    lemma_index_or_len(s, '\n');
}

/// The first colon of a line separates a label from a value; without a colon
/// there is no value.
pub proof fn law_first_colon_separates(label: Seq<char>, value: Seq<char>)
    requires
        forall|i: int| 0 <= i < label.len() ==> label[i] != ':',
    ensures
        after_colon(label + seq![':'] + value) == value,
        after_colon(label).len() == 0,
    decreases label.len(),
{
    let line = label + seq![':'] + value;
    if label.len() > 0 {
        assert(line[0] == label[0]);
        assert(line.drop_first() =~= label.drop_first() + seq![':'] + value);
        law_first_colon_separates(label.drop_first(), value);
    } else {
        assert(line.drop_first() =~= value);
    }
}

/// The lower-case form of each of the 26 capital letters is the small letter in
/// the same place of the alphabet; other characters are their own.
pub proof fn law_alphabet_in_lower_case(c: char, i: int)
    ensures
        ({
            let capitals = "ABCDEFGHIJKLMNOPQRSTUVWXYZ"@;
            let small = "abcdefghijklmnopqrstuvwxyz"@;
            &&& 0 <= i < 26 && c == capitals[i] ==> ascii_lower(c) == small[i]
            &&& !capitals.contains(c) ==> ascii_lower(c) == c
        }),
{
    reveal_strlit("ABCDEFGHIJKLMNOPQRSTUVWXYZ");
    reveal_strlit("abcdefghijklmnopqrstuvwxyz");
    let capitals = "ABCDEFGHIJKLMNOPQRSTUVWXYZ"@;
    if 'A' <= c && c <= 'Z' {
        let k = c as u32 - 65;
        assert(capitals[k] == c);
        assert(capitals.contains(c));
    }
}

/// The ASCII letters are those of the alphabet, capital and small; of the other
/// characters only ones outside ASCII can be letters.
pub proof fn law_letters_are_those_of_the_alphabet(c: char)
    ensures
        ({
            let capitals = "ABCDEFGHIJKLMNOPQRSTUVWXYZ"@;
            let small = "abcdefghijklmnopqrstuvwxyz"@;
            &&& capitals.contains(c) || small.contains(c) ==> letter(c)
            &&& c as u32 <= 127 && letter(c) ==> capitals.contains(c) || small.contains(c)
            &&& c as u32 > 127 ==> letter(c) == alphabetic(c)
        }),
{
    reveal_strlit("ABCDEFGHIJKLMNOPQRSTUVWXYZ");
    reveal_strlit("abcdefghijklmnopqrstuvwxyz");
    let capitals = "ABCDEFGHIJKLMNOPQRSTUVWXYZ"@;
    let small = "abcdefghijklmnopqrstuvwxyz"@;
    if 'A' <= c && c <= 'Z' {
        assert(capitals[c as u32 - 65] == c);
    }
    if 'a' <= c && c <= 'z' {
        assert(small[c as u32 - 97] == c);
    }
}

/// An ASCII text in lower case has the same characters but for their case, and no
/// capital letter; any other text is in lower case as Unicode maps it.
pub proof fn law_lower_case_changes_case_only(s: Seq<char>)
    ensures
        is_ascii_chars(s) ==> {
            &&& lowered(s).len() == s.len()
            &&& forall|i: int|
                0 <= i < s.len() ==> #[trigger] lowered(s)[i] == ascii_lower(s[i]) && !('A'
                    <= lowered(s)[i] <= 'Z')
        },
        !is_ascii_chars(s) ==> lowered(s) == lower_case(s),
{
}

/// A comparison that ignores ASCII case tells texts apart by their length and by
/// the lower-case forms of their characters alone: it holds of a text and itself
/// in lower case, and of two texts exactly if they are the same in lower case.
pub proof fn law_comparison_ignores_ascii_case(a: Seq<char>, b: Seq<char>)
    ensures
        same_but_ascii_case(a, b) <==> a.map_values(|c: char| ascii_lower(c)) == b.map_values(
            |c: char| ascii_lower(c),
        ),
        same_but_ascii_case(a, a.map_values(|c: char| ascii_lower(c))),
{
    let x = a.map_values(|c: char| ascii_lower(c));
    let y = b.map_values(|c: char| ascii_lower(c));
    if same_but_ascii_case(a, b) {
        assert(x =~= y);
    }
    if x == y {
        assert(a.len() == x.len() && b.len() == y.len());
        assert forall|i: int| 0 <= i < a.len() implies ascii_lower(#[trigger] a[i]) == ascii_lower(
            b[i],
        ) by {
            assert(x[i] == y[i]);
        }
    }
}

/// Bytes that encode a text hold that text; other bytes hold one with replacement
/// characters.
pub proof fn law_encoded_text_is_read_back(s: Seq<char>, bytes: Seq<u8>)
    ensures
        text_in(encode_utf8(s)) == s,
        !valid_utf8(bytes) ==> text_in(bytes) == lossy_text(bytes),
{
    encode_utf8_valid_utf8(s);
    encode_utf8_decode_utf8(s);
}

/// Lists of texts keep their length and their order.
pub proof fn law_texts_are_those_of_the_strings(v: Seq<String>, i: int)
    ensures
        texts(v).len() == v.len(),
        0 <= i < v.len() ==> texts(v)[i] == v[i]@,
        opt_text(None) is None,
        0 <= i < v.len() ==> opt_text(Some(v[i])) == Some(v[i]@),
{
}

} // verus!
