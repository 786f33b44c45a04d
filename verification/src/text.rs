//! Text as sequences of characters: searching, splitting, trimming, numbers.

use vstd::prelude::*;
use vstd::utf8::{encode_utf8, encode_utf8_decode_utf8};
use crate::outside::texts;

verus! {

/// The view of an optional text.
pub open spec fn view_of(text: Option<&str>) -> Option<Seq<char>> {
    match text {
        Some(s) => Some(s@),
        None => None,
    }
}

/// `p` stands in `s` at position `i`.
pub open spec fn occurs_at<T>(s: Seq<T>, p: Seq<T>, i: int) -> bool {
    0 <= i && i + p.len() <= s.len() && s.subrange(i, i + p.len()) == p
}

/// `p` stands somewhere in `s`.
pub open spec fn occurs_in<T>(s: Seq<T>, p: Seq<T>) -> bool {
    exists|i: int| occurs_at(s, p, i)
}

/// `i` is the first position at which `p` stands in `s`.
pub open spec fn first_at<T>(s: Seq<T>, p: Seq<T>, i: int) -> bool {
    occurs_at(s, p, i) && forall|j: int| j < i ==> !occurs_at(s, p, j)
}

/// The first position at which `p` stands in `s`, if there is one.
pub open spec fn first_index<T>(s: Seq<T>, p: Seq<T>) -> Option<int> {
    if exists|i: int| first_at(s, p, i) {
        Some(choose|i: int| first_at(s, p, i))
    } else {
        None
    }
}

/// What follows `p` in a text that begins with it.
pub open spec fn after_prefix(s: Seq<char>, p: Seq<char>) -> Option<Seq<char>> {
    if p.is_prefix_of(s) {
        Some(s.skip(p.len() as int))
    } else {
        None
    }
}

/// The parts of `s` between the occurrences of `p`, taken from the left.
pub open spec fn split_by(s: Seq<char>, p: Seq<char>) -> Seq<Seq<char>>
    decreases s.len(),
{
    match first_index(s, p) {
        Some(i) => if p.len() > 0 && 0 <= i && i + p.len() <= s.len() {
            seq![s.take(i)] + split_by(s.skip(i + p.len()), p)
        } else {
            seq![s]
        },
        None => seq![s],
    }
}

/// The parts put together again, with `p` between them.
pub open spec fn joined_by(parts: Seq<Seq<char>>, p: Seq<char>) -> Seq<char>
    decreases parts.len(),
{
    if parts.len() == 0 {
        Seq::empty()
    } else if parts.len() == 1 {
        parts[0]
    } else {
        parts[0] + p + joined_by(parts.skip(1), p)
    }
}

/// A first position is the only first position.
pub proof fn lemma_first_index<T>(s: Seq<T>, p: Seq<T>, i: int)
    requires
        first_at(s, p, i),
    ensures
        first_index(s, p) == Some(i),
        occurs_in(s, p),
{
    let k = choose|k: int| first_at(s, p, k);
    assert(first_at(s, p, k));
    assert(!(k < i) && !(i < k));
}

/// Where `p` stands nowhere, there is no first position.
pub proof fn lemma_no_index<T>(s: Seq<T>, p: Seq<T>)
    requires
        forall|i: int| !occurs_at(s, p, i),
    ensures
        first_index(s, p) == None::<int>,
        !occurs_in(s, p),
{
}

/// What stands between two parts is found where the first part ends, unless it can be
/// found earlier.
pub proof fn lemma_first_after<T>(head: Seq<T>, p: Seq<T>, tail: Seq<T>)
    requires
        p.len() > 0,
        !occurs_in(head + p.drop_last(), p),
    ensures
        first_index(head + p + tail, p) == Some(head.len() as int),
{
    let s = head + p + tail;
    let short = head + p.drop_last();
    let n = head.len() as int;
    assert(s.subrange(n, n + p.len()) =~= p);
    assert forall|j: int| j < n implies !occurs_at(s, p, j) by {
        if occurs_at(s, p, j) {
            assert(short.subrange(j, j + p.len()) =~= s.subrange(j, j + p.len()));
            assert(occurs_at(short, p, j));
        }
    }
    lemma_first_index(s, p, n);
}

/// Splitting at a separator and putting the separator back between the parts gives
/// the text again.
pub proof fn law_split_then_join(s: Seq<char>, p: Seq<char>)
    requires
        p.len() > 0,
    ensures
        joined_by(split_by(s, p), p) == s,
        split_by(s, p).len() > 0,
    decreases s.len(),
{
    match first_index(s, p) {
        Some(i) => {
            assert(first_at(s, p, i));
            let rest = s.skip(i + p.len());
            law_split_then_join(rest, p);
            let parts = split_by(s, p);
            assert(parts.skip(1) =~= split_by(rest, p));
            assert(parts[0] == s.take(i));
            assert(s =~= s.take(i) + s.subrange(i, i + p.len()) + rest);
        },
        None => {},
    }
}

/// The characters of a text, in order.
pub fn chars_of(s: &str) -> (chars: Vec<char>)
    ensures
        chars@ == s@,
{
    let mut chars: Vec<char> = Vec::new();
    for c in it: s.chars()
        invariant
            it.seq() == s@,
            chars@ == s@.take(it.index() as int),
    {
        chars.push(c);
        assert(chars@ == s@.take(it.index() + 1));
    }
    assert(chars@ == s@);
    chars
}

/// The text made of these characters.
pub fn string_of(chars: &[char]) -> (s: String)
    ensures
        s@ == chars@,
{
    let mut s = String::new();
    let mut i: usize = 0;
    while i < chars.len()
        invariant
            i <= chars@.len(),
            s@ == chars@.take(i as int),
        decreases chars@.len() - i,
    {
        s.push(chars[i]);
        i += 1;
        assert(chars@.take(i as int) == chars@.take(i - 1).push(chars@[i - 1]));
    }
    assert(chars@.take(i as int) == chars@);
    s
}

/// Whether two texts are the same.
pub fn same_text(a: &str, b: &str) -> (same: bool)
    ensures
        same == (a@ == b@),
{
    let x = a.as_bytes();
    let y = b.as_bytes();
    proof {
        encode_utf8_decode_utf8(a@);
        encode_utf8_decode_utf8(b@);
    }
    if x.len() != y.len() {
        return false;
    }
    let mut i: usize = 0;
    while i < x.len()
        invariant
            i <= x@.len(),
            x@.len() == y@.len(),
            x@ == encode_utf8(a@),
            y@ == encode_utf8(b@),
            forall|j: int| 0 <= j < i ==> x@[j] == y@[j],
        decreases x@.len() - i,
    {
        if x[i] != y[i] {
            assert(x@ != y@);
            return false;
        }
        i += 1;
    }
    assert(x@ =~= y@);
    true
}

/// Whether `p` stands in `s` at position `at`.
pub fn stands_at(s: &[char], p: &[char], at: usize) -> (found: bool)
    requires
        at <= s@.len(),
    ensures
        found == occurs_at(s@, p@, at as int),
{
    let length: usize = s.len();
    if p.len() > length - at {
        return false;
    }
    let mut i: usize = 0;
    while i < p.len()
        invariant
            i <= p@.len(),
            at + p@.len() <= s@.len() == length,
            s@.subrange(at as int, at + i) == p@.take(i as int),
        decreases p@.len() - i,
    {
        if s[at + i] != p[i] {
            assert(s@.subrange(at as int, at + p@.len())[i as int] != p@[i as int]);
            return false;
        }
        i += 1;
        assert(s@.subrange(at as int, at + i) == s@.subrange(at as int, at + i - 1).push(s@[at + i - 1]));
        assert(p@.take(i as int) == p@.take(i - 1).push(p@[i - 1]));
    }
    assert(p@.take(i as int) == p@);
    true
}

/// The first position at which `p` stands in `s`.
pub fn find(s: &[char], p: &[char]) -> (at: Option<usize>)
    ensures
        match at {
            Some(i) => first_at(s@, p@, i as int) && first_index(s@, p@) == Some(i as int) && occurs_in(s@, p@),
            None => first_index(s@, p@) == None::<int> && !occurs_in(s@, p@),
        },
{
    let mut i: usize = 0;
    while i < s.len()
        invariant
            i <= s@.len(),
            forall|j: int| j < i ==> !occurs_at(s@, p@, j),
        decreases s@.len() - i,
    {
        if stands_at(s, p, i) {
            proof {
                lemma_first_index(s@, p@, i as int);
            }
            return Some(i);
        }
        i += 1;
    }
    if stands_at(s, p, i) {
        proof {
            lemma_first_index(s@, p@, i as int);
        }
        return Some(i);
    }
    proof {
        lemma_no_index(s@, p@);
    }
    None
}

/// Whether `p` stands somewhere in `s`.
pub fn contains_text(s: &str, p: &str) -> (found: bool)
    ensures
        found == occurs_in(s@, p@),
{
    find(&chars_of(s), &chars_of(p)).is_some()
}

/// Whether a text holds a character.
pub fn contains_char(s: &str, c: char) -> (found: bool)
    ensures
        found == s@.contains(c),
{
    let chars = chars_of(s);
    let mut i: usize = 0;
    while i < chars.len()
        invariant
            i <= chars@.len(),
            chars@ == s@,
            forall|j: int| 0 <= j < i ==> chars@[j] != c,
        decreases chars@.len() - i,
    {
        if chars[i] == c {
            assert(s@[i as int] == c);
            return true;
        }
        i += 1;
    }
    false
}

/// Whether a text ends with `p`.
pub fn ends_with(s: &str, p: &str) -> (ends: bool)
    ensures
        ends == p@.is_suffix_of(s@),
{
    let chars = chars_of(s);
    let tail = chars_of(p);
    if tail.len() > chars.len() {
        return false;
    }
    let at: usize = chars.len() - tail.len();
    assert(s@.subrange(at as int, at + p@.len()) =~= s@.subrange(at as int, s@.len() as int));
    stands_at(&chars, &tail, at)
}

/// What follows `p` in a text that begins with it.
pub fn strip_prefix(s: &str, p: &str) -> (rest: Option<String>)
    ensures
        match rest {
            Some(r) => after_prefix(s@, p@) == Some(r@),
            None => after_prefix(s@, p@) == None::<Seq<char>>,
        },
{
    let chars = chars_of(s);
    let head = chars_of(p);
    if stands_at(&chars, &head, 0) {
        let rest = vstd::slice::slice_subrange(&chars, head.len(), chars.len());
        assert(rest@ =~= s@.skip(p@.len() as int));
        Some(string_of(rest))
    } else {
        None
    }
}

/// The parts of a text before and after the first occurrence of `p`.
pub fn split_once(s: &str, p: &str) -> (parts: Option<(String, String)>)
    ensures
        match parts {
            Some((head, tail)) => first_index(s@, p@) matches Some(i) && first_at(s@, p@, i) && head@ == s@.take(i)
                && tail@ == s@.skip(i + p@.len()),
            None => first_index(s@, p@) == None::<int> && !occurs_in(s@, p@),
        },
{
    let chars = chars_of(s);
    let sep = chars_of(p);
    let length: usize = chars.len();
    match find(&chars, &sep) {
        Some(i) => {
            let head = vstd::slice::slice_subrange(&chars, 0, i);
            let tail = vstd::slice::slice_subrange(&chars, i + sep.len(), length);
            assert(head@ =~= s@.take(i as int));
            assert(tail@ =~= s@.skip(i + p@.len()));
            Some((string_of(head), string_of(tail)))
        },
        None => None,
    }
}

/// The parts of a text between the occurrences of a separator.
pub fn split(s: &str, p: &str) -> (parts: Vec<String>)
    requires
        p@.len() > 0,
    ensures
        texts(parts@) == split_by(s@, p@),
{
    let chars = chars_of(s);
    let sep = chars_of(p);
    let mut parts: Vec<String> = Vec::new();
    let mut from: usize = 0;
    assert(s@.skip(0) =~= s@);
    assert(texts(parts@) + split_by(s@, p@) =~= split_by(s@, p@));
    loop
        invariant_except_break
            texts(parts@) + split_by(s@.skip(from as int), p@) == split_by(s@, p@),
        invariant
            chars@ == s@,
            sep@ == p@,
            p@.len() > 0,
            from <= s@.len(),
        ensures
            texts(parts@) == split_by(s@, p@),
        decreases s@.len() - from,
    {
        let rest = vstd::slice::slice_subrange(&chars, from, chars.len());
        assert(rest@ =~= s@.skip(from as int));
        let ghost before = parts@;
        match find(rest, &sep) {
            Some(i) => {
                let part = vstd::slice::slice_subrange(rest, 0, i);
                assert(part@ =~= rest@.take(i as int));
                parts.push(string_of(part));
                from = from + i + sep.len();
                assert(texts(parts@) =~= texts(before).push(part@));
                assert(rest@.skip(i + p@.len()) =~= s@.skip(from as int));
                assert(texts(parts@) + split_by(s@.skip(from as int), p@) =~= texts(before) + (seq![part@]
                    + split_by(s@.skip(from as int), p@)));
            },
            None => {
                parts.push(string_of(rest));
                assert(texts(parts@) =~= texts(before) + seq![rest@]);
                break;
            },
        }
    }
    parts
}

/// The characters with the Unicode property `White_Space`.
pub open spec fn is_white_space(c: char) -> bool {
    ||| '\u{9}' <= c <= '\u{d}'
    ||| c == '\u{20}'
    ||| c == '\u{85}'
    ||| c == '\u{a0}'
    ||| c == '\u{1680}'
    ||| '\u{2000}' <= c <= '\u{200a}'
    ||| c == '\u{2028}'
    ||| c == '\u{2029}'
    ||| c == '\u{202f}'
    ||| c == '\u{205f}'
    ||| c == '\u{3000}'
}

/// Whether a character is white space.
pub fn white_space(c: char) -> (white: bool)
    ensures
        white == is_white_space(c),
{
    ('\u{9}' <= c && c <= '\u{d}') || c == '\u{20}' || c == '\u{85}' || c == '\u{a0}' || c == '\u{1680}' || (
    '\u{2000}' <= c && c <= '\u{200a}') || c == '\u{2028}' || c == '\u{2029}' || c == '\u{202f}' || c
        == '\u{205f}' || c == '\u{3000}'
}

/// A text without the white space in front.
pub open spec fn trimmed_start(s: Seq<char>) -> Seq<char>
    decreases s.len(),
{
    if s.len() > 0 && is_white_space(s[0]) {
        trimmed_start(s.skip(1))
    } else {
        s
    }
}

/// A text without the white space at the end.
pub open spec fn trimmed_end(s: Seq<char>) -> Seq<char>
    decreases s.len(),
{
    if s.len() > 0 && is_white_space(s.last()) {
        trimmed_end(s.drop_last())
    } else {
        s
    }
}

/// A text without the white space on either side.
pub open spec fn trimmed(s: Seq<char>) -> Seq<char> {
    trimmed_end(trimmed_start(s))
}

/// The text without the white space on either side.
pub fn trim(s: &str) -> (t: String)
    ensures
        t@ == trimmed(s@),
{
    let chars = chars_of(s);
    let length: usize = chars.len();
    let mut from: usize = 0;
    assert(s@.skip(0) =~= s@);
    while from < length && white_space(chars[from])
        invariant
            chars@ == s@,
            length == s@.len(),
            from <= length,
            trimmed_start(s@.skip(from as int)) == trimmed_start(s@),
        decreases length - from,
    {
        assert(s@.skip(from as int).skip(1) =~= s@.skip(from + 1));
        from += 1;
    }
    let ghost rest = s@.skip(from as int);
    assert(trimmed_start(s@) == rest);
    let mut to: usize = length;
    assert(s@.subrange(from as int, length as int) =~= rest);
    while from < to && white_space(chars[to - 1])
        invariant
            chars@ == s@,
            length == s@.len(),
            from <= to <= length,
            trimmed_end(s@.subrange(from as int, to as int)) == trimmed_end(rest),
        decreases to - from,
    {
        assert(s@.subrange(from as int, to as int).drop_last() =~= s@.subrange(from as int, to - 1));
        to -= 1;
    }
    string_of(vstd::slice::slice_subrange(&chars, from, to))
}

/// The length of the run of other characters that a text begins with.
pub open spec fn leading_word(s: Seq<char>) -> nat
    decreases s.len(),
{
    if s.len() > 0 && !is_white_space(s[0]) {
        1 + leading_word(s.skip(1))
    } else {
        0
    }
}

/// The first run of characters that are not white space, if there is one.
pub open spec fn word_of(s: Seq<char>) -> Option<Seq<char>> {
    let t = trimmed_start(s);
    if t.len() == 0 {
        None
    } else {
        Some(t.take(leading_word(t) as int))
    }
}

/// The first run of characters that are not white space.
pub fn first_word(s: &str) -> (word: Option<String>)
    ensures
        match word {
            Some(w) => word_of(s@) == Some(w@),
            None => word_of(s@) == None::<Seq<char>>,
        },
{
    let chars = chars_of(s);
    let length: usize = chars.len();
    let mut from: usize = 0;
    assert(s@.skip(0) =~= s@);
    while from < length && white_space(chars[from])
        invariant
            chars@ == s@,
            length == s@.len(),
            from <= length,
            trimmed_start(s@.skip(from as int)) == trimmed_start(s@),
        decreases length - from,
    {
        assert(s@.skip(from as int).skip(1) =~= s@.skip(from + 1));
        from += 1;
    }
    let ghost rest = s@.skip(from as int);
    assert(trimmed_start(s@) == rest);
    if from == length {
        return None;
    }
    let mut to: usize = from;
    while to < length && !white_space(chars[to])
        invariant
            chars@ == s@,
            length == s@.len(),
            from <= to <= length,
            rest == s@.skip(from as int),
            leading_word(rest) == (to - from) + leading_word(s@.skip(to as int)),
        decreases length - to,
    {
        assert(s@.skip(to as int).skip(1) =~= s@.skip(to + 1));
        to += 1;
    }
    let word = vstd::slice::slice_subrange(&chars, from, to);
    assert(word@ =~= rest.take(to - from));
    Some(string_of(word))
}

/// A decimal digit.
pub open spec fn is_digit(c: char) -> bool {
    '0' <= c <= '9'
}

/// The number that a run of decimal digits writes.
pub open spec fn digits_value(digits: Seq<char>) -> nat
    decreases digits.len(),
{
    if digits.len() == 0 {
        0
    } else {
        10 * digits_value(digits.drop_last()) + (digits.last() as nat - '0' as nat) as nat
    }
}

/// A text without the `+` in front, if there is one.
pub open spec fn unsigned_part(s: Seq<char>) -> Seq<char> {
    if s.len() > 0 && s[0] == '+' {
        s.skip(1)
    } else {
        s
    }
}

/// A run of decimal digits that is not empty.
pub open spec fn is_number(digits: Seq<char>) -> bool {
    digits.len() > 0 && forall|i: int| 0 <= i < digits.len() ==> is_digit(#[trigger] digits[i])
}

/// The number up to 65535 that a text writes: decimal digits, with a `+` in front or
/// without.
pub open spec fn number_of(s: Seq<char>) -> Option<u16> {
    let digits = unsigned_part(s);
    if is_number(digits) && digits_value(digits) <= u16::MAX {
        Some(digits_value(digits) as u16)
    } else {
        None
    }
}

/// More digits never make a smaller number.
proof fn lemma_digits_value_grows(digits: Seq<char>, i: int)
    requires
        0 <= i <= digits.len(),
    ensures
        digits_value(digits.take(i)) <= digits_value(digits),
    decreases digits.len(),
{
    if i < digits.len() {
        assert(digits.drop_last().take(i) =~= digits.take(i));
        lemma_digits_value_grows(digits.drop_last(), i);
    } else {
        assert(digits.take(i) =~= digits);
    }
}

/// The number up to 65535 that a text writes.
pub fn parse_u16(s: &str) -> (number: Option<u16>)
    ensures
        number == number_of(s@),
{
    let chars = chars_of(s);
    let length: usize = chars.len();
    let from: usize = if length > 0 && chars[0] == '+' {
        1
    } else {
        0
    };
    let ghost digits = unsigned_part(s@);
    assert(s@.skip(from as int) =~= digits);
    if from == length {
        return None;
    }
    let mut value: u32 = 0;
    let mut i: usize = from;
    assert(digits.take(0) =~= Seq::<char>::empty());
    while i < length
        invariant
            chars@ == s@,
            length == s@.len(),
            from <= i <= length,
            digits == unsigned_part(s@),
            digits == s@.skip(from as int),
            from < length,
            value <= 65535,
            value == digits_value(digits.take(i - from)),
            forall|j: int| 0 <= j < i - from ==> is_digit(#[trigger] digits[j]),
        decreases length - i,
    {
        let c = chars[i];
        assert(digits[i - from] == c);
        if !('0' <= c && c <= '9') {
            assert(!is_digit(digits[i - from]));
            return None;
        }
        assert(digits.take(i - from + 1).drop_last() =~= digits.take(i - from));
        value = value * 10 + (c as u32 - '0' as u32);
        i += 1;
        assert(value == digits_value(digits.take(i - from)));
        if value > 65535 {
            proof {
                lemma_digits_value_grows(digits, i - from);
            }
            return None;
        }
    }
    assert(digits.take(i - from) =~= digits);
    Some(value as u16)
}

/// A line without the carriage return at its end, if there is one.
pub open spec fn without_return(line: Seq<char>) -> Seq<char> {
    if line.len() > 0 && line.last() == '\r' {
        line.drop_last()
    } else {
        line
    }
}

/// The lines of a text. A line ends at a line feed, or at a carriage return and a
/// line feed; what follows the last line feed is a line of its own, as it stands,
/// unless it is empty.
pub open spec fn lines_of(s: Seq<char>) -> Seq<Seq<char>>
    decreases s.len(),
{
    if s.len() == 0 {
        Seq::empty()
    } else {
        match first_index(s, seq!['\n']) {
            Some(i) => if 0 <= i < s.len() {
                seq![without_return(s.take(i))] + lines_of(s.skip(i + 1))
            } else {
                seq![s]
            },
            None => seq![s],
        }
    }
}

/// The lines of a text.
pub fn lines(s: &str) -> (list: Vec<String>)
    ensures
        texts(list@) == lines_of(s@),
{
    let chars = chars_of(s);
    let length: usize = chars.len();
    let feed: [char; 1] = ['\n'];
    let mut list: Vec<String> = Vec::new();
    let mut from: usize = 0;
    assert(s@.skip(0) =~= s@);
    assert(texts(list@) + lines_of(s@) =~= lines_of(s@));
    while from < length
        invariant
            chars@ == s@,
            length == s@.len(),
            feed@ == seq!['\n'],
            from <= length,
            texts(list@) + lines_of(s@.skip(from as int)) == lines_of(s@),
        decreases length - from,
    {
        let rest = vstd::slice::slice_subrange(&chars, from, length);
        assert(rest@ =~= s@.skip(from as int));
        let ghost before = list@;
        match find(rest, &feed) {
            Some(i) => {
                let to: usize = if i > 0 && rest[i - 1] == '\r' {
                    i - 1
                } else {
                    i
                };
                let line = vstd::slice::slice_subrange(rest, 0, to);
                assert(line@ =~= without_return(rest@.take(i as int)));
                list.push(string_of(line));
                from = from + i + 1;
                assert(texts(list@) =~= texts(before).push(line@));
                assert(rest@.skip(i + 1) =~= s@.skip(from as int));
                assert(texts(list@) + lines_of(s@.skip(from as int)) =~= texts(before) + (seq![line@] + lines_of(
                    s@.skip(from as int),
                )));
            },
            None => {
                list.push(string_of(rest));
                from = length;
                assert(texts(list@) =~= texts(before) + seq![rest@]);
                assert(s@.skip(length as int) =~= Seq::<char>::empty());
                assert(texts(list@) + Seq::<Seq<char>>::empty() =~= texts(list@));
            },
        }
    }
    assert(s@.skip(from as int) =~= Seq::<char>::empty());
    assert(texts(list@) + Seq::<Seq<char>>::empty() =~= texts(list@));
    list
}

/// A character with an ASCII capital letter turned into the small one.
pub open spec fn ascii_small(c: char) -> char {
    if 'A' <= c <= 'Z' {
        (c as u32 + 32) as char
    } else {
        c
    }
}

/// A text with the ASCII capital letters turned into small ones.
pub open spec fn ascii_lower(s: Seq<char>) -> Seq<char> {
    s.map_values(|c: char| ascii_small(c))
}

/// The character with an ASCII capital letter turned into the small one.
fn small(c: char) -> (l: char)
    ensures
        l == ascii_small(c),
{
    if 'A' <= c && c <= 'Z' {
        (c as u8 + 32) as char
    } else {
        c
    }
}

/// Whether two texts differ at most in the case of ASCII letters.
pub fn same_ignoring_case(a: &str, b: &str) -> (same: bool)
    ensures
        same == (ascii_lower(a@) == ascii_lower(b@)),
{
    let x = chars_of(a);
    let y = chars_of(b);
    if x.len() != y.len() {
        assert(ascii_lower(a@).len() != ascii_lower(b@).len());
        return false;
    }
    let mut i: usize = 0;
    while i < x.len()
        invariant
            i <= x@.len(),
            x@.len() == y@.len(),
            x@ == a@,
            y@ == b@,
            forall|j: int| 0 <= j < i ==> ascii_small(x@[j]) == ascii_small(y@[j]),
        decreases x@.len() - i,
    {
        if small(x[i]) != small(y[i]) {
            assert(ascii_lower(a@)[i as int] != ascii_lower(b@)[i as int]);
            return false;
        }
        i += 1;
    }
    assert(ascii_lower(a@) =~= ascii_lower(b@));
    true
}

/// A text without the run of `c` that it begins with.
pub open spec fn without_leading(s: Seq<char>, c: char) -> Seq<char>
    decreases s.len(),
{
    if s.len() > 0 && s[0] == c {
        without_leading(s.skip(1), c)
    } else {
        s
    }
}

/// The text without the run of `c` that it begins with.
pub fn trim_leading(s: &str, c: char) -> (t: String)
    ensures
        t@ == without_leading(s@, c),
{
    let chars = chars_of(s);
    let length: usize = chars.len();
    let mut from: usize = 0;
    assert(s@.skip(0) =~= s@);
    while from < length && chars[from] == c
        invariant
            chars@ == s@,
            length == s@.len(),
            from <= length,
            without_leading(s@.skip(from as int), c) == without_leading(s@, c),
        decreases length - from,
    {
        assert(s@.skip(from as int).skip(1) =~= s@.skip(from + 1));
        from += 1;
    }
    let rest = vstd::slice::slice_subrange(&chars, from, length);
    assert(rest@ =~= s@.skip(from as int));
    string_of(rest)
}

/// What follows the last `c` of a text; the whole text where there is none.
pub open spec fn after_last(s: Seq<char>, c: char) -> Seq<char>
    decreases s.len(),
{
    if s.len() == 0 || s.last() == c {
        Seq::empty()
    } else {
        after_last(s.drop_last(), c).push(s.last())
    }
}

/// What follows the last `c` of the text.
pub fn tail_after(s: &str, c: char) -> (t: String)
    ensures
        t@ == after_last(s@, c),
{
    let chars = chars_of(s);
    let length: usize = chars.len();
    let mut from: usize = length;
    assert(s@.take(length as int) =~= s@);
    assert(after_last(s@, c) + s@.skip(length as int) =~= after_last(s@, c));
    while from > 0 && chars[from - 1] != c
        invariant
            chars@ == s@,
            length == s@.len(),
            from <= length,
            after_last(s@.take(from as int), c) + s@.skip(from as int) == after_last(s@, c),
        decreases from,
    {
        assert(s@.take(from as int).drop_last() =~= s@.take(from - 1));
        assert(after_last(s@.take(from - 1), c).push(s@[from - 1]) + s@.skip(from as int) =~= after_last(
            s@.take(from - 1),
            c,
        ) + s@.skip(from - 1));
        from -= 1;
    }
    let rest = vstd::slice::slice_subrange(&chars, from, length);
    assert(rest@ =~= Seq::<char>::empty() + s@.skip(from as int));
    string_of(rest)
}

/// The decimal digits of a number.
pub open spec fn decimal_of(n: nat) -> Seq<char>
    decreases n,
{
    if n < 10 {
        seq![('0' as u32 + n) as char]
    } else {
        decimal_of(n / 10).push(('0' as u32 + n % 10) as char)
    }
}

/// The decimal digits of a number, as a text.
pub fn decimal(n: usize) -> (s: String)
    ensures
        s@ == decimal_of(n as nat),
    decreases n,
{
    let digit: char = (48 + (n % 10) as u8) as char;
    let mut s = if n < 10 {
        String::new()
    } else {
        decimal(n / 10)
    };
    s.push(digit);
    assert(n < 10 ==> s@ =~= seq![digit]);
    s
}

/// Where something stands at all, it stands somewhere first.
proof fn lemma_least<T>(s: Seq<T>, p: Seq<T>, k: int)
    requires
        occurs_at(s, p, k),
    ensures
        exists|i: int| first_at(s, p, i),
    decreases k,
{
    if exists|j: int| j < k && occurs_at(s, p, j) {
        let j = choose|j: int| j < k && occurs_at(s, p, j);
        lemma_least(s, p, j);
    } else {
        assert(first_at(s, p, k));
    }
}

/// The first position splits the text around what is looked for, and no other split
/// has a shorter front; there is no position where there is no such split.
pub proof fn law_first_place<T>(s: Seq<T>, p: Seq<T>)
    ensures
        match first_index(s, p) {
            Some(i) => 0 <= i && i + p.len() <= s.len() && s == s.take(i) + p + s.skip(i + p.len()) && (forall|
                a: Seq<T>,
                b: Seq<T>,
            | s == #[trigger] (a + p + b) ==> i <= a.len()),
            None => forall|a: Seq<T>, b: Seq<T>| s != #[trigger] (a + p + b),
        },
{
    assert forall|a: Seq<T>, b: Seq<T>| s == #[trigger] (a + p + b) implies occurs_at(s, p, a.len() as int) by {
        assert(s.subrange(a.len() as int, a.len() as int + p.len()) =~= p);
    }
    match first_index(s, p) {
        Some(i) => {
            assert(first_at(s, p, i));
            assert(s =~= s.take(i) + s.subrange(i, i + p.len()) + s.skip(i + p.len()));
        },
        None => {
            assert forall|a: Seq<T>, b: Seq<T>| s != #[trigger] (a + p + b) by {
                if s == a + p + b {
                    lemma_least(s, p, a.len() as int);
                }
            }
        },
    }
}

/// Something occurs in a text if and only if the text is it with something in front and
/// something behind.
pub proof fn law_occurs_in<T>(s: Seq<T>, p: Seq<T>)
    ensures
        occurs_in(s, p) <==> exists|a: Seq<T>, b: Seq<T>| s == #[trigger] (a + p + b),
{
    if occurs_in(s, p) {
        let i = choose|i: int| occurs_at(s, p, i);
        assert(s =~= s.take(i) + p + s.skip(i + p.len()));
    }
    if exists|a: Seq<T>, b: Seq<T>| s == #[trigger] (a + p + b) {
        let (a, b) = choose|a: Seq<T>, b: Seq<T>| s == #[trigger] (a + p + b);
        assert(s.subrange(a.len() as int, a.len() as int + p.len()) =~= p);
        assert(occurs_at(s, p, a.len() as int));
    }
}

/// What follows a prefix is what was put behind it, and only a text that begins with
/// the prefix has anything behind it.
pub proof fn law_prefix_is_taken_off(p: Seq<char>, rest: Seq<char>, s: Seq<char>)
    ensures
        after_prefix(p + rest, p) == Some(rest),
        after_prefix(s, p) matches Some(r) ==> s == p + r,
        after_prefix(s, p) is None ==> forall|r: Seq<char>| s != #[trigger] (p + r),
{
    let whole = p + rest;
    assert(p =~= whole.subrange(0, p.len() as int));
    assert(whole.skip(p.len() as int) =~= rest);
    match after_prefix(s, p) {
        Some(r) => {
            assert(s =~= p + r);
        },
        None => {
            assert forall|r: Seq<char>| s != #[trigger] (p + r) by {
                if s == p + r {
                    assert(p =~= s.subrange(0, p.len() as int));
                }
            }
        },
    }
}

/// No part of a text that was split holds the separator.
pub proof fn law_parts_hold_no_separator(s: Seq<char>, p: Seq<char>, k: int)
    requires
        p.len() > 0,
        0 <= k < split_by(s, p).len(),
    ensures
        !occurs_in(split_by(s, p)[k], p),
    decreases s.len(),
{
    match first_index(s, p) {
        Some(i) => {
            assert(first_at(s, p, i));
            let part = s.take(i);
            let rest = s.skip(i + p.len());
            if k == 0 {
                if occurs_in(part, p) {
                    let j = choose|j: int| occurs_at(part, p, j);
                    assert(s.subrange(j, j + p.len()) =~= part.subrange(j, j + p.len()));
                    assert(occurs_at(s, p, j));
                }
            } else {
                law_parts_hold_no_separator(rest, p, k - 1);
                assert(split_by(s, p)[k] == split_by(rest, p)[k - 1]);
            }
        },
        None => {
            if occurs_in(s, p) {
                let j = choose|j: int| occurs_at(s, p, j);
                lemma_least(s, p, j);
            }
        },
    }
}

/// A text without the first character of a separator is not split by it, nor does the
/// separator start in it.
pub proof fn lemma_not_inside(head: Seq<char>, p: Seq<char>)
    requires
        p.len() > 0,
        !head.contains(p[0]),
    ensures
        !occurs_in(head + p.drop_last(), p),
        !occurs_in(head, p),
{
    let s = head + p.drop_last();
    if occurs_in(s, p) {
        let j = choose|j: int| occurs_at(s, p, j);
        assert(s.subrange(j, j + p.len())[0] == p[0]);
        assert(head[j] == p[0]);
    }
    if occurs_in(head, p) {
        let j = choose|j: int| occurs_at(head, p, j);
        assert(head.subrange(j, j + p.len())[0] == p[0]);
        assert(head[j] == p[0]);
    }
}

/// Parts that were joined come back when the text is split: the first part, and then
/// the parts of the rest.
pub proof fn law_join_then_split(parts: Seq<Seq<char>>, p: Seq<char>)
    requires
        p.len() > 0,
        parts.len() > 0,
        forall|i: int| 0 <= i < parts.len() ==> !(#[trigger] parts[i]).contains(p[0]),
    ensures
        split_by(joined_by(parts, p), p) == parts,
    decreases parts.len(),
{
    let head = parts[0];
    lemma_not_inside(head, p);
    if parts.len() == 1 {
        lemma_no_index(head, p);
        assert(parts =~= seq![head]);
    } else {
        let others = parts.skip(1);
        assert forall|i: int| 0 <= i < others.len() implies !(#[trigger] others[i]).contains(p[0]) by {
            assert(others[i] == parts[i + 1]);
        }
        law_join_then_split(others, p);
        let tail = joined_by(others, p);
        let whole = head + p + tail;
        lemma_first_after(head, p, tail);
        assert(whole.take(head.len() as int) =~= head);
        assert(whole.skip(head.len() as int + p.len()) =~= tail);
        assert(parts =~= seq![head] + others);
    }
}

/// White space in front is taken off, all of it.
proof fn lemma_trimmed_start(front: Seq<char>, rest: Seq<char>)
    requires
        forall|i: int| 0 <= i < front.len() ==> is_white_space(#[trigger] front[i]),
        rest.len() == 0 || !is_white_space(rest[0]),
    ensures
        trimmed_start(front + rest) == rest,
    decreases front.len(),
{
    let s = front + rest;
    if front.len() > 0 {
        let fewer = front.skip(1);
        assert forall|i: int| 0 <= i < fewer.len() implies is_white_space(#[trigger] fewer[i]) by {
            assert(fewer[i] == front[i + 1]);
        }
        lemma_trimmed_start(fewer, rest);
        assert(s[0] == front[0]);
        assert(s.skip(1) =~= fewer + rest);
    } else {
        assert(s =~= rest);
    }
}

/// White space at the end is taken off, all of it.
proof fn lemma_trimmed_end(rest: Seq<char>, back: Seq<char>)
    requires
        forall|i: int| 0 <= i < back.len() ==> is_white_space(#[trigger] back[i]),
        rest.len() == 0 || !is_white_space(rest.last()),
    ensures
        trimmed_end(rest + back) == rest,
    decreases back.len(),
{
    let s = rest + back;
    if back.len() > 0 {
        let fewer = back.drop_last();
        assert forall|i: int| 0 <= i < fewer.len() implies is_white_space(#[trigger] fewer[i]) by {
            assert(fewer[i] == back[i]);
        }
        lemma_trimmed_end(rest, fewer);
        assert(s.last() == back.last());
        assert(s.drop_last() =~= rest + fewer);
    } else {
        assert(s =~= rest);
    }
}

/// Trimming takes off the white space on both sides and nothing else.
pub proof fn law_trimming_takes_off_white_space(front: Seq<char>, core: Seq<char>, back: Seq<char>)
    requires
        forall|i: int| 0 <= i < front.len() ==> is_white_space(#[trigger] front[i]),
        forall|i: int| 0 <= i < back.len() ==> is_white_space(#[trigger] back[i]),
        core.len() == 0 || (!is_white_space(core[0]) && !is_white_space(core.last())),
    ensures
        trimmed(front + core + back) == core,
{
    if core.len() == 0 {
        let all = front + back;
        assert(front + core + back =~= all);
        assert forall|i: int| 0 <= i < all.len() implies is_white_space(#[trigger] all[i]) by {
            if i < front.len() {
                assert(all[i] == front[i]);
            } else {
                assert(all[i] == back[i - front.len()]);
            }
        }
        lemma_trimmed_start(all, core);
        assert(all + core =~= all);
        assert(core =~= Seq::<char>::empty());
    } else {
        let rest = core + back;
        assert(rest[0] == core[0]);
        lemma_trimmed_start(front, rest);
        assert(front + core + back =~= front + rest);
        lemma_trimmed_end(core, back);
    }
}

/// The run of other characters that a text begins with ends at white space.
proof fn lemma_leading_word(word: Seq<char>, rest: Seq<char>)
    requires
        forall|i: int| 0 <= i < word.len() ==> !is_white_space(#[trigger] word[i]),
        rest.len() == 0 || is_white_space(rest[0]),
    ensures
        leading_word(word + rest) == word.len(),
    decreases word.len(),
{
    let s = word + rest;
    if word.len() > 0 {
        let fewer = word.skip(1);
        assert forall|i: int| 0 <= i < fewer.len() implies !is_white_space(#[trigger] fewer[i]) by {
            assert(fewer[i] == word[i + 1]);
        }
        lemma_leading_word(fewer, rest);
        assert(s[0] == word[0]);
        assert(s.skip(1) =~= fewer + rest);
    } else {
        assert(s =~= rest);
    }
}

/// The first word of a text is what stands between the white space in front and the
/// next white space; a text of white space has none.
pub proof fn law_first_word(front: Seq<char>, word: Seq<char>, rest: Seq<char>)
    requires
        forall|i: int| 0 <= i < front.len() ==> is_white_space(#[trigger] front[i]),
        forall|i: int| 0 <= i < word.len() ==> !is_white_space(#[trigger] word[i]),
        rest.len() == 0 || is_white_space(rest[0]),
        word.len() > 0,
    ensures
        word_of(front + word + rest) == Some(word),
        word_of(front) is None,
{
    let t = word + rest;
    assert(t[0] == word[0]);
    lemma_trimmed_start(front, t);
    assert(front + word + rest =~= front + t);
    lemma_leading_word(word, rest);
    assert(t.take(word.len() as int) =~= word);
    lemma_trimmed_start(front, Seq::empty());
    assert(front + Seq::<char>::empty() =~= front);
}

/// A digit at the end of a number counts once, and what stands before it ten times.
pub proof fn law_digits_are_decimal(digits: Seq<char>, c: char)
    ensures
        digits_value(Seq::<char>::empty()) == 0,
        '0' <= c <= '9' ==> digits_value(digits.push(c)) == 10 * digits_value(digits) + (c as int - 48),
{
    assert(digits.push(c).drop_last() =~= digits);
}

/// A text of decimal digits writes its number where it is up to 65535; a sign `+` in
/// front changes nothing; a text that holds anything else writes none, nor does the
/// empty one.
pub proof fn law_numbers(s: Seq<char>, i: int)
    ensures
        s.len() > 0 && (forall|k: int| 0 <= k < s.len() ==> '0' <= #[trigger] s[k] <= '9') ==> number_of(s) == (
        if digits_value(s) <= 65535 {
            Some(digits_value(s) as u16)
        } else {
            None
        }),
        s.len() == 0 || s[0] != '+' ==> number_of(seq!['+'] + s) == number_of(s),
        0 <= i < s.len() && !('0' <= s[i] <= '9') && !(i == 0 && s[0] == '+') ==> number_of(s) is None,
        s.len() == 0 ==> number_of(s) is None,
{
    let signed = seq!['+'] + s;
    assert(signed.skip(1) =~= s);
    if s.len() > 0 && (forall|k: int| 0 <= k < s.len() ==> '0' <= #[trigger] s[k] <= '9') {
        assert('0' <= s[0] <= '9');
        assert forall|k: int| 0 <= k < s.len() implies is_digit(#[trigger] s[k]) by {}
    }
    if 0 <= i < s.len() && !('0' <= s[i] <= '9') && !(i == 0 && s[0] == '+') {
        let digits = unsigned_part(s);
        if s[0] == '+' {
            assert(digits[i - 1] == s[i]);
            assert(!is_digit(digits[i - 1]));
        } else {
            assert(!is_digit(digits[i]));
        }
    }
}

/// A line ends at a line feed, and a carriage return before it is no part of the line;
/// what follows is split in the same way. A last line without a line feed stays as it
/// is, and the empty text has no line.
pub proof fn law_lines(line: Seq<char>, rest: Seq<char>)
    requires
        !line.contains('\n'),
    ensures
        lines_of(line + seq!['\r', '\n'] + rest) == seq![line] + lines_of(rest),
        line.len() == 0 || line.last() != '\r' ==> lines_of(line + seq!['\n'] + rest) == seq![line] + lines_of(rest),
        line.len() > 0 ==> lines_of(line) == seq![line],
        lines_of(Seq::<char>::empty()).len() == 0,
{
    let feed = seq!['\n'];
    assert(feed.drop_last() =~= Seq::<char>::empty());
    lemma_not_inside(line, feed);
    assert(line + feed.drop_last() =~= line);
    lemma_first_after(line, feed, rest);
    let plain = line + feed + rest;
    assert(plain.take(line.len() as int) =~= line);
    assert(plain.skip(line.len() as int + 1) =~= rest);
    let returned = line.push('\r');
    assert(!returned.contains('\n')) by {
        if returned.contains('\n') {
            let k = choose|k: int| 0 <= k < returned.len() && returned[k] == '\n';
            assert(line[k] == '\n');
        }
    }
    lemma_not_inside(returned, feed);
    assert(returned + feed.drop_last() =~= returned);
    lemma_first_after(returned, feed, rest);
    let whole = returned + feed + rest;
    assert(line + seq!['\r', '\n'] + rest =~= whole);
    assert(whole.take(returned.len() as int) =~= returned);
    assert(whole.skip(returned.len() as int + 1) =~= rest);
    assert(returned.drop_last() =~= line);
    lemma_no_index(line, feed);
}

/// Of an ASCII capital letter the small one is taken, and of everything else itself.
pub proof fn law_case_of_ascii_only(s: Seq<char>, i: int)
    requires
        0 <= i < s.len(),
    ensures
        ascii_lower(s).len() == s.len(),
        'A' <= s[i] <= 'Z' ==> ascii_lower(s)[i] as int == s[i] as int + 32,
        !('A' <= s[i] <= 'Z') ==> ascii_lower(s)[i] == s[i],
{
}

/// The leading run of a character is taken off, and nothing else.
pub proof fn law_leading_run_is_taken_off(s: Seq<char>, c: char)
    ensures
        without_leading(seq![c] + s, c) == without_leading(s, c),
        s.len() == 0 || s[0] != c ==> without_leading(s, c) == s,
{
    assert((seq![c] + s).skip(1) =~= s);
}

/// What follows the last occurrence of a character is what stands behind it up to the
/// end, and a text without the character is itself.
pub proof fn law_tail_after_the_last(front: Seq<char>, c: char, tail: Seq<char>)
    requires
        !tail.contains(c),
    ensures
        after_last(front + seq![c] + tail, c) == tail,
        after_last(tail, c) == tail,
    decreases tail.len(),
{
    let s = front + seq![c] + tail;
    if tail.len() > 0 {
        let shorter = tail.drop_last();
        assert(!shorter.contains(c)) by {
            if shorter.contains(c) {
                let k = choose|k: int| 0 <= k < shorter.len() && shorter[k] == c;
                assert(tail[k] == c);
            }
        }
        law_tail_after_the_last(front, c, shorter);
        assert(s.drop_last() =~= front + seq![c] + shorter);
        assert(s.last() == tail.last());
        assert(tail.contains(tail.last()));
        assert(shorter.push(tail.last()) =~= tail);
    } else {
        assert(s.last() == c);
        assert(tail =~= Seq::<char>::empty());
    }
}

/// The digits of a number write the number, and without a zero in front.
pub proof fn law_decimal_writes_the_number(n: nat)
    ensures
        decimal_of(n).len() > 0,
        forall|i: int| 0 <= i < decimal_of(n).len() ==> '0' <= #[trigger] decimal_of(n)[i] <= '9',
        digits_value(decimal_of(n)) == n,
        n > 0 ==> decimal_of(n)[0] != '0',
    decreases n,
{
    if n < 10 {
        let digit = ('0' as u32 + n) as char;
        assert(decimal_of(n) =~= Seq::<char>::empty().push(digit));
        law_digits_are_decimal(Seq::empty(), digit);
    } else {
        law_decimal_writes_the_number(n / 10);
        let digit = ('0' as u32 + n % 10) as char;
        assert(decimal_of(n) == decimal_of(n / 10).push(digit));
        law_digits_are_decimal(decimal_of(n / 10), digit);
    }
}

/// A text is split at the first separator, and its rest in the same way; a text without
/// one stays whole.
pub proof fn law_split_at_the_first(head: Seq<char>, p: Seq<char>, tail: Seq<char>)
    requires
        p.len() > 0,
        !head.contains(p[0]),
    ensures
        split_by(head + p + tail, p) == seq![head] + split_by(tail, p),
        split_by(head, p) == seq![head],
{
    lemma_not_inside(head, p);
    lemma_first_after(head, p, tail);
    lemma_no_index(head, p);
    let whole = head + p + tail;
    assert(whole.take(head.len() as int) =~= head);
    assert(whole.skip(head.len() as int + p.len()) =~= tail);
}

/// A borrowed optional text is there exactly where its text is.
pub proof fn law_optional_text(text: Option<&str>)
    ensures
        match text {
            Some(t) => view_of(text) == Some(t@),
            None => view_of(text) is None,
        },
{
}

} // verus!
