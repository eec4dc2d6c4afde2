//! Reading text: white space, trimming, lines, words, prefixes, numbers and
//! comparison without regard to ASCII case.

use crate::text::{self, chars_of, text_of};
use vstd::prelude::*;

verus! {

// --------------------------------------------------------------- white space

/// The characters with the Unicode property `White_Space`.
pub open spec fn is_space(c: char) -> bool {
    let u = c as u32;
    ||| 0x09 <= u <= 0x0d
    ||| u == 0x20
    ||| u == 0x85
    ||| u == 0xa0
    ||| u == 0x1680
    ||| 0x2000 <= u <= 0x200a
    ||| u == 0x2028
    ||| u == 0x2029
    ||| u == 0x202f
    ||| u == 0x205f
    ||| u == 0x3000
}

fn space(c: char) -> (r: bool)
    ensures
        r == is_space(c),
{
    let u: u32 = c as u32;
    (0x09 <= u && u <= 0x0d) || u == 0x20 || u == 0x85 || u == 0xa0 || u == 0x1680 || (0x2000 <= u
        && u <= 0x200a) || u == 0x2028 || u == 0x2029 || u == 0x202f || u == 0x205f || u == 0x3000
}

/// `s` without the white space at its end.
pub open spec fn trimmed_end(s: Seq<char>) -> Seq<char>
    decreases s.len(),
{
    if s.len() > 0 && is_space(s.last()) {
        trimmed_end(s.drop_last())
    } else {
        s
    }
}

/// `s` without the white space at its start.
pub open spec fn trimmed_start(s: Seq<char>) -> Seq<char>
    decreases s.len(),
{
    if s.len() > 0 && is_space(s[0]) {
        trimmed_start(s.skip(1))
    } else {
        s
    }
}

/// `s` without the white space at either end.
pub open spec fn trimmed(s: Seq<char>) -> Seq<char> {
    trimmed_start(trimmed_end(s))
}

fn end_without_space(v: &Vec<char>) -> (r: usize)
    ensures
        r <= v@.len(),
        v@.take(r as int) == trimmed_end(v@),
{
    let mut to: usize = v.len();
    proof {
        assert(v@.take(to as int) =~= v@);
    }
    while to > 0 && space(v[to - 1])
        invariant
            to <= v@.len(),
            trimmed_end(v@.take(to as int)) == trimmed_end(v@),
        decreases to,
    {
        proof {
            assert(v@.take(to as int).drop_last() =~= v@.take(to - 1));
        }
        to -= 1;
    }
    to
}

pub fn trim_end(s: &str) -> (r: String)
    ensures
        r@ == trimmed_end(s@),
{
    let v = chars_of(s);
    let to = end_without_space(&v);
    proof {
        assert(v@.subrange(0, to as int) =~= v@.take(to as int));
    }
    text_of(&v, 0, to)
}

pub fn trim(s: &str) -> (r: String)
    ensures
        r@ == trimmed(s@),
{
    let v = chars_of(s);
    let to = end_without_space(&v);
    let ghost base = v@.take(to as int);
    let mut from: usize = 0;
    proof {
        assert(base.skip(0) =~= base);
    }
    while from < to && space(v[from])
        invariant
            from <= to <= v@.len(),
            base == v@.take(to as int),
            trimmed_start(base.skip(from as int)) == trimmed_start(base),
        decreases to - from,
    {
        proof {
            assert(base.skip(from as int).skip(1) =~= base.skip(from + 1));
        }
        from += 1;
    }
    proof {
        assert(v@.subrange(from as int, to as int) =~= base.skip(from as int));
    }
    text_of(&v, from, to)
}

// --------------------------------------------------------------------- lines

/// Position of the first `c` in `s`, or the length of `s` if there is none.
pub open spec fn position(s: Seq<char>, c: char) -> int
    decreases s.len(),
{
    if s.len() == 0 || s[0] == c {
        0
    } else {
        1 + position(s.skip(1), c)
    }
}

pub proof fn lemma_position(s: Seq<char>, c: char)
    ensures
        0 <= position(s, c) <= s.len(),
        position(s, c) < s.len() ==> s[position(s, c)] == c,
        forall|i: int| 0 <= i < position(s, c) ==> s[i] != c,
    decreases s.len(),
{
    if s.len() > 0 && s[0] != c {
        lemma_position(s.skip(1), c);
        assert forall|i: int| 0 <= i < position(s, c) implies s[i] != c by {
            if i > 0 {
                assert(s.skip(1)[i - 1] == s[i]);
            }
        }
    }
}

/// A position with `c` on it and none before it is the first one.
pub proof fn lemma_position_is(s: Seq<char>, c: char, k: int)
    requires
        0 <= k <= s.len(),
        k < s.len() ==> s[k] == c,
        forall|i: int| 0 <= i < k ==> s[i] != c,
    ensures
        position(s, c) == k,
{
    lemma_position(s, c);
}

/// One line without the carriage return that ended it.
pub open spec fn without_return(line: Seq<char>) -> Seq<char> {
    if line.len() > 0 && line.last() == '\r' {
        line.drop_last()
    } else {
        line
    }
}

/// The lines of a text: split after each line feed, without the line feed and
/// without a carriage return before it; nothing after the last line feed is
/// no line.
pub open spec fn lines(s: Seq<char>) -> Seq<Seq<char>>
    decreases s.len(),
    via lines_decreases
{
    if s.len() == 0 {
        Seq::empty()
    } else if position(s, '\n') < s.len() {
        seq![without_return(s.take(position(s, '\n')))] + lines(s.skip(position(s, '\n') + 1))
    } else {
        seq![s]
    }
}

#[via_fn]
proof fn lines_decreases(s: Seq<char>) {
    lemma_position(s, '\n');
}

/// Position of the first `c` in `v[from..]`, or the length of `v`.
pub fn find_from(v: &Vec<char>, from: usize, c: char) -> (r: usize)
    requires
        from <= v@.len(),
    ensures
        from <= r <= v@.len(),
        r - from == position(v@.skip(from as int), c),
{
    let mut i: usize = from;
    while i < v.len() && v[i] != c
        invariant
            from <= i <= v@.len(),
            forall|j: int| from <= j < i ==> v@[j] != c,
        decreases v@.len() - i,
    {
        i += 1;
    }
    proof {
        lemma_position_is(v@.skip(from as int), c, i - from);
    }
    i
}

pub fn lines_of(s: &str) -> (r: Vec<String>)
    ensures
        text::views(r@) == lines(s@),
{
    let v = chars_of(s);
    let mut out: Vec<String> = Vec::new();
    let mut from: usize = 0;
    proof {
        assert(v@.skip(0) =~= v@);
        assert(text::views(out@) + lines(v@) =~= lines(v@));
    }
    while from < v.len()
        invariant
            from <= v@.len(),
            v@ == s@,
            text::views(out@) + lines(v@.skip(from as int)) == lines(s@),
        decreases v@.len() - from,
    {
        let ghost rest = v@.skip(from as int);
        let ghost before = text::views(out@);
        let end = find_from(&v, from, '\n');
        let stop: usize = if end < v.len() && end > from && v[end - 1] == '\r' {
            end - 1
        } else {
            end
        };
        let line = text_of(&v, from, stop);
        proof {
            text::lemma_views_push(out@, line);
            lemma_position(rest, '\n');
            if end < v@.len() {
                assert(rest.take(end - from) =~= v@.subrange(from as int, end as int));
                assert(without_return(rest.take(end - from)) =~= line@);
                assert(rest.skip(end - from + 1) =~= v@.skip(end + 1));
                assert(lines(rest) == seq![line@] + lines(v@.skip(end + 1)));
                assert(before.push(line@) + lines(v@.skip(end + 1)) =~= before + lines(rest));
            } else {
                assert(rest =~= line@);
                assert(lines(rest) == seq![line@]);
                assert(v@.skip(end as int) =~= Seq::<char>::empty());
                assert(before.push(line@) + lines(v@.skip(end as int)) =~= before + lines(rest));
            }
        }
        out.push(line);
        from = if end < v.len() {
            end + 1
        } else {
            end
        };
    }
    proof {
        assert(v@.skip(from as int) =~= Seq::<char>::empty());
        assert(text::views(out@) + lines(v@.skip(from as int)) =~= text::views(out@));
    }
    out
}

// --------------------------------------------------------------------- words

/// Length of the run of characters without white space at the start of `s`.
pub open spec fn word_len(s: Seq<char>) -> int
    decreases s.len(),
{
    if s.len() == 0 || is_space(s[0]) {
        0
    } else {
        1 + word_len(s.skip(1))
    }
}

/// The first word of `s` (empty if `s` is white space alone).
pub open spec fn first_word(s: Seq<char>) -> Seq<char> {
    trimmed_start(s).take(word_len(trimmed_start(s)))
}

/// What follows the first word of `s`.
pub open spec fn after_first_word(s: Seq<char>) -> Seq<char> {
    trimmed_start(s).skip(word_len(trimmed_start(s)))
}

/// The second word of `s`, words being separated by white space.
pub open spec fn second_word(s: Seq<char>) -> Option<Seq<char>> {
    if first_word(after_first_word(s)).len() > 0 {
        Some(first_word(after_first_word(s)))
    } else {
        None
    }
}

/// Skips white space, then a word: the bounds of the word in `v`.
fn word_from(v: &Vec<char>, from: usize) -> (r: (usize, usize))
    requires
        from <= v@.len(),
    ensures
        from <= r.0 <= r.1 <= v@.len(),
        v@.skip(r.0 as int) == trimmed_start(v@.skip(from as int)),
        r.1 - r.0 == word_len(v@.skip(r.0 as int)),
{
    let mut start: usize = from;
    while start < v.len() && space(v[start])
        invariant
            from <= start <= v@.len(),
            trimmed_start(v@.skip(start as int)) == trimmed_start(v@.skip(from as int)),
        decreases v@.len() - start,
    {
        proof {
            assert(v@.skip(start as int).skip(1) =~= v@.skip(start + 1));
        }
        start += 1;
    }
    let mut end: usize = start;
    proof {
        assert(v@.skip(start as int)[0] == v@[start as int] || start == v@.len());
    }
    while end < v.len() && !space(v[end])
        invariant
            start <= end <= v@.len(),
            end - start + word_len(v@.skip(end as int)) == word_len(v@.skip(start as int)),
        decreases v@.len() - end,
    {
        proof {
            assert(v@.skip(end as int).skip(1) =~= v@.skip(end + 1));
        }
        end += 1;
    }
    (start, end)
}

pub fn second_word_of(s: &str) -> (r: Option<String>)
    ensures
        match r {
            Some(w) => second_word(s@) == Some(w@),
            None => second_word(s@) is None,
        },
{
    let v = chars_of(s);
    proof {
        assert(v@.skip(0) =~= v@);
    }
    let (a, b) = word_from(&v, 0);
    proof {
        assert(v@.skip(a as int).skip(b - a) =~= v@.skip(b as int));
    }
    let (c, d) = word_from(&v, b);
    proof {
        assert(v@.skip(c as int).take(d - c) =~= v@.subrange(c as int, d as int));
    }
    if c < d {
        Some(text_of(&v, c, d))
    } else {
        None
    }
}

// ------------------------------------------------------------------ prefixes

pub open spec fn starts_with(s: Seq<char>, prefix: Seq<char>) -> bool {
    prefix.len() <= s.len() && s.take(prefix.len() as int) == prefix
}

fn chars_start_with(v: &Vec<char>, p: &Vec<char>) -> (r: bool)
    ensures
        r == starts_with(v@, p@),
{
    if p.len() > v.len() {
        return false;
    }
    let mut i: usize = 0;
    while i < p.len()
        invariant
            i <= p@.len() <= v@.len(),
            forall|j: int| 0 <= j < i ==> v@[j] == p@[j],
        decreases p@.len() - i,
    {
        if v[i] != p[i] {
            proof {
                assert(v@.take(p@.len() as int)[i as int] != p@[i as int]);
            }
            return false;
        }
        i += 1;
    }
    proof {
        assert(v@.take(p@.len() as int) =~= p@);
    }
    true
}

pub fn has_prefix(s: &str, prefix: &str) -> (r: bool)
    ensures
        r == starts_with(s@, prefix@),
{
    let v = chars_of(s);
    let p = chars_of(prefix);
    chars_start_with(&v, &p)
}

/// What follows `prefix` in `s`, if `s` starts with it.
pub fn strip_prefix(s: &str, prefix: &str) -> (r: Option<String>)
    ensures
        match r {
            Some(rest) => s@ == prefix@ + rest@,
            None => !starts_with(s@, prefix@),
        },
{
    let v = chars_of(s);
    let p = chars_of(prefix);
    if chars_start_with(&v, &p) {
        let rest = text_of(&v, p.len(), v.len());
        proof {
            assert(prefix@ + rest@ =~= s@) by {
                assert(s@.take(p@.len() as int) =~= p@);
                assert forall|i: int| 0 <= i < p@.len() implies s@[i] == p@[i] by {
                    assert(s@.take(p@.len() as int)[i] == s@[i]);
                }
            }
        }
        Some(rest)
    } else {
        None
    }
}

/// The text before the first `:` and the text after it.
pub open spec fn split_colon(s: Seq<char>) -> Option<(Seq<char>, Seq<char>)> {
    if position(s, ':') < s.len() {
        Some((s.take(position(s, ':')), s.skip(position(s, ':') + 1)))
    } else {
        None
    }
}

pub fn split_at_colon(s: &str) -> (r: Option<(String, String)>)
    ensures
        match r {
            Some(kv) => split_colon(s@) == Some((kv.0@, kv.1@)),
            None => split_colon(s@) is None,
        },
{
    let v = chars_of(s);
    proof {
        assert(v@.skip(0) =~= v@);
        lemma_position(s@, ':');
    }
    let k = find_from(&v, 0, ':');
    if k < v.len() {
        let key = text_of(&v, 0, k);
        let value = text_of(&v, k + 1, v.len());
        proof {
            assert(key@ =~= s@.take(k as int));
            assert(value@ =~= s@.skip(k + 1));
        }
        Some((key, value))
    } else {
        None
    }
}

// ---------------------------------------------------------------- ASCII case

/// The lower-case form of an ASCII letter; any other character unchanged.
pub open spec fn ascii_lower(c: char) -> char {
    if 'A' <= c && c <= 'Z' {
        ((c as u32 + 32) as u32) as char
    } else {
        c
    }
}

/// Equality of two texts that differ at most in the case of ASCII letters.
pub open spec fn equal_ignoring_case(a: Seq<char>, b: Seq<char>) -> bool {
    a.len() == b.len() && forall|i: int|
        0 <= i < a.len() ==> ascii_lower(#[trigger] a[i]) == ascii_lower(b[i])
}

/// `ascii_lower` on code points.
fn lower_code(c: char) -> (r: u32)
    ensures
        r == ascii_lower(c) as u32,
{
    let u: u32 = c as u32;
    if 0x41 <= u && u <= 0x5a {
        u + 32
    } else {
        u
    }
}

pub fn eq_ignore_ascii_case(a: &str, b: &str) -> (r: bool)
    ensures
        r == equal_ignoring_case(a@, b@),
{
    let x = chars_of(a);
    let y = chars_of(b);
    if x.len() != y.len() {
        return false;
    }
    let mut i: usize = 0;
    while i < x.len()
        invariant
            i <= x@.len() == y@.len(),
            x@ == a@,
            y@ == b@,
            forall|j: int| 0 <= j < i ==> ascii_lower(#[trigger] a@[j]) == ascii_lower(b@[j]),
        decreases x@.len() - i,
    {
        if lower_code(x[i]) != lower_code(y[i]) {
            proof {
                assert(ascii_lower(a@[i as int]) != ascii_lower(b@[i as int]));
            }
            return false;
        }
        proof {
            let p = ascii_lower(a@[i as int]);
            let q = ascii_lower(b@[i as int]);
            assert(p as u32 == q as u32);
            assert(p == q);
        }
        i += 1;
    }
    true
}

// ------------------------------------------------------------------- numbers

/// The value of a decimal digit.
pub open spec fn digit_value(c: char) -> Option<nat> {
    if 0x30 <= c as u32 <= 0x39 {
        Some((c as u32 - 0x30) as nat)
    } else {
        None
    }
}

/// The number that a text of decimal digits denotes; `None` unless every
/// character is a digit.
pub open spec fn digits_value(s: Seq<char>) -> Option<nat>
    decreases s.len(),
{
    if s.len() == 0 {
        Some(0)
    } else {
        match (digits_value(s.drop_last()), digit_value(s.last())) {
            (Some(high), Some(low)) => Some(high * 10 + low),
            _ => None,
        }
    }
}

/// An unsigned decimal number: an optional plus sign, then at least one digit
/// and nothing else.
pub open spec fn number(s: Seq<char>) -> Option<nat> {
    let digits = if s.len() > 0 && s[0] == '+' {
        s.skip(1)
    } else {
        s
    };
    if digits.len() == 0 {
        None
    } else {
        digits_value(digits)
    }
}

/// `number` as far as it is at most `max`.
pub open spec fn number_up_to(s: Seq<char>, max: nat) -> Option<nat> {
    match number(s) {
        Some(n) => if n <= max {
            Some(n)
        } else {
            None
        },
        None => None,
    }
}

/// Digits put before others make the number no smaller.
proof fn lemma_digits_grow(s: Seq<char>, k: int)
    requires
        0 <= k <= s.len(),
    ensures
        digits_value(s) is Some ==> digits_value(s.take(k)) is Some && digits_value(s.take(k))->0
            <= digits_value(s)->0,
    decreases s.len() - k,
{
    if k == s.len() {
        assert(s.take(k) =~= s);
    } else {
        lemma_digits_grow(s, k + 1);
        assert(s.take(k + 1).drop_last() =~= s.take(k));
    }
}

pub fn parse_number(s: &str, max: u64) -> (r: Option<u64>)
    ensures
        match r {
            Some(n) => number_up_to(s@, max as nat) == Some(n as nat),
            None => number_up_to(s@, max as nat) is None,
        },
{
    let v = chars_of(s);
    let from: usize = if v.len() > 0 && v[0] == '+' {
        1
    } else {
        0
    };
    let ghost digits = v@.skip(from as int);
    proof {
        assert(v@.skip(0) =~= v@);
    }
    if from == v.len() {
        return None;
    }
    let mut value: u64 = 0;
    let mut i: usize = from;
    proof {
        assert(digits.take(0) =~= Seq::<char>::empty());
    }
    while i < v.len()
        invariant
            from <= i <= v@.len(),
            digits == v@.skip(from as int),
            digits.len() > 0,
            number(s@) == digits_value(digits),
            digits_value(digits.take(i - from)) == Some(value as nat),
            value <= max,
        decreases v@.len() - i,
    {
        proof {
            lemma_digits_grow(digits, i - from + 1);
            assert(digits.take(i - from + 1).drop_last() =~= digits.take(i - from));
            assert(digits.take(i - from + 1).last() == v@[i as int]);
        }
        let u: u32 = v[i] as u32;
        if u < 0x30 || u > 0x39 {
            return None;
        }
        let low: u64 = (u - 0x30) as u64;
        if value > (max - (if low <= max { low } else { max })) / 10 || low > max {
            proof {
                assert(value * 10 + low > max);
            }
            return None;
        }
        proof {
            assert(digit_value(v@[i as int]) == Some(low as nat));
            assert(digits_value(digits.take(i - from + 1)) == Some((value * 10 + low) as nat));
        }
        value = value * 10 + low;
        i += 1;
        proof {
            assert(i - 1 - from + 1 == i - from);
        }
    }
    proof {
        assert(digits.take(i - from) =~= digits);
    }
    Some(value)
}

// ------------------------------------------------------------------------ laws

proof fn lemma_trimmed_end(s: Seq<char>)
    ensures
        trimmed_end(s).len() <= s.len(),
        trimmed_end(s) == s.take(trimmed_end(s).len() as int),
        trimmed_end(s).len() > 0 ==> !is_space(trimmed_end(s).last()),
        forall|i: int| trimmed_end(s).len() <= i < s.len() ==> is_space(#[trigger] s[i]),
    decreases s.len(),
{
    if s.len() > 0 && is_space(s.last()) {
        let rest = s.drop_last();
        lemma_trimmed_end(rest);
        assert(rest.take(trimmed_end(s).len() as int) =~= s.take(trimmed_end(s).len() as int));
        assert forall|i: int| trimmed_end(s).len() <= i < s.len() implies is_space(
            #[trigger] s[i],
        ) by {
            if i < rest.len() {
                assert(rest[i] == s[i]);
            }
        }
    } else {
        assert(s.take(s.len() as int) =~= s);
    }
}

proof fn lemma_trimmed_start(s: Seq<char>)
    ensures
        trimmed_start(s).len() <= s.len(),
        trimmed_start(s) == s.skip(s.len() - trimmed_start(s).len()),
        trimmed_start(s).len() > 0 ==> !is_space(trimmed_start(s)[0]),
        forall|i: int| 0 <= i < s.len() - trimmed_start(s).len() ==> is_space(#[trigger] s[i]),
    decreases s.len(),
{
    if s.len() > 0 && is_space(s[0]) {
        let rest = s.skip(1);
        lemma_trimmed_start(rest);
        let n = trimmed_start(s).len();
        assert(rest.skip(rest.len() - n) =~= s.skip(s.len() - n));
        assert forall|i: int| 0 <= i < s.len() - n implies is_space(#[trigger] s[i]) by {
            if i > 0 {
                assert(rest[i - 1] == s[i]);
            }
        }
    } else {
        assert(s.skip(0) =~= s);
    }
}

/// A text without the white space around it is what is left between white space
/// and white space; it neither starts nor ends with any.
pub proof fn trimming_takes_white_space_alone(s: Seq<char>)
    ensures
        trimmed(s).len() > 0 ==> !is_space(trimmed(s)[0]) && !is_space(trimmed(s).last()),
        exists|from: int, to: int|
            {
                &&& 0 <= from <= to <= s.len()
                &&& trimmed(s) == #[trigger] s.subrange(from, to)
                &&& forall|i: int| 0 <= i < from || to <= i < s.len() ==> is_space(#[trigger] s[i])
            },
{
    let e = trimmed_end(s);
    lemma_trimmed_end(s);
    lemma_trimmed_start(e);
    let to = e.len() as int;
    let from = to - trimmed(s).len();
    assert(trimmed(s) =~= s.subrange(from, to));
    assert forall|i: int| 0 <= i < from || to <= i < s.len() implies is_space(#[trigger] s[i]) by {
        if i < from {
            assert(e[i] == s[i]);
        }
    }
    if trimmed(s).len() > 0 {
        assert(trimmed(s).last() == e.last());
    }
}

/// White space is what it is taken for: blanks, tabs and the ends of lines are,
/// and no visible ASCII character is.
pub proof fn ascii_white_space(c: char)
    requires
        c as u32 <= 0x7f,
    ensures
        is_space(c) <==> c == ' ' || c == '\t' || c == '\n' || c == '\r' || c as u32 == 0x0b
            || c as u32 == 0x0c,
{
}

/// A number that is written in decimal is read as what it was.
pub proof fn a_written_number_is_read_back(n: nat)
    ensures
        digits_value(text::dec(n)) == Some(n),
        number(text::dec(n)) == Some(n),
        number(seq!['+'] + text::dec(n)) == Some(n),
    decreases n,
{
    text::a_number_is_written_in_digits(n);
    let s = text::dec(n);
    assert((seq!['+'] + s).skip(1) =~= s);
    text::digits_are_in_order((n % 10) as int);
    if n >= 10 {
        a_written_number_is_read_back(n / 10);
        assert(s.drop_last() =~= text::dec(n / 10));
        assert(digit_value(s.last()) == Some((n % 10) as nat));
        assert(n / 10 * 10 + n % 10 == n);
    } else {
        text::digits_are_in_order(n as int);
        assert(s.drop_last() =~= Seq::<char>::empty());
        assert(digits_value(s.drop_last()) == Some(0nat));
        assert(s.last() == text::hex_digit(n as int));
        assert(digit_value(s.last()) == Some(n));
    }
    assert('0' as u32 <= s[0] as u32);
    assert(s[0] != '+');
}

/// What holds anything but digits is no number, and neither is nothing.
pub proof fn only_digits_make_a_number(s: Seq<char>)
    ensures
        digits_value(s) is Some <==> forall|i: int|
            0 <= i < s.len() ==> '0' as u32 <= (#[trigger] s[i]) as u32 <= '9' as u32,
        number(Seq::empty()) is None,
        number(seq!['+']) is None,
    decreases s.len(),
{
    assert(seq!['+'].skip(1).len() == 0);
    if s.len() > 0 {
        only_digits_make_a_number(s.drop_last());
        let rest = s.drop_last();
        if digits_value(s) is Some {
            assert forall|i: int| 0 <= i < s.len() implies '0' as u32 <= (
            #[trigger] s[i]) as u32 <= '9' as u32 by {
                if i < rest.len() {
                    assert(rest[i] == s[i]);
                }
            }
        } else if forall|i: int|
            0 <= i < s.len() ==> '0' as u32 <= (#[trigger] s[i]) as u32 <= '9' as u32 {
            assert forall|i: int| 0 <= i < rest.len() implies '0' as u32 <= (
            #[trigger] rest[i]) as u32 <= '9' as u32 by {
                assert(rest[i] == s[i]);
            }
            assert('0' as u32 <= s[s.len() - 1] as u32 <= '9' as u32);
        }
    }
}

/// A number is taken if and only if it is at most the greatest that is allowed.
pub proof fn a_number_is_taken_up_to_its_limit(s: Seq<char>, max: nat)
    ensures
        number_up_to(s, max) is Some <==> number(s) is Some && number(s)->0 <= max,
        number_up_to(s, max) is Some ==> number_up_to(s, max) == number(s),
{
}

/// Two texts are the same but for the case of letters if and only if they have the
/// same characters once every capital letter of ASCII is made small.
pub proof fn case_is_that_of_ascii_letters(a: char, b: char)
    ensures
        equal_ignoring_case(seq![a], seq![a]),
        equal_ignoring_case(seq![a], seq![b]) ==> a == b || (a as u32 == b as u32 + 32 && 'A' <= b
            <= 'Z') || (b as u32 == a as u32 + 32 && 'A' <= a <= 'Z'),
        'A' <= a <= 'Z' && b as u32 == a as u32 + 32 ==> equal_ignoring_case(seq![a], seq![b]),
{
    assert(seq![a][0] == a && seq![b][0] == b);
    if equal_ignoring_case(seq![a], seq![b]) {
        assert(ascii_lower(seq![a][0]) == ascii_lower(seq![b][0]));
    }
}

/// Texts are compared character by character: two that are put together are the
/// same but for case if and only if their parts of the same length are.
pub proof fn case_is_ignored_character_by_character(
    a: Seq<char>,
    b: Seq<char>,
    x: char,
    y: char,
)
    ensures
        equal_ignoring_case(a.push(x), b.push(y)) <==> equal_ignoring_case(a, b)
            && equal_ignoring_case(seq![x], seq![y]),
        equal_ignoring_case(a, b) ==> a.len() == b.len(),
{
    let p = a.push(x);
    let q = b.push(y);
    assert(seq![x][0] == x && seq![y][0] == y);
    if equal_ignoring_case(p, q) {
        assert forall|i: int| 0 <= i < a.len() implies ascii_lower(#[trigger] a[i]) == ascii_lower(
            b[i],
        ) by {
            assert(p[i] == a[i] && q[i] == b[i]);
            assert(ascii_lower(p[i]) == ascii_lower(q[i]));
        }
        assert(ascii_lower(p[a.len() as int]) == ascii_lower(q[a.len() as int]));
    }
    if equal_ignoring_case(a, b) && equal_ignoring_case(seq![x], seq![y]) {
        assert(ascii_lower(seq![x][0]) == ascii_lower(seq![y][0]));
        assert forall|i: int| 0 <= i < p.len() implies ascii_lower(#[trigger] p[i]) == ascii_lower(
            q[i],
        ) by {
            if i < a.len() {
                assert(p[i] == a[i] && q[i] == b[i]);
                assert(ascii_lower(a[i]) == ascii_lower(b[i]));
            }
        }
    }
}

/// A line that is put before a text, with its end, is the first of its lines; the
/// carriage return of such an end is no part of the line. A text without a line
/// feed is one line, as it is, and nothing is no line.
pub proof fn lines_are_split_at_line_feeds(line: Seq<char>, rest: Seq<char>)
    requires
        !line.contains('\n'),
    ensures
        lines(Seq::empty()) == Seq::<Seq<char>>::empty(),
        line.len() > 0 ==> lines(line) == seq![line],
        line.len() == 0 || line.last() != '\r' ==> lines(line + seq!['\n'] + rest) == seq![line]
            + lines(rest),
        lines(line + seq!['\r', '\n'] + rest) == seq![line] + lines(rest),
{
    assert forall|i: int| 0 <= i < line.len() implies line[i] != '\n' by {
        assert(line.contains(line[i]));
    }
    lemma_position_is(line, '\n', line.len() as int);
    let a = line + seq!['\n'] + rest;
    lemma_position_is(a, '\n', line.len() as int);
    assert(a.take(line.len() as int) =~= line);
    assert(a.skip((line.len() + 1) as int) =~= rest);
    let b = line + seq!['\r', '\n'] + rest;
    lemma_position_is(b, '\n', (line.len() + 1) as int);
    assert(b.take((line.len() + 1) as int) =~= line.push('\r'));
    assert(line.push('\r').drop_last() =~= line);
    assert(b.skip((line.len() + 2) as int) =~= rest);
}

proof fn lemma_word_len(word: Seq<char>, rest: Seq<char>)
    requires
        forall|i: int| 0 <= i < word.len() ==> !is_space(#[trigger] word[i]),
        rest.len() == 0 || is_space(rest[0]),
    ensures
        word_len(word + rest) == word.len(),
    decreases word.len(),
{
    if word.len() > 0 {
        let tail = word.skip(1);
        assert forall|i: int| 0 <= i < tail.len() implies !is_space(#[trigger] tail[i]) by {
            assert(tail[i] == word[i + 1]);
        }
        lemma_word_len(tail, rest);
        assert((word + rest).skip(1) =~= tail + rest);
        assert((word + rest)[0] == word[0]);
    } else {
        assert(word + rest =~= rest);
    }
}

/// The second word of a line is what stands behind the first one and one blank, up
/// to the next blank or the end.
pub proof fn the_second_word_follows_the_first(
    first: Seq<char>,
    second: Seq<char>,
    rest: Seq<char>,
)
    requires
        first.len() > 0,
        second.len() > 0,
        forall|i: int| 0 <= i < first.len() ==> !is_space(#[trigger] first[i]),
        forall|i: int| 0 <= i < second.len() ==> !is_space(#[trigger] second[i]),
        rest.len() == 0 || is_space(rest[0]),
    ensures
        second_word(first + seq![' '] + second + rest) == Some(second),
        second_word(first) is None,
{
    let s = first + seq![' '] + second + rest;
    let after = seq![' '] + second + rest;
    assert(s =~= first + after);
    assert(!is_space(first[0]));
    assert(s[0] == first[0]);
    assert(trimmed_start(s) == s);
    lemma_word_len(first, after);
    assert(s.skip(first.len() as int) =~= after);
    assert(after.skip(1) =~= second + rest);
    assert(!is_space(second[0]));
    assert((second + rest)[0] == second[0]);
    assert(trimmed_start(second + rest) == second + rest);
    assert(trimmed_start(after) == second + rest);
    lemma_word_len(second, rest);
    assert((second + rest).take(second.len() as int) =~= second);
    let nothing = Seq::<char>::empty();
    lemma_word_len(first, nothing);
    assert(first + nothing =~= first);
    assert(trimmed_start(first) == first);
    assert(first.skip(first.len() as int) =~= nothing);
    assert(trimmed_start(nothing) == nothing);
    assert(nothing.take(word_len(nothing)) =~= nothing);
}

/// A text is split at its first colon.
pub proof fn a_header_is_split_at_its_first_colon(key: Seq<char>, value: Seq<char>)
    requires
        !key.contains(':'),
    ensures
        split_colon(key + seq![':'] + value) == Some((key, value)),
        split_colon(key) is None,
{
    assert forall|i: int| 0 <= i < key.len() implies key[i] != ':' by {
        assert(key.contains(key[i]));
    }
    let s = key + seq![':'] + value;
    lemma_position_is(s, ':', key.len() as int);
    lemma_position_is(key, ':', key.len() as int);
    assert(s.take(key.len() as int) =~= key);
    assert(s.skip((key.len() + 1) as int) =~= value);
}

/// A text starts with another if and only if it is that and something more.
pub proof fn a_prefix_is_followed_by_the_rest(s: Seq<char>, prefix: Seq<char>)
    ensures
        starts_with(s, prefix) <==> exists|rest: Seq<char>| s == prefix + rest,
{
    if starts_with(s, prefix) {
        let n = prefix.len() as int;
        assert(s =~= s.take(n) + s.skip(n));
    }
    assert forall|rest: Seq<char>| s == prefix + rest implies starts_with(s, prefix) by {
        assert(s.take(prefix.len() as int) =~= prefix);
    }
}

/// White space is what Unicode says it is.
pub proof fn white_space_is_that_of_unicode(c: char)
    ensures
        is_space(c) <==> {
            ||| c == '\t' || c == '\n' || c == '\u{b}' || c == '\u{c}' || c == '\r'
            ||| c == ' ' || c == '\u{85}' || c == '\u{a0}' || c == '\u{1680}'
            ||| '\u{2000}' <= c <= '\u{200a}'
            ||| c == '\u{2028}' || c == '\u{2029}' || c == '\u{202f}' || c == '\u{205f}'
            ||| c == '\u{3000}'
        },
{
}

/// A text without the white space at its end is how it begins, up to its last
/// character that is none.
pub proof fn the_end_is_trimmed_of_white_space(s: Seq<char>)
    ensures
        trimmed_end(s).len() <= s.len(),
        trimmed_end(s) == s.take(trimmed_end(s).len() as int),
        trimmed_end(s).len() > 0 ==> !is_space(trimmed_end(s).last()),
        forall|i: int| trimmed_end(s).len() <= i < s.len() ==> is_space(#[trigger] s[i]),
{
    lemma_trimmed_end(s);
}

} // verus!
