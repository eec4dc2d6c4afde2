//! Text building blocks: views, characters, bytes, concatenation, and decimal
//! and hexadecimal rendering, all stated over sequences of characters.

use vstd::prelude::*;
use vstd::utf8;

verus! {

/// Appends one character to a string (`String::push` of std): the contents
/// grow by exactly that character.
pub assume_specification[ String::push ](s: &mut String, c: char)
    ensures
        final(s)@ == old(s)@.push(c),
;

// --------------------------------------------------------------------- views

/// The view of what an option holds.
pub open spec fn opt<T: View>(o: Option<T>) -> Option<T::V> {
    match o {
        Some(x) => Some(x@),
        None => None,
    }
}

/// The views of the items of a sequence.
pub open spec fn views<T: View>(s: Seq<T>) -> Seq<T::V> {
    Seq::new(s.len(), |i: int| s[i]@)
}

pub proof fn lemma_views_push<T: View>(s: Seq<T>, x: T)
    ensures
        views(s.push(x)) == views(s).push(x@),
{
    assert(views(s.push(x)) =~= views(s).push(x@));
}

pub proof fn lemma_filter_step<T>(s: Seq<T>, n: int, p: spec_fn(T) -> bool)
    requires
        0 <= n < s.len(),
    ensures
        s.take(n + 1).filter(p) == if p(s[n]) {
            s.take(n).filter(p).push(s[n])
        } else {
            s.take(n).filter(p)
        },
{
    assert(s.take(n + 1).drop_last() =~= s.take(n));
    assert(s.take(n + 1).last() == s[n]);
    reveal_with_fuel(Seq::filter, 2);
}

/// A copy of a list of strings.
pub fn clone_texts(v: &Vec<String>) -> (r: Vec<String>)
    ensures
        views(r@) == views(v@),
{
    let r = v.clone();
    proof {
        assert(views(r@) =~= views(v@));
    }
    r
}

/// A copy of an optional string.
pub fn clone_text(o: &Option<String>) -> (r: Option<String>)
    ensures
        r == *o,
{
    match o {
        Some(s) => Some(s.clone()),
        None => None,
    }
}

// ---------------------------------------------------------------- characters

/// The characters of `s`, in order.
pub fn chars_of(s: &str) -> (r: Vec<char>)
    ensures
        r@ == s@,
{
    let mut out: Vec<char> = Vec::new();
    for c in it: s.chars()
        invariant
            out@ == it.seq().take(it.index()),
            it.seq() == s@,
    {
        proof {
            assert(it.seq().take(it.index() + 1) =~= it.seq().take(it.index()).push(
                it.seq()[it.index()],
            ));
        }
        out.push(c);
    }
    out
}

/// The string made of `v[from..to]`.
pub fn text_of(v: &Vec<char>, from: usize, to: usize) -> (r: String)
    requires
        from <= to <= v@.len(),
    ensures
        r@ == v@.subrange(from as int, to as int),
{
    let mut out = String::new();
    let mut i: usize = from;
    while i < to
        invariant
            from <= i <= to <= v@.len(),
            out@ == v@.subrange(from as int, i as int),
        decreases to - i,
    {
        out.push(v[i]);
        i += 1;
        proof {
            assert(v@.subrange(from as int, i as int) =~= v@.subrange(
                from as int,
                i - 1,
            ).push(v@[i - 1]));
        }
    }
    out
}

/// Whether two strings hold the same characters.
pub fn same_text(a: &str, b: &str) -> (r: bool)
    ensures
        r == (a@ == b@),
{
    let x = chars_of(a);
    let y = chars_of(b);
    if x.len() != y.len() {
        return false;
    }
    let mut i: usize = 0;
    while i < x.len()
        invariant
            i <= x@.len() == y@.len(),
            x@ == a@,
            y@ == b@,
            forall|j: int| 0 <= j < i ==> x@[j] == y@[j],
        decreases x@.len() - i,
    {
        if x[i] != y[i] {
            return false;
        }
        i += 1;
    }
    proof {
        assert(a@ =~= b@);
    }
    true
}

// --------------------------------------------------------------------- bytes

/// Bytes read as UTF-8, with U+FFFD in place of what is no UTF-8.
pub uninterp spec fn utf8_lossy(bytes: Seq<u8>) -> Seq<char>;

/// `String::from_utf8_lossy` of std: the same bytes always give the same
/// text, and valid UTF-8 gives the text that it encodes.
#[verifier::external_body]
pub(crate) fn text_lossy(bytes: &Vec<u8>) -> (r: String)
    ensures
        r@ == utf8_lossy(bytes@),
        utf8::valid_utf8(bytes@) ==> r@ == utf8::decode_utf8(bytes@),
{
    String::from_utf8_lossy(bytes).into_owned()
}

/// The number of bytes of a text in UTF-8.
pub fn byte_len(s: &str) -> (r: usize)
    ensures
        r == utf8::encode_utf8(s@).len(),
{
    s.as_bytes().len()
}

// ------------------------------------------------------------- concatenation

pub fn cat2(a: &str, b: &str) -> (r: String)
    ensures
        r@ == a@ + b@,
{
    let mut out = a.to_owned();
    out.append(b);
    out
}

pub fn cat3(a: &str, b: &str, c: &str) -> (r: String)
    ensures
        r@ == a@ + b@ + c@,
{
    let mut out = cat2(a, b);
    out.append(c);
    out
}

pub fn cat4(a: &str, b: &str, c: &str, d: &str) -> (r: String)
    ensures
        r@ == a@ + b@ + c@ + d@,
{
    let mut out = cat3(a, b, c);
    out.append(d);
    out
}

pub fn cat5(a: &str, b: &str, c: &str, d: &str, e: &str) -> (r: String)
    ensures
        r@ == a@ + b@ + c@ + d@ + e@,
{
    let mut out = cat4(a, b, c, d);
    out.append(e);
    out
}

/// The items with `sep` between them.
pub open spec fn separated(items: Seq<Seq<char>>, sep: Seq<char>) -> Seq<char>
    decreases items.len(),
{
    if items.len() == 0 {
        Seq::empty()
    } else if items.len() == 1 {
        items[0]
    } else {
        separated(items.drop_last(), sep) + sep + items.last()
    }
}

pub fn join_with(items: &Vec<String>, sep: &str) -> (r: String)
    ensures
        r@ == separated(views(items@), sep@),
{
    let ghost all = views(items@);
    if items.len() == 0 {
        return String::new();
    }
    let mut out = items[0].clone();
    let mut i: usize = 1;
    proof {
        assert(all.take(1)[0] == items@[0]@);
    }
    while i < items.len()
        invariant
            1 <= i <= items@.len(),
            all == views(items@),
            out@ == separated(all.take(i as int), sep@),
        decreases items@.len() - i,
    {
        out.append(sep);
        out.append(items[i].as_str());
        proof {
            assert(all.take(i + 1).drop_last() =~= all.take(i as int));
            assert(all.take(i + 1).last() == items@[i as int]@);
        }
        i += 1;
    }
    proof {
        assert(all.take(i as int) =~= all);
    }
    out
}

// -------------------------------------------------------------------- digits

/// The character of a digit below sixteen, letters in lower case.
pub open spec fn hex_digit(d: int) -> char {
    if d == 0 { '0' } else if d == 1 { '1' } else if d == 2 { '2' } else if d == 3 { '3' }
    else if d == 4 { '4' } else if d == 5 { '5' } else if d == 6 { '6' } else if d == 7 { '7' }
    else if d == 8 { '8' } else if d == 9 { '9' } else if d == 10 { 'a' } else if d == 11 { 'b' }
    else if d == 12 { 'c' } else if d == 13 { 'd' } else if d == 14 { 'e' } else { 'f' }
}

fn digit_char(d: u8) -> (r: char)
    requires
        d < 16,
    ensures
        r == hex_digit(d as int),
{
    match d {
        0 => '0',
        1 => '1',
        2 => '2',
        3 => '3',
        4 => '4',
        5 => '5',
        6 => '6',
        7 => '7',
        8 => '8',
        9 => '9',
        10 => 'a',
        11 => 'b',
        12 => 'c',
        13 => 'd',
        14 => 'e',
        _ => 'f',
    }
}

/// `n` written in decimal, without leading zeros.
pub open spec fn dec(n: nat) -> Seq<char>
    decreases n,
{
    if n < 10 {
        seq![hex_digit(n as int)]
    } else {
        dec(n / 10).push(hex_digit((n % 10) as int))
    }
}

/// A signed number in decimal: a minus sign before a negative one.
pub open spec fn dec_signed(n: int) -> Seq<char> {
    if n < 0 {
        "-"@ + dec((-n) as nat)
    } else {
        dec(n as nat)
    }
}

pub fn decimal(n: u64) -> (r: String)
    ensures
        r@ == dec(n as nat),
    decreases n,
{
    if n < 10 {
        let mut out = String::new();
        out.push(digit_char(n as u8));
        proof {
            assert(out@ =~= seq![hex_digit(n as int)]);
        }
        out
    } else {
        let mut out = decimal(n / 10);
        out.push(digit_char((n % 10) as u8));
        out
    }
}

pub fn decimal_signed(n: i32) -> (r: String)
    ensures
        r@ == dec_signed(n as int),
{
    if n < 0 {
        let magnitude: i64 = -(n as i64);
        let digits = decimal(magnitude as u64);
        cat2("-", digits.as_str())
    } else {
        decimal(n as u64)
    }
}

/// Bytes in lower-case hexadecimal, two digits each.
pub open spec fn hex(bytes: Seq<u8>) -> Seq<char>
    decreases bytes.len(),
{
    if bytes.len() == 0 {
        Seq::empty()
    } else {
        hex(bytes.drop_last()).push(hex_digit(bytes.last() as int / 16)).push(
            hex_digit(bytes.last() as int % 16),
        )
    }
}

pub fn hex_of(bytes: &Vec<u8>) -> (r: String)
    ensures
        r@ == hex(bytes@),
{
    let mut out = String::new();
    let mut i: usize = 0;
    proof {
        assert(bytes@.take(0) =~= Seq::<u8>::empty());
    }
    while i < bytes.len()
        invariant
            i <= bytes@.len(),
            out@ == hex(bytes@.take(i as int)),
        decreases bytes@.len() - i,
    {
        let b: u8 = bytes[i];
        proof {
            assert(bytes@.take(i + 1).drop_last() =~= bytes@.take(i as int));
            assert(bytes@.take(i + 1).last() == b);
        }
        out.push(digit_char(b / 16));
        out.push(digit_char(b % 16));
        i += 1;
    }
    proof {
        assert(bytes@.take(i as int) =~= bytes@);
    }
    out
}

// ------------------------------------------------------------------------ laws

/// A number is written in decimal digits, without a zero before others; a digit
/// behind it makes it ten times as large and adds the digit.
pub proof fn a_number_is_written_in_digits(n: nat)
    ensures
        dec(n).len() > 0,
        forall|i: int|
            0 <= i < dec(n).len() ==> '0' as u32 <= (#[trigger] dec(n)[i]) as u32 <= '9' as u32,
        n > 0 ==> dec(n)[0] != '0',
        n == 0 ==> dec(n) == seq!['0'],
    decreases n,
{
    if n >= 10 {
        a_number_is_written_in_digits(n / 10);
        let high = dec(n / 10);
        assert forall|i: int| 0 <= i < dec(n).len() implies '0' as u32 <= (
        #[trigger] dec(n)[i]) as u32 <= '9' as u32 by {
            if i < high.len() {
                assert(dec(n)[i] == high[i]);
            }
        }
        assert(dec(n)[0] == high[0]);
    }
}

/// A negative number is written with a minus sign before what it is without it.
pub proof fn a_negative_number_has_a_sign(n: int)
    ensures
        n >= 0 ==> dec_signed(n) == dec(n as nat),
        n < 0 ==> dec_signed(n) == seq!['-'] + dec((-n) as nat),
{
    reveal_strlit("-");
    assert("-"@ =~= seq!['-']);
}

/// Every byte is written as two hexadecimal digits, the high one first, in the
/// order of the bytes.
pub proof fn every_byte_is_two_digits(bytes: Seq<u8>)
    ensures
        hex(bytes).len() == 2 * bytes.len(),
        forall|i: int|
            0 <= i < bytes.len() ==> hex(bytes)[2 * i] == hex_digit(
                (#[trigger] bytes[i]) as int / 16,
            ) && hex(bytes)[2 * i + 1] == hex_digit(bytes[i] as int % 16),
    decreases bytes.len(),
{
    if bytes.len() > 0 {
        let rest = bytes.drop_last();
        every_byte_is_two_digits(rest);
        assert forall|i: int| 0 <= i < bytes.len() implies hex(bytes)[2 * i] == hex_digit(
            (#[trigger] bytes[i]) as int / 16,
        ) && hex(bytes)[2 * i + 1] == hex_digit(bytes[i] as int % 16) by {
            if i < rest.len() {
                assert(rest[i] == bytes[i]);
                assert(hex(bytes)[2 * i] == hex(rest)[2 * i]);
                assert(hex(bytes)[2 * i + 1] == hex(rest)[2 * i + 1]);
            }
        }
    }
}

/// The sixteen digits are `0` to `9` and then `a` to `f`.
pub proof fn digits_are_in_order(d: int)
    requires
        0 <= d < 16,
    ensures
        d < 10 ==> hex_digit(d) as u32 == '0' as u32 + d,
        d >= 10 ==> hex_digit(d) as u32 == 'a' as u32 + d - 10,
{
}

/// Items that are put together have the separator between them and nothing else:
/// one item stands alone, and two lists of items are joined by one separator.
pub proof fn items_are_joined_by_the_separator(
    a: Seq<Seq<char>>,
    b: Seq<Seq<char>>,
    item: Seq<char>,
    sep: Seq<char>,
)
    ensures
        separated(Seq::empty(), sep) == Seq::<char>::empty(),
        separated(seq![item], sep) == item,
        a.len() > 0 && b.len() > 0 ==> separated(a + b, sep) == separated(a, sep) + sep + separated(
            b,
            sep,
        ),
    decreases b.len(),
{
    if a.len() > 0 && b.len() > 0 {
        let all = a + b;
        assert(all.drop_last() =~= a + b.drop_last());
        if b.len() == 1 {
            assert(a + b.drop_last() =~= a);
            assert(separated(all, sep) =~= separated(a, sep) + sep + separated(b, sep));
        } else {
            items_are_joined_by_the_separator(a, b.drop_last(), item, sep);
            assert(separated(all, sep) =~= separated(a, sep) + sep + separated(b, sep));
        }
    }
}

/// `part` stands somewhere in `s`.
pub open spec fn holds(s: Seq<char>, part: Seq<char>) -> bool {
    exists|before: Seq<char>, after: Seq<char>| s == #[trigger] (before + part + after)
}

pub proof fn lemma_holds(before: Seq<char>, part: Seq<char>, after: Seq<char>, s: Seq<char>)
    requires
        s == before + part + after,
    ensures
        holds(s, part),
{
}

/// What stands in a part of a text stands in the text.
pub proof fn what_a_part_holds_the_whole_holds(
    before: Seq<char>,
    s: Seq<char>,
    after: Seq<char>,
    part: Seq<char>,
)
    requires
        holds(s, part),
    ensures
        holds(before + s + after, part),
{
    let (x, y) = choose|x: Seq<char>, y: Seq<char>| s == #[trigger] (x + part + y);
    assert(before + s + after =~= (before + x) + part + (y + after));
}

/// What stands in a text stands there still when more is put behind it; and what
/// was put there stands there.
pub proof fn what_is_put_behind_hides_nothing(s: Seq<char>, more: Seq<char>)
    ensures
        holds(s + more, more),
        forall|part: Seq<char>| #[trigger] holds(s, part) ==> holds(s + more, part),
{
    let nothing = Seq::<char>::empty();
    assert(s + more =~= s + more + nothing);
    assert forall|part: Seq<char>| #[trigger] holds(s, part) implies holds(s + more, part) by {
        what_a_part_holds_the_whole_holds(nothing, s, more, part);
        assert(nothing + s + more =~= s + more);
    }
}

/// What an option or a list holds is shown as it is, item by item.
pub proof fn views_show_every_item<T: View>(s: Seq<T>, i: int, o: Option<T>)
    ensures
        views(s).len() == s.len(),
        0 <= i < s.len() ==> views(s)[i] == s[i]@,
        opt(o) is Some <==> o is Some,
        o matches Some(x) ==> opt(o) == Some(x@),
{
}

} // verus!
