//! Identifiers of virtual machines: 128-bit numbers drawn at random, and the
//! two ways in which they are written.

use crate::text::{self, chars_of, text_of};
use vstd::arithmetic::power::pow;
use vstd::prelude::*;

verus! {

/// The `i`-th of the 32 hexadecimal digits of `id`, the most significant one
/// being digit 0.
pub open spec fn id_digit(id: u128, i: int) -> int {
    (id as int / pow(16, (31 - i) as nat)) % 16
}

/// `id` as 32 lower-case hexadecimal digits.
pub open spec fn simple_form(id: u128) -> Seq<char> {
    Seq::new(32, |i: int| text::hex_digit(id_digit(id, i)))
}

/// `id` as lower-case hexadecimal digits in groups of 8, 4, 4, 4 and 12 with
/// hyphens between them.
pub open spec fn hyphenated_form(id: u128) -> Seq<char> {
    let s = simple_form(id);
    s.subrange(0, 8) + "-"@ + s.subrange(8, 12) + "-"@ + s.subrange(12, 16) + "-"@ + s.subrange(
        16,
        20,
    ) + "-"@ + s.subrange(20, 32)
}

/// What every identifier drawn at random has in common: version 4 in digit 12
/// and the RFC variant (binary `10`) in the two high bits of digit 16.
pub open spec fn is_random_id(id: u128) -> bool {
    id_digit(id, 12) == 4 && 8 <= id_digit(id, 16) <= 11
}

/// A number that was drawn at random. What makes it one is not told outside this
/// module, so nothing there is known to be one but what `random_id` gave.
pub closed spec fn was_drawn(id: u128) -> bool {
    is_random_id(id)
}

/// `uuid::Uuid::new_v4`, read as a number: a random identifier, of which only
/// the version and the variant are fixed. Two calls may differ.
#[verifier::external_body]
pub(crate) fn random_id() -> (id: u128)
    ensures
        is_random_id(id),
        was_drawn(id),
{
    uuid::Uuid::new_v4().as_u128()
}

/// The `Display` form of `uuid::fmt::Simple`: 32 lower-case digits, most
/// significant first.
#[verifier::external_body]
pub(crate) fn simple(id: u128) -> (r: String)
    ensures
        r@ == simple_form(id),
{
    uuid::Uuid::from_u128(id).simple().to_string()
}

/// The `Display` form of `uuid::Uuid`: the lower-case digits with hyphens
/// after digits 8, 12, 16 and 20.
#[verifier::external_body]
pub(crate) fn hyphenated(id: u128) -> (r: String)
    ensures
        r@ == hyphenated_form(id),
{
    uuid::Uuid::from_u128(id).to_string()
}

/// The first eight digits of `id`: short enough to be part of the name of a
/// network interface.
pub open spec fn short_form(id: u128) -> Seq<char> {
    simple_form(id).subrange(0, 8)
}

pub fn short_id(id: u128) -> (r: String)
    ensures
        r@ == short_form(id),
        r@.len() == 8,
{
    let digits = simple(id);
    let v = chars_of(digits.as_str());
    text_of(&v, 0, 8)
}

/// The text form of `id`, as it stands in paths.
pub fn id_text(id: u128) -> (r: String)
    ensures
        r@ == hyphenated_form(id),
{
    hyphenated(id)
}

// ------------------------------------------------------------------------ laws

/// The short form of an identifier is made of eight hexadecimal digits, each of
/// which is one byte in UTF-8.
pub proof fn short_form_is_ascii(id: u128)
    ensures
        short_form(id).len() == 8,
        vstd::utf8::is_ascii_chars(short_form(id)),
{
    assert forall|i: int| 0 <= i < 8 implies 0 <= (#[trigger] short_form(id)[i]) as nat <= 127 by {
        assert(short_form(id)[i] == text::hex_digit(id_digit(id, i)));
    }
}

/// The short form of an identifier is how its text form begins.
pub proof fn the_short_form_begins_the_text(id: u128)
    ensures
        hyphenated_form(id).len() == 36,
        short_form(id) == hyphenated_form(id).take(8),
        hyphenated_form(id)[8] == '-',
{
    reveal_strlit("-");
    assert(short_form(id) =~= hyphenated_form(id).take(8));
}

} // verus!
