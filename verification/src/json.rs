//! JSON values, as `serde_json` reads and writes them.

use crate::text;
use vstd::prelude::*;

verus! {

/// `serde_json::Value`: a JSON value, opaque here.
#[verifier::external_type_specification]
#[verifier::external_body]
pub struct ExJsonValue(serde_json::Value);

/// `serde_json::Error`: why a text is no JSON, opaque here.
#[verifier::external_type_specification]
#[verifier::external_body]
pub struct ExJsonError(serde_json::Error);

// ----------------------------------------------------------------------- values

/// What a JSON value holds.
pub enum Json {
    Null,
    Bool(bool),
    /// A number by the text that it is written as.
    Number(Seq<char>),
    Text(Seq<char>),
    List(Seq<Json>),
    Object(Map<Seq<char>, Json>),
}

/// What a `serde_json::Value` holds.
pub uninterp spec fn json_tree(v: serde_json::Value) -> Json;

/// The compact text of a JSON value.
pub uninterp spec fn json_compact(t: Json) -> Seq<char>;

/// The indented text of a JSON value.
pub uninterp spec fn json_indented(t: Json) -> Seq<char>;

/// The JSON value that a text denotes, or what is said of a text that denotes
/// none.
pub uninterp spec fn json_parsed(s: Seq<char>) -> Result<Json, Seq<char>>;

/// What a `serde_json::Error` says.
pub uninterp spec fn json_error_text(e: serde_json::Error) -> Seq<char>;

/// The value is an object with a member called `key`.
pub open spec fn has_member(t: Json, key: Seq<char>) -> bool {
    t is Object && t->Object_0.contains_key(key)
}

/// The member of an object called `key`.
pub open spec fn member(t: Json, key: Seq<char>) -> Json {
    t->Object_0[key]
}

/// The object without members.
pub open spec fn empty_object() -> Json {
    Json::Object(Map::empty())
}

/// The object with one member set.
pub open spec fn with(object: Json, key: Seq<char>, value: Json) -> Json {
    Json::Object((object->Object_0).insert(key, value))
}

/// What the values of a list hold.
pub open spec fn trees(values: Seq<serde_json::Value>) -> Seq<Json> {
    Seq::new(values.len(), |i: int| json_tree(values[i]))
}

// ------------------------------------------------------------------------- text

/// One character inside a JSON string: quotation marks, backslashes and
/// control characters are escaped.
pub open spec fn escaped(c: char) -> Seq<char> {
    let u = c as u32;
    if c == '"' {
        seq!['\\', '"']
    } else if c == '\\' {
        seq!['\\', '\\']
    } else if u == 0x08 {
        seq!['\\', 'b']
    } else if u == 0x09 {
        seq!['\\', 't']
    } else if u == 0x0a {
        seq!['\\', 'n']
    } else if u == 0x0c {
        seq!['\\', 'f']
    } else if u == 0x0d {
        seq!['\\', 'r']
    } else if u < 0x20 {
        seq!['\\', 'u', '0', '0', text::hex_digit(u as int / 16), text::hex_digit(u as int % 16)]
    } else {
        seq![c]
    }
}

/// The characters of a string as they stand between quotation marks.
pub open spec fn escaped_all(s: Seq<char>) -> Seq<char>
    decreases s.len(),
{
    if s.len() == 0 {
        Seq::empty()
    } else {
        escaped_all(s.drop_last()) + escaped(s.last())
    }
}

/// A string as a JSON string.
pub open spec fn quoted(s: Seq<char>) -> Seq<char> {
    seq!['"'] + escaped_all(s) + seq!['"']
}

/// One member of an object in compact form.
pub open spec fn member_text(key: Seq<char>, value: Seq<char>) -> Seq<char> {
    quoted(key) + ":"@ + value
}

/// An object of two members in compact form, in the one order or the other.
pub open spec fn is_pair_text(s: Seq<char>, one: Seq<char>, other: Seq<char>) -> bool {
    s == "{"@ + one + ","@ + other + "}"@ || s == "{"@ + other + ","@ + one + "}"@
}

// ---------------------------------------------------------------------- reading

/// `serde_json::from_str` into a `serde_json::Value`: the same text always
/// gives the same value, or is refused with the same error.
#[verifier::external_body]
pub(crate) fn json_parse(s: &str) -> (r: Result<serde_json::Value, serde_json::Error>)
    ensures
        match r {
            Ok(v) => json_parsed(s@) is Ok && json_parsed(s@)->Ok_0 == json_tree(v),
            Err(e) => json_parsed(s@) is Err && json_parsed(s@)->Err_0 == json_error_text(e),
        },
{
    serde_json::from_str::<serde_json::Value>(s)
}

/// `Display` of `serde_json::Error`: what is wrong with a text, and where.
#[verifier::external_body]
pub(crate) fn json_error(e: &serde_json::Error) -> (r: String)
    ensures
        r@ == json_error_text(*e),
{
    e.to_string()
}

/// `serde_json::Value::get` with a string index: the member of that name, if
/// the value is an object that has it.
#[verifier::external_body]
pub(crate) fn json_get<'a>(v: &'a serde_json::Value, key: &str) -> (r: Option<
    &'a serde_json::Value,
>)
    ensures
        match r {
            Some(m) => has_member(json_tree(*v), key@) && member(json_tree(*v), key@) == json_tree(*m),
            None => !has_member(json_tree(*v), key@),
        },
{
    v.get(key)
}

/// `serde_json::Value::as_str`: the string, if the value is one.
#[verifier::external_body]
pub(crate) fn json_as_str(v: &serde_json::Value) -> (r: Option<&str>)
    ensures
        match r {
            Some(s) => json_tree(*v) == Json::Text(s@),
            None => !(json_tree(*v) is Text),
        },
{
    v.as_str()
}

// ---------------------------------------------------------------------- writing

/// `Display` of `serde_json::Value`: the compact text, which follows from what
/// the value holds.
#[verifier::external_body]
pub(crate) fn json_display(v: &serde_json::Value) -> (r: String)
    ensures
        r@ == json_compact(json_tree(*v)),
{
    v.to_string()
}

/// `serde_json::to_string_pretty` of a value: the indented text, which follows
/// from what the value holds. Writing a value into a string does not fail.
#[verifier::external_body]
pub(crate) fn json_pretty(v: &serde_json::Value) -> (r: String)
    ensures
        r@ == json_indented(json_tree(*v)),
{
    serde_json::to_string_pretty(v).unwrap()
}

// --------------------------------------------------------------------- building

/// `serde_json::Value::from` for a string: a JSON string, which is written in
/// quotation marks.
#[verifier::external_body]
pub(crate) fn json_string(s: &str) -> (r: serde_json::Value)
    ensures
        json_tree(r) == Json::Text(s@),
        json_compact(json_tree(r)) == quoted(s@),
{
    serde_json::Value::from(s)
}

/// `serde_json::Value::from` for a truth value.
#[verifier::external_body]
pub(crate) fn json_bool(b: bool) -> (r: serde_json::Value)
    ensures
        json_tree(r) == Json::Bool(b),
{
    serde_json::Value::from(b)
}

/// `serde_json::Value::from` for a whole number, which is written in decimal.
#[verifier::external_body]
pub(crate) fn json_number(n: u64) -> (r: serde_json::Value)
    ensures
        json_tree(r) == Json::Number(text::dec(n as nat)),
{
    serde_json::Value::from(n)
}

/// `serde_json::Value::Array`: a list of values, in their order.
#[verifier::external_body]
pub(crate) fn json_array(items: Vec<serde_json::Value>) -> (r: serde_json::Value)
    ensures
        json_tree(r) == Json::List(trees(items@)),
{
    serde_json::Value::Array(items)
}

/// `serde_json::Map::new` as a value: the object without members.
#[verifier::external_body]
pub(crate) fn json_empty() -> (r: serde_json::Value)
    ensures
        json_tree(r) == empty_object(),
{
    serde_json::Value::Object(serde_json::Map::new())
}

/// `serde_json::Map::insert` on the members of an object: sets one member. The
/// compact text of an object with one or two members is that of its members
/// with commas between them, in braces; in which order two of them stand is
/// left open. A value that is no object has no members to insert into, which
/// `requires` leaves out.
#[verifier::external_body]
pub(crate) fn json_with(object: serde_json::Value, key: &str, value: serde_json::Value) -> (r:
    serde_json::Value)
    requires
        json_tree(object) is Object,
    ensures
        json_tree(r) == with(json_tree(object), key@, json_tree(value)),
        json_tree(object) == empty_object() ==> json_compact(json_tree(r)) == "{"@ + member_text(
            key@,
            json_compact(json_tree(value)),
        ) + "}"@,
        forall|k: Seq<char>, t: Json|
            k != key@ && json_tree(object) == #[trigger] with(empty_object(), k, t)
                ==> is_pair_text(
                json_compact(json_tree(r)),
                member_text(k, json_compact(t)),
                member_text(key@, json_compact(json_tree(value))),
            ),
{
    let mut object = object;
    object.as_object_mut().unwrap().insert(key.to_owned(), value);
    object
}

// ------------------------------------------------------------------------ laws

/// A quoted string holds no line feed, whatever it quotes.
pub proof fn quoted_is_one_line(s: Seq<char>)
    ensures
        !quoted(s).contains('\n'),
    decreases s.len(),
{
    lemma_escaped_all_one_line(s);
    let q = quoted(s);
    assert forall|i: int| 0 <= i < q.len() implies q[i] != '\n' by {
        if 0 < i < q.len() - 1 {
            assert(q[i] == escaped_all(s)[i - 1]);
        }
    }
}

proof fn lemma_escaped_all_one_line(s: Seq<char>)
    ensures
        forall|i: int| 0 <= i < escaped_all(s).len() ==> escaped_all(s)[i] != '\n',
    decreases s.len(),
{
    if s.len() > 0 {
        lemma_escaped_all_one_line(s.drop_last());
        let e = escaped(s.last());
        let u = s.last() as u32;
        assert forall|i: int| 0 <= i < e.len() implies e[i] != '\n' by {
            if u >= 0x20 && s.last() != '"' && s.last() != '\\' {
                assert(s.last() != '\n');
            }
        }
        let high = escaped_all(s.drop_last());
        assert(escaped_all(s) == high + e);
        assert forall|i: int| 0 <= i < escaped_all(s).len() implies escaped_all(s)[i] != '\n' by {
            if i >= high.len() {
                assert(escaped_all(s)[i] == e[i - high.len()]);
            } else {
                assert(escaped_all(s)[i] == high[i]);
            }
        }
    }
}

/// Characters are escaped one by one: what a text is written as is what its parts
/// are written as, put together.
pub proof fn escaping_goes_character_by_character(a: Seq<char>, c: char, b: Seq<char>)
    ensures
        escaped_all(Seq::empty()) == Seq::<char>::empty(),
        escaped_all(seq![c]) == escaped(c),
        escaped_all(a + b) == escaped_all(a) + escaped_all(b),
    decreases b.len(),
{
    assert(seq![c].drop_last() =~= Seq::<char>::empty());
    assert(escaped_all(Seq::<char>::empty()) =~= Seq::<char>::empty());
    assert(escaped_all(seq![c]) =~= escaped(c));
    if b.len() == 0 {
        assert(a + b =~= a);
        assert(escaped_all(a) + escaped_all(b) =~= escaped_all(a));
    } else {
        escaping_goes_character_by_character(a, c, b.drop_last());
        assert((a + b).drop_last() =~= a + b.drop_last());
        assert(escaped_all(a + b) =~= escaped_all(a) + escaped_all(b));
    }
}

/// A character stands in a JSON string as it is if and only if it is no quotation
/// mark, no backslash and no control character.
pub open spec fn is_plain(c: char) -> bool {
    c != '"' && c != '\\' && c as u32 >= 0x20
}

/// A text of plain characters stands between quotation marks as it is.
pub proof fn plain_text_is_only_quoted(s: Seq<char>)
    requires
        forall|i: int| 0 <= i < s.len() ==> is_plain(#[trigger] s[i]),
    ensures
        escaped_all(s) == s,
        quoted(s) == seq!['"'] + s + seq!['"'],
    decreases s.len(),
{
    if s.len() > 0 {
        let rest = s.drop_last();
        assert forall|i: int| 0 <= i < rest.len() implies is_plain(#[trigger] rest[i]) by {
            assert(rest[i] == s[i]);
        }
        plain_text_is_only_quoted(rest);
        assert(is_plain(s[s.len() - 1]));
        assert(escaped(s.last()) == seq![s.last()]);
        assert(escaped_all(s) =~= s);
    } else {
        assert(escaped_all(s) =~= s);
    }
}

/// A character that is not plain is written with a backslash before it: quotation
/// marks and backslashes by themselves, the others by a letter or their code.
pub proof fn what_is_not_plain_is_escaped(c: char)
    ensures
        is_plain(c) <==> escaped(c) == seq![c],
        !is_plain(c) ==> escaped(c).len() >= 2 && escaped(c)[0] == '\\',
        c == '"' || c == '\\' ==> escaped(c) == seq!['\\', c],
        c == '\n' ==> escaped(c) == seq!['\\', 'n'],
        c == '\r' ==> escaped(c) == seq!['\\', 'r'],
        c == '\t' ==> escaped(c) == seq!['\\', 't'],
{
    if !is_plain(c) {
        assert(escaped(c).len() != seq![c].len());
    }
}

} // verus!
