//! JSON as serde_json holds and writes it: what a value's text is, and how
//! a map keeps the members of an object.

use crate::display::hex_digit;
use crate::text::decimal;
use vstd::prelude::*;

verus! {

/// How JSON writes one character inside a string: a quotation mark and a
/// backslash after a backslash, the control characters as `\b`, `\t`, `\n`,
/// `\f`, `\r` or `\u00` and two hexadecimal digits, every other character
/// as it is.
pub open spec fn json_escaped_char(c: char) -> Seq<char> {
    let n = c as u32;
    if n == 0x22 {
        seq!['\\', '"']
    } else if n == 0x5c {
        seq!['\\', '\\']
    } else if n == 0x08 {
        seq!['\\', 'b']
    } else if n == 0x09 {
        seq!['\\', 't']
    } else if n == 0x0a {
        seq!['\\', 'n']
    } else if n == 0x0c {
        seq!['\\', 'f']
    } else if n == 0x0d {
        seq!['\\', 'r']
    } else if n < 0x20 {
        seq!['\\', 'u', '0', '0', hex_digit(n as int / 16), hex_digit(n as int % 16)]
    } else {
        seq![c]
    }
}

/// The characters of a text as JSON writes them inside a string.
pub open spec fn json_escaped(s: Seq<char>) -> Seq<char>
    decreases s.len(),
{
    if s.len() == 0 {
        Seq::empty()
    } else {
        json_escaped(s.drop_last()) + json_escaped_char(s.last())
    }
}

/// A text as a JSON string: quotation marks around its escaped characters.
pub open spec fn json_quoted(s: Seq<char>) -> Seq<char> {
    seq!['"'] + json_escaped(s) + seq!['"']
}

/// Whether the text `a` stands before the text `b` in the order of their
/// characters' codes.
pub open spec fn text_less(a: Seq<char>, b: Seq<char>) -> bool
    decreases a.len(),
{
    if b.len() == 0 {
        false
    } else if a.len() == 0 {
        true
    } else if a[0] != b[0] {
        (a[0] as u32) < (b[0] as u32)
    } else {
        text_less(a.drop_first(), b.drop_first())
    }
}

/// Texts that differ first at `i` are ordered by their characters there.
pub proof fn lemma_text_less_at(a: Seq<char>, b: Seq<char>, i: int)
    requires
        0 <= i < a.len(),
        i < b.len(),
        forall|j: int| 0 <= j < i ==> a[j] == b[j],
        a[i] != b[i],
    ensures
        text_less(a, b) == ((a[i] as u32) < (b[i] as u32)),
        a != b,
    decreases i,
{
    if i > 0 {
        assert(a[0] == b[0]);
        lemma_text_less_at(a.drop_first(), b.drop_first(), i - 1);
    }
}

/// The members of a JSON object after `key` is given `value`: the members
/// stay in the order of their keys, and a key that is there already keeps
/// its place and takes the new value.
pub open spec fn put_member(
    members: Seq<(Seq<char>, Seq<char>)>,
    key: Seq<char>,
    value: Seq<char>,
) -> Seq<(Seq<char>, Seq<char>)>
    decreases members.len(),
{
    if members.len() == 0 {
        seq![(key, value)]
    } else if members[0].0 == key {
        seq![(key, value)] + members.drop_first()
    } else if text_less(key, members[0].0) {
        seq![(key, value)] + members
    } else {
        seq![members[0]] + put_member(members.drop_first(), key, value)
    }
}

/// The first `n` members of a JSON object, written with commas between them.
pub open spec fn members_text(members: Seq<(Seq<char>, Seq<char>)>, n: nat) -> Seq<char>
    decreases n,
{
    if n == 0 {
        Seq::empty()
    } else {
        let m = members[n - 1];
        let before = members_text(members, (n - 1) as nat);
        let sep: Seq<char> = if n > 1 {
            seq![',']
        } else {
            Seq::empty()
        };
        before + sep + json_quoted(m.0) + seq![':'] + m.1
    }
}

/// A JSON object of the given members.
pub open spec fn object_text(members: Seq<(Seq<char>, Seq<char>)>) -> Seq<char> {
    seq!['{'] + members_text(members, members.len()) + seq!['}']
}

/// The first `n` of the given texts with commas between them.
pub open spec fn joined(texts: Seq<Seq<char>>, n: nat) -> Seq<char>
    decreases n,
{
    if n == 0 || n > texts.len() {
        Seq::empty()
    } else {
        let sep: Seq<char> = if n > 1 {
            seq![',']
        } else {
            Seq::empty()
        };
        joined(texts, (n - 1) as nat) + sep + texts[n - 1]
    }
}

/// A JSON array of items whose texts are given.
pub open spec fn array_text(texts: Seq<Seq<char>>) -> Seq<char> {
    seq!['['] + joined(texts, texts.len()) + seq![']']
}

/// A JSON value of serde_json.
#[verifier::external_type_specification]
#[verifier::external_body]
pub struct ExValue(serde_json::Value);

/// The map of serde_json that holds the members of a JSON object.
#[verifier::external_type_specification]
#[verifier::external_body]
#[verifier::reject_recursive_types(K)]
#[verifier::reject_recursive_types(V)]
pub struct ExMap<K, V>(serde_json::Map<K, V>);

/// The text that `serde_json::to_string` writes for a value.
pub uninterp spec fn json_text(value: serde_json::Value) -> Seq<char>;

/// The members that a map holds, in the order in which it hands them out:
/// each key with the text of its value.
pub uninterp spec fn members_held(map: serde_json::Map<String, serde_json::Value>) -> Seq<
    (Seq<char>, Seq<char>),
>;

/// The texts of the given values.
pub open spec fn texts_of(values: Seq<serde_json::Value>) -> Seq<Seq<char>> {
    Seq::new(values.len(), |i: int| json_text(values[i]))
}

/// The JSON value `null`. serde_json writes `Value::Null` as `null`.
#[verifier::external_body]
pub(crate) fn value_null() -> (r: serde_json::Value)
    ensures
        json_text(r) == "null"@,
{
    serde_json::Value::Null
}

/// A JSON boolean. serde_json writes `Value::Bool` as `true` or `false`.
#[verifier::external_body]
pub(crate) fn value_bool(b: bool) -> (r: serde_json::Value)
    ensures
        json_text(r) == if b {
            "true"@
        } else {
            "false"@
        },
{
    serde_json::Value::Bool(b)
}

/// A JSON string. serde_json writes `Value::String` in quotation marks, and
/// escapes quotation marks, backslashes and control characters in it.
#[verifier::external_body]
pub(crate) fn value_text(s: String) -> (r: serde_json::Value)
    ensures
        json_text(r) == json_quoted(s@),
{
    serde_json::Value::String(s)
}

/// A JSON number. `Value::from` makes a number of an unsigned integer, and
/// serde_json writes it as its decimal numeral.
#[verifier::external_body]
pub(crate) fn value_number(n: u32) -> (r: serde_json::Value)
    ensures
        json_text(r) == decimal(n as int),
{
    serde_json::Value::from(n)
}

/// A JSON array. serde_json writes `Value::Array` as the texts of its items
/// in their order, with commas between them, in square brackets.
#[verifier::external_body]
pub(crate) fn value_array(items: Vec<serde_json::Value>) -> (r: serde_json::Value)
    ensures
        json_text(r) == array_text(texts_of(items@)),
{
    serde_json::Value::Array(items)
}

/// A map without members. `Map::new` makes an empty map.
#[verifier::external_body]
pub(crate) fn map_new() -> (r: serde_json::Map<String, serde_json::Value>)
    ensures
        members_held(r) == Seq::<(Seq<char>, Seq<char>)>::empty(),
{
    serde_json::Map::new()
}

/// Gives a key a value. `Map::insert` keeps the members in the order of
/// their keys, and a key that is there already takes the new value.
#[verifier::external_body]
pub(crate) fn map_insert(
    map: &mut serde_json::Map<String, serde_json::Value>,
    key: String,
    value: serde_json::Value,
)
    ensures
        members_held(*final(map)) == put_member(members_held(*old(map)), key@, json_text(value)),
{
    map.insert(key, value);
}

/// A JSON object. serde_json writes `Value::Object` as the members of its
/// map in the map's order, each as its key in quotation marks, a colon and
/// the text of its value, with commas between them, in braces.
#[verifier::external_body]
pub(crate) fn value_object(
    map: serde_json::Map<String, serde_json::Value>,
) -> (r: serde_json::Value)
    ensures
        json_text(r) == object_text(members_held(map)),
{
    serde_json::Value::Object(map)
}

/// Writes a value. `serde_json::to_string` writes a `Value` as JSON without
/// spaces; writing into memory it does not fail.
#[verifier::external_body]
pub(crate) fn value_to_string(value: &serde_json::Value) -> (r: String)
    ensures
        r@ == json_text(*value),
{
    match serde_json::to_string(value) {
        Ok(t) => t,
        Err(_) => String::new(),
    }
}

} // verus!
