//! JSON documents as trees of plain values.

use crate::binary64::Binary64;
use crate::text::{
    marked_texts_part, parts, parts_of, same, unmarked_texts_are_one_part, views,
};
use vstd::prelude::*;

verus! {

/// A JSON value. The fields of an object are in the order of their keys, and no
/// key occurs twice. A number holds what it is as a whole number without a
/// sign, where it is one, and the nearest binary64 number.
#[derive(Debug)]
pub enum Json {
    Null,
    Bool(bool),
    Number(Option<u64>, Option<Binary64>),
    Text(String),
    Array(Vec<Json>),
    Object(Vec<(String, Json)>),
}

/// `serde_json::Value`, a parsed document.
#[verifier::external_type_specification]
#[verifier::external_body]
pub struct ExValue(serde_json::Value);

/// The document that `serde_json::from_str` makes of a text; none where the
/// text is not JSON.
pub uninterp spec fn json_document(text: Seq<char>) -> Option<serde_json::Value>;

/// The contents of a document, value by value.
pub uninterp spec fn json_contents(value: serde_json::Value) -> Json;

/// Parses a text with `serde_json::from_str`. What comes of a text is a
/// function of that text alone; nothing more is claimed of it.
#[verifier::external_body]
fn parse_document(text: &str) -> (result: Option<serde_json::Value>)
    ensures
        result == json_document(text@),
{
    serde_json::from_str::<serde_json::Value>(text).ok()
}

/// Takes a `serde_json::Value` apart: each variant becomes the one that is
/// named like it, a number by `as_u64` and `as_f64`. What comes of a document
/// is a function of that document alone; nothing more is claimed of it.
#[verifier::external_body]
fn take_apart(value: serde_json::Value) -> (result: Json)
    ensures
        result == json_contents(value),
{
    match value {
        serde_json::Value::Null => Json::Null,
        serde_json::Value::Bool(flag) => Json::Bool(flag),
        serde_json::Value::Number(n) => Json::Number(
            n.as_u64(),
            n.as_f64().map(|x| Binary64 { bits: x.to_bits() }),
        ),
        serde_json::Value::String(text) => Json::Text(text),
        serde_json::Value::Array(items) => Json::Array(items.into_iter().map(take_apart).collect()),
        serde_json::Value::Object(fields) => Json::Object(
            fields.into_iter().map(|(key, item)| (key, take_apart(item))).collect(),
        ),
    }
}

/// Parses a text as JSON.
pub fn parse_json(text: &str) -> (result: Option<Json>)
    ensures
        result == match json_document(text@) {
            Some(value) => Some(json_contents(value)),
            None => None,
        },
{
    match parse_document(text) {
        Some(value) => Some(take_apart(value)),
        None => None,
    }
}

/// A hexadecimal digit.
pub open spec fn hex_digit(n: int) -> char {
    if n < 10 {
        ('0' as u32 + n) as char
    } else {
        ('a' as u32 + n - 10) as char
    }
}

/// A character as it stands in a JSON string: quotes, backslashes and control
/// characters are escaped.
pub open spec fn json_character(c: char) -> Seq<char> {
    if c == '"' {
        "\\\""@
    } else if c == '\\' {
        "\\\\"@
    } else if c == '\u{8}' {
        "\\b"@
    } else if c == '\t' {
        "\\t"@
    } else if c == '\n' {
        "\\n"@
    } else if c == '\u{c}' {
        "\\f"@
    } else if c == '\r' {
        "\\r"@
    } else if (c as u32) < 0x20 {
        "\\u00"@.push(hex_digit(c as u32 as int / 16)).push(hex_digit(c as u32 as int % 16))
    } else {
        Seq::empty().push(c)
    }
}

/// The characters of a text as they stand in a JSON string.
pub open spec fn json_characters(text: Seq<char>) -> Seq<char>
    decreases text.len(),
{
    if text.len() == 0 {
        Seq::empty()
    } else {
        json_characters(text.drop_last()) + json_character(text.last())
    }
}

/// A text as a JSON string.
pub open spec fn json_quoted(text: Seq<char>) -> Seq<char> {
    "\""@ + json_characters(text) + "\""@
}

/// Writes a text as a JSON string with `serde_json::Value::to_string`: within
/// quotes, each character as it is or escaped, with the short escape where there
/// is one and with four lower-case hexadecimal digits for the other control
/// characters.
#[verifier::external_body]
pub(crate) fn quote_json(text: &str) -> (out: String)
    ensures
        out@ == json_quoted(text@),
{
    serde_json::Value::from(text).to_string()
}

/// The value of the first field with a key.
pub open spec fn field_of(fields: Seq<(String, Json)>, key: Seq<char>) -> Option<Json>
    decreases fields.len(),
{
    if fields.len() == 0 {
        None
    } else if fields[0].0@ == key {
        Some(fields[0].1)
    } else {
        field_of(fields.drop_first(), key)
    }
}

/// The value that an object holds under a key.
pub open spec fn get_spec(value: Json, key: Seq<char>) -> Option<Json> {
    match value {
        Json::Object(fields) => field_of(fields@, key),
        _ => None,
    }
}

/// A reference's value, where there is one.
pub open spec fn held<'a>(value: Option<&'a Json>) -> Option<Json> {
    match value {
        Some(value) => Some(*value),
        None => None,
    }
}

/// The value that an object holds under a key.
pub fn get<'a>(value: &'a Json, key: &str) -> (result: Option<&'a Json>)
    ensures
        held(result) == get_spec(*value, key@),
{
    if let Json::Object(fields) = value {
        let mut i: usize = 0;
        assert(fields@.skip(0) =~= fields@);
        while i < fields.len()
            invariant
                i <= fields@.len(),
                *value == Json::Object(*fields),
                field_of(fields@, key@) == field_of(fields@.skip(i as int), key@),
            decreases fields@.len() - i,
        {
            if same(fields[i].0.as_str(), key) {
                return Some(&fields[i].1);
            }
            assert(fields@.skip(i as int).drop_first() =~= fields@.skip(i + 1));
            i = i + 1;
        }
    }
    None
}

/// The value at the end of a path of keys.
pub open spec fn at_path(value: Json, path: Seq<Seq<char>>) -> Option<Json>
    decreases path.len(),
{
    if path.len() == 0 {
        Some(value)
    } else {
        match get_spec(value, path[0]) {
            Some(next) => at_path(next, path.drop_first()),
            None => None,
        }
    }
}

/// The value at the end of a path whose keys are parted by slashes.
pub open spec fn json_value_spec(value: Json, path: Seq<char>) -> Option<Json> {
    at_path(value, parts_of(path, '/'))
}

/// The value at the end of a path whose keys are parted by slashes.
pub fn json_value<'a>(value: &'a Json, path: &str) -> (result: Option<&'a Json>)
    ensures
        held(result) == json_value_spec(*value, path@),
{
    let keys = parts(path, '/');
    let ghost all = parts_of(path@, '/');
    let mut here: &'a Json = value;
    let mut i: usize = 0;
    assert(all.skip(0) =~= all);
    while i < keys.len()
        invariant
            i <= keys@.len(),
            all == parts_of(path@, '/'),
            views(keys@) == all,
            at_path(*value, all) == at_path(*here, all.skip(i as int)),
        decreases keys@.len() - i,
    {
        assert(all[i as int] == keys@[i as int]@);
        assert(all.skip(i as int).drop_first() =~= all.skip(i + 1));
        match get(here, keys[i].as_str()) {
            Some(next) => {
                here = next;
            },
            None => {
                return None;
            },
        }
        i = i + 1;
    }
    Some(here)
}

/// A number as a whole one without a sign: as it stands, or its whole part
/// where it is not below zero.
pub open spec fn value_as_u64_spec(value: Json) -> Option<u64> {
    match value {
        Json::Number(Some(whole), _) => Some(whole),
        Json::Number(None, Some(number)) => if number.measurable() {
            Some(number.whole_part() as u64)
        } else {
            None
        },
        _ => None,
    }
}

/// A number as a whole one without a sign.
pub fn value_as_u64(value: &Json) -> (result: Option<u64>)
    ensures
        result == value_as_u64_spec(*value),
{
    match value {
        Json::Number(Some(whole), _) => Some(*whole),
        Json::Number(None, Some(number)) => if number.is_measurable() {
            Some(number.truncated())
        } else {
            None
        },
        _ => None,
    }
}

pub open spec fn value_as_f64_spec(value: Json) -> Option<Binary64> {
    match value {
        Json::Number(_, Some(number)) => Some(number),
        Json::Number(Some(whole), None) => Some(Binary64::of_nat(whole as nat)),
        _ => None,
    }
}

/// A number as a binary64 one.
pub fn value_as_f64(value: &Json) -> (result: Option<Binary64>)
    ensures
        result == value_as_f64_spec(*value),
{
    match value {
        Json::Number(_, Some(number)) => Some(*number),
        Json::Number(Some(whole), None) => Some(Binary64::from_u64(*whole)),
        _ => None,
    }
}

pub open spec fn value_as_text_spec(value: Json) -> Option<String> {
    match value {
        Json::Text(text) => Some(text),
        _ => None,
    }
}

/// A string.
pub fn value_as_text(value: &Json) -> (result: Option<String>)
    ensures
        result == value_as_text_spec(*value),
{
    match value {
        Json::Text(text) => Some(text.clone()),
        _ => None,
    }
}

/// What a search looks for.
#[derive(Clone, Copy, Debug, PartialEq, Eq, Structural)]
pub enum Wanted {
    Count,
    Real,
    Text,
}

pub open spec fn suits_spec(value: Json, wanted: Wanted) -> bool {
    match wanted {
        Wanted::Count => value_as_u64_spec(value) is Some,
        Wanted::Real => value_as_f64_spec(value) is Some,
        Wanted::Text => value_as_text_spec(value) is Some,
    }
}

pub fn suits(value: &Json, wanted: Wanted) -> (result: bool)
    ensures
        result == suits_spec(*value, wanted),
{
    match wanted {
        Wanted::Count => value_as_u64(value).is_some(),
        Wanted::Real => value_as_f64(value).is_some(),
        Wanted::Text => matches!(value, Json::Text(_)),
    }
}

/// How many values an array or an object holds.
pub open spec fn child_count(value: Json) -> nat {
    match value {
        Json::Array(items) => items@.len(),
        Json::Object(fields) => fields@.len(),
        _ => 0,
    }
}

/// A value that an array or an object holds.
pub open spec fn child(value: Json, at: int) -> Json {
    match value {
        Json::Array(items) => items@[at],
        Json::Object(fields) => fields@[at].1,
        _ => value,
    }
}

/// The first suitable value under a key: in the object itself, and else in what
/// it holds, one after the other.
pub open spec fn search_spec(value: Json, key: Seq<char>, wanted: Wanted) -> Option<Json>
    decreases value, child_count(value) + 1,
{
    match get_spec(value, key) {
        Some(found) => if suits_spec(found, wanted) {
            Some(found)
        } else {
            search_children(value, 0, key, wanted)
        },
        None => search_children(value, 0, key, wanted),
    }
}

/// The first suitable value under a key in what a value holds from a place on.
pub open spec fn search_children(value: Json, at: nat, key: Seq<char>, wanted: Wanted) -> Option<
    Json,
>
    decreases value, child_count(value) - at,
{
    if at >= child_count(value) {
        None
    } else {
        match search_spec(child(value, at as int), key, wanted) {
            Some(found) => Some(found),
            None => search_children(value, at + 1, key, wanted),
        }
    }
}

/// The first suitable value under a key, wherever it stands.
pub fn search<'a>(value: &'a Json, key: &str, wanted: Wanted) -> (result: Option<&'a Json>)
    ensures
        held(result) == search_spec(*value, key@, wanted),
    decreases value,
{
    if let Some(found) = get(value, key) {
        if suits(found, wanted) {
            return Some(found);
        }
    }
    match value {
        Json::Array(items) => {
            for i in 0..items.len()
                invariant
                    *value == Json::Array(*items),
                    search_children(*value, 0, key@, wanted) == search_children(
                        *value,
                        i as nat,
                        key@,
                        wanted,
                    ),
                    search_spec(*value, key@, wanted) == search_children(*value, 0, key@, wanted),
            {
                if let Some(found) = search(&items[i], key, wanted) {
                    return Some(found);
                }
            }
            None
        },
        Json::Object(fields) => {
            for i in 0..fields.len()
                invariant
                    *value == Json::Object(*fields),
                    search_children(*value, 0, key@, wanted) == search_children(
                        *value,
                        i as nat,
                        key@,
                        wanted,
                    ),
                    search_spec(*value, key@, wanted) == search_children(*value, 0, key@, wanted),
            {
                if let Some(found) = search(&fields[i].1, key, wanted) {
                    return Some(found);
                }
            }
            None
        },
        _ => None,
    }
}

/// An object gives what it holds: the value of the first field with a key, and
/// nothing for a key that none of its fields has. What is no object gives
/// nothing.
pub proof fn objects_give_what_they_hold(fields: Vec<(String, Json)>, key: Seq<char>, at: int)
    requires
        0 <= at <= fields@.len(),
        forall|j: int| 0 <= j < at ==> (#[trigger] fields@[j]).0@ != key,
        at < fields@.len() ==> fields@[at].0@ == key,
    ensures
        get_spec(Json::Object(fields), key) == if at < fields@.len() {
            Some(fields@[at].1)
        } else {
            None
        },
{
    lemma_field_at(fields@, key, at);
}

proof fn lemma_field_at(fields: Seq<(String, Json)>, key: Seq<char>, at: int)
    requires
        0 <= at <= fields.len(),
        forall|j: int| 0 <= j < at ==> (#[trigger] fields[j]).0@ != key,
        at < fields.len() ==> fields[at].0@ == key,
    ensures
        field_of(fields, key) == if at < fields.len() {
            Some(fields[at].1)
        } else {
            None
        },
    decreases fields.len(),
{
    if fields.len() > 0 && at > 0 {
        assert(fields[0].0@ != key);
        let rest = fields.drop_first();
        assert forall|j: int| 0 <= j < at - 1 implies (#[trigger] rest[j]).0@ != key by {
            assert(rest[j] == fields[j + 1]);
        }
        lemma_field_at(rest, key, at - 1);
    }
}

/// A path of one key leads where the key does.
pub proof fn one_key_is_a_path(value: Json, key: Seq<char>)
    requires
        forall|i: int| 0 <= i < key.len() ==> key[i] != '/',
    ensures
        json_value_spec(value, key) == get_spec(value, key),
{
    unmarked_texts_are_one_part(key, '/', Seq::empty());
    let path = parts_of(key, '/');
    assert(Seq::<char>::empty() + key =~= key);
    assert(path =~= seq![key]);
    assert(path.drop_first() =~= Seq::<Seq<char>>::empty());
    match get_spec(value, key) {
        Some(next) => {
            assert(at_path(next, path.drop_first()) == Some(next));
        },
        None => {},
    }
}

/// A path leads on from where its first key leads.
pub proof fn paths_go_on(value: Json, key: Seq<char>, rest: Seq<char>)
    requires
        forall|i: int| 0 <= i < key.len() ==> key[i] != '/',
    ensures
        json_value_spec(value, key + "/"@ + rest) == match get_spec(value, key) {
            Some(next) => json_value_spec(next, rest),
            None => None,
        },
{
    reveal_strlit("/");
    marked_texts_part(key, rest, '/', Seq::empty());
    let path = parts_of(key + "/"@ + rest, '/');
    assert("/"@ =~= seq!['/']);
    assert(key + "/"@ + rest =~= key.push('/') + rest);
    assert(Seq::<char>::empty() + key =~= key);
    assert(path[0] == key);
    assert(path.drop_first() =~= parts_of(rest, '/'));
}

/// What stands at the end of a path of two keys.
pub open spec fn within(value: Json, outer: Seq<char>, inner: Seq<char>) -> Option<Json> {
    match get_spec(value, outer) {
        Some(next) => get_spec(next, inner),
        None => None,
    }
}

/// A path of two keys leads where the second leads from where the first does.
pub proof fn two_keys_are_a_path(value: Json, path: Seq<char>, outer: Seq<char>, inner: Seq<char>)
    requires
        path =~= outer + "/"@ + inner,
        forall|i: int| 0 <= i < outer.len() ==> outer[i] != '/',
        forall|i: int| 0 <= i < inner.len() ==> inner[i] != '/',
    ensures
        json_value_spec(value, path) == within(value, outer, inner),
{
    paths_go_on(value, outer, inner);
    if let Some(next) = get_spec(value, outer) {
        one_key_is_a_path(next, inner);
    }
}

} // verus!
