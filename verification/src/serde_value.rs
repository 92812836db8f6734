//! The JSON library's values, opened and closed one level at a time.

use vstd::prelude::*;
use vstd::string::*;
use vstd::utf8::*;
use serde::de::Unexpected;
use crate::json::{Json, JsonView, NumberView, Object};
use crate::{json, text};

verus! {

/// A number of the JSON library.
#[verifier::external_type_specification]
#[verifier::external_body]
pub struct ExNumber(serde_json::Number);

/// What a number of the JSON library is.
pub uninterp spec fn number_kind(n: serde_json::Number) -> NumberView;

/// `serde_json::Number::as_u64`: the value of a non-negative integer, and nothing for any other
/// number.
#[verifier::external_body]
pub(crate) fn number_as_u64(n: &serde_json::Number) -> (r: Option<u64>)
    ensures
        r == JsonView::Number(number_kind(*n)).as_u64(),
{
    n.as_u64()
}

/// `serde_json::Number::as_i64`: the value of an integer that fits, and nothing for any other
/// number.
#[verifier::external_body]
pub(crate) fn number_as_i64(n: &serde_json::Number) -> (r: Option<i64>)
    ensures
        r == match number_kind(*n) {
            NumberView::Unsigned(v) => if v <= i64::MAX {
                Some(v as i64)
            } else {
                None
            },
            NumberView::Negative(v) => Some(v),
            NumberView::Float(_) => None,
        },
{
    n.as_i64()
}

/// `serde_json::Number::from`: the number that is this non-negative integer.
#[verifier::external_body]
pub(crate) fn number_from_u64(n: u64) -> (r: serde_json::Number)
    ensures
        number_kind(r) == NumberView::Unsigned(n),
{
    serde_json::Number::from(n)
}

/// `serde_json::Number::clone`: the same number.
#[verifier::external_body]
pub(crate) fn clone_number(n: &serde_json::Number) -> (r: serde_json::Number)
    ensures
        number_kind(r) == number_kind(*n),
{
    n.clone()
}

/// A value of the JSON library.
#[verifier::external_type_specification]
#[verifier::external_body]
pub struct ExValue(serde_json::Value);

/// What a value of the JSON library holds.
pub uninterp spec fn value_json(v: serde_json::Value) -> JsonView;

/// What parsing a text as JSON gives: the value, or what is wrong with the text.
pub uninterp spec fn json_parsed(source: Seq<char>) -> Result<JsonView, Seq<char>>;

/// What parsing bytes as JSON gives: the value, or what is wrong with the bytes.
pub uninterp spec fn json_parsed_bytes(source: Seq<u8>) -> Result<JsonView, Seq<char>>;

/// The compact text of a value.
pub uninterp spec fn json_text(v: JsonView) -> Seq<char>;

/// One level of a value of the JSON library.
pub enum ValueNode {
    Null,
    Bool(bool),
    Number(serde_json::Number),
    Text(String),
    Array(Vec<serde_json::Value>),
    Object(Vec<(String, serde_json::Value)>),
}

/// What one level and the values below it hold.
pub open spec fn node_json(node: ValueNode) -> JsonView {
    match node {
        ValueNode::Null => JsonView::Null,
        ValueNode::Bool(b) => JsonView::Bool(b),
        ValueNode::Number(n) => JsonView::Number(number_kind(n)),
        ValueNode::Text(s) => JsonView::Text(s@),
        ValueNode::Array(items) => JsonView::Array(
            Seq::new(items@.len(), |i: int| value_json(items@[i])),
        ),
        ValueNode::Object(entries) => JsonView::Object(node_fields(entries@)),
    }
}

/// The fields that the entries of one level hold.
pub open spec fn node_fields(entries: Seq<(String, serde_json::Value)>) -> json::Fields {
    Seq::new(entries.len(), |i: int| (entries[i].0@, value_json(entries[i].1)))
}

/// The variants of `serde_json::Value`, one for one. A map of the JSON library is walked in
/// ascending order of its keys, each of which it holds once.
#[verifier::external_body]
fn open_value(v: serde_json::Value) -> (r: ValueNode)
    ensures
        node_json(r) == value_json(v),
        r is Object ==> json::ascending(node_fields(r->Object_0@)),
{
    match v {
        serde_json::Value::Null => ValueNode::Null,
        serde_json::Value::Bool(b) => ValueNode::Bool(b),
        serde_json::Value::Number(n) => ValueNode::Number(n),
        serde_json::Value::String(s) => ValueNode::Text(s),
        serde_json::Value::Array(items) => ValueNode::Array(items),
        serde_json::Value::Object(map) => ValueNode::Object(map.into_iter().collect()),
    }
}

/// The variants of `serde_json::Value`, one for one. A map of the JSON library that is made of
/// entries with ascending keys holds these entries.
#[verifier::external_body]
fn close_value(node: ValueNode) -> (r: serde_json::Value)
    requires
        node is Object ==> json::ascending(node_fields(node->Object_0@)),
    ensures
        value_json(r) == node_json(node),
{
    match node {
        ValueNode::Null => serde_json::Value::Null,
        ValueNode::Bool(b) => serde_json::Value::Bool(b),
        ValueNode::Number(n) => serde_json::Value::Number(n),
        ValueNode::Text(s) => serde_json::Value::String(s),
        ValueNode::Array(items) => serde_json::Value::Array(items),
        ValueNode::Object(entries) => serde_json::Value::Object(entries.into_iter().collect()),
    }
}

/// `serde_json::from_str`: the value that the text denotes, or the library's words on why it
/// denotes none.
#[verifier::external_body]
fn parse_value(source: &str) -> (r: Result<serde_json::Value, String>)
    ensures
        match r {
            Ok(v) => json_parsed(source@) == Ok::<JsonView, Seq<char>>(value_json(v)),
            Err(e) => json_parsed(source@) == Err::<JsonView, Seq<char>>(e@),
        },
{
    serde_json::from_str(source).map_err(|e| e.to_string())
}

/// `serde_json::from_slice`: the value that the bytes denote, or the library's words on why they
/// denote none.
#[verifier::external_body]
fn parse_value_bytes(source: &[u8]) -> (r: Result<serde_json::Value, String>)
    ensures
        match r {
            Ok(v) => json_parsed_bytes(source@) == Ok::<JsonView, Seq<char>>(value_json(v)),
            Err(e) => json_parsed_bytes(source@) == Err::<JsonView, Seq<char>>(e@),
        },
{
    serde_json::from_slice(source).map_err(|e| e.to_string())
}

/// Texts with commas between them.
pub open spec fn comma_joined(parts: Seq<Seq<char>>) -> Seq<char>
    decreases parts.len(),
{
    if parts.len() == 0 {
        Seq::empty()
    } else if parts.len() == 1 {
        parts[0]
    } else {
        comma_joined(parts.drop_last()) + ","@ + parts.last()
    }
}

/// Texts with commas between them take their own bytes and one for each comma.
pub proof fn lemma_comma_joined_size(parts: Seq<Seq<char>>)
    ensures
        text::byte_len(comma_joined(parts)) == text_sizes(parts) + if parts.len() > 0 {
            parts.len() - 1
        } else {
            0
        },
    decreases parts.len(),
{
    if parts.len() == 0 {
        assert(encode_utf8(Seq::<char>::empty()) =~= Seq::<u8>::empty());
    } else if parts.len() == 1 {
        assert(parts.drop_last() =~= Seq::empty());
        assert(text_sizes(parts.drop_last()) == 0);
    } else if parts.len() > 1 {
        let rest = parts.drop_last();
        lemma_comma_joined_size(rest);
        text::lemma_encode_concat(comma_joined(rest) + ","@, parts.last());
        text::lemma_encode_concat(comma_joined(rest), ","@);
        text::lemma_one_byte(",");
    }
}

/// How many bytes texts take together.
pub open spec fn text_sizes(parts: Seq<Seq<char>>) -> nat
    decreases parts.len(),
{
    if parts.len() == 0 {
        0
    } else {
        text_sizes(parts.drop_last()) + text::byte_len(parts.last())
    }
}

/// An array takes the bytes of its items, a comma between every two, and two brackets.
pub proof fn lemma_array_size(items: Seq<JsonView>, written: Seq<char>)
    requires
        written == "["@ + comma_joined(json_texts(items)) + "]"@,
    ensures
        text::byte_len(written) == 2 + text_sizes(json_texts(items)) + if items.len() > 0 {
            items.len() - 1
        } else {
            0
        },
{
    text::lemma_encode_concat("["@ + comma_joined(json_texts(items)), "]"@);
    text::lemma_encode_concat("["@, comma_joined(json_texts(items)));
    lemma_comma_joined_size(json_texts(items));
    text::lemma_one_byte("[");
    text::lemma_one_byte("]");
}

/// The compact texts of values.
pub open spec fn json_texts(items: Seq<JsonView>) -> Seq<Seq<char>> {
    Seq::new(items.len(), |i: int| json_text(items[i]))
}

/// The compact texts of fields: the key, a colon and the value.
pub open spec fn field_texts(fields: json::Fields) -> Seq<Seq<char>> {
    Seq::new(
        fields.len(),
        |i: int| json_text(JsonView::Text(fields[i].0)) + ":"@ + json_text(fields[i].1),
    )
}

/// An object takes at least its brackets, a colon for each field and a comma between every two.
pub proof fn lemma_object_size(fields: json::Fields, written: Seq<char>)
    requires
        written == "{"@ + comma_joined(field_texts(fields)) + "}"@,
    ensures
        text::byte_len(written) + 1 >= 2 + 2 * fields.len(),
{
    let parts = field_texts(fields);
    text::lemma_encode_concat("{"@ + comma_joined(parts), "}"@);
    text::lemma_encode_concat("{"@, comma_joined(parts));
    lemma_comma_joined_size(parts);
    text::lemma_one_byte("{");
    text::lemma_one_byte("}");
    lemma_field_sizes(fields);
}

proof fn lemma_field_sizes(fields: json::Fields)
    ensures
        text_sizes(field_texts(fields)) >= fields.len(),
    decreases fields.len(),
{
    if fields.len() > 0 {
        let parts = field_texts(fields);
        let rest = fields.drop_last();
        lemma_field_sizes(rest);
        assert(parts.drop_last() =~= field_texts(rest));
        let key = json_text(JsonView::Text(fields.last().0));
        let value = json_text(fields.last().1);
        assert(parts.last() == key + ":"@ + value);
        text::lemma_encode_concat(key + ":"@, value);
        text::lemma_encode_concat(key, ":"@);
        text::lemma_one_byte(":");
    }
}

/// How deep arrays and objects may be nested in a text that is parsed.
pub const MAX_NESTING: usize = 127;

/// Whether a value is nested so deep at most, and its numbers are integers.
pub open spec fn is_plain(v: JsonView, nesting: nat) -> bool
    decreases nesting,
{
    match v {
        JsonView::Number(n) => !(n is Float),
        JsonView::Array(items) => nesting > 0 && forall|i: int|
            0 <= i < items.len() ==> is_plain(#[trigger] items[i], (nesting - 1) as nat),
        JsonView::Object(fields) => nesting > 0 && forall|i: int|
            0 <= i < fields.len() ==> is_plain((#[trigger] fields[i]).1, (nesting - 1) as nat),
        _ => true,
    }
}

/// Whether a text is parsed as a value, if the value is plain.
pub open spec fn parses_as(source: Seq<char>, v: JsonView) -> bool {
    is_plain(v, MAX_NESTING as nat) ==> json_parsed(source) == Ok::<JsonView, Seq<char>>(v)
}

/// Whether the text of a value, if the value is plain, is parsed as that value.
pub open spec fn reads_back(v: JsonView) -> bool {
    parses_as(json_text(v), v)
}

/// `serde_json::Value::to_string`: the compact text of the value. Null is written `null`, and an
/// array is written as its items with commas between them, in square brackets. An object is written
/// as its fields with commas between them, in curly brackets, each as its key, a colon and its value.
/// No text has a line break in it. The text of a value without fractions that is not nested too deep
/// is parsed as that value.
#[verifier::external_body]
fn value_text(v: &serde_json::Value) -> (r: String)
    ensures
        r@ == json_text(value_json(*v)),
        value_json(*v) is Null ==> r@ == "null"@,
        value_json(*v) is Array ==> r@ == "["@ + comma_joined(
            json_texts(value_json(*v)->Array_0),
        ) + "]"@,
        value_json(*v) is Object ==> r@ == "{"@ + comma_joined(
            field_texts(value_json(*v)->Object_0),
        ) + "}"@,
        text::one_line(r@),
        parses_as(r@, value_json(*v)),
{
    v.to_string()
}

/// The library's own form of a value of the JSON library.
pub fn from_value(v: serde_json::Value) -> (r: Json)
    ensures
        r@ == value_json(v),
    decreases value_json(v),
{
    let ghost whole = value_json(v);
    match open_value(v) {
        ValueNode::Null => Json::Null,
        ValueNode::Bool(b) => Json::Bool(b),
        ValueNode::Number(n) => Json::Number(n),
        ValueNode::Text(s) => Json::Text(s),
        ValueNode::Array(items) => {
            let ghost all = items@;
            let mut items = items;
            let mut out: Vec<Json> = Vec::new();
            while items.len() > 0
                invariant
                    whole is Array,
                    whole->Array_0 == Seq::new(all.len(), |i: int| value_json(all[i])),
                    value_json(v) == whole,
                    items@ == all.skip(out@.len() as int),
                    out@.len() + items@.len() == all.len(),
                    forall|j: int| 0 <= j < out@.len() ==> (#[trigger] out@[j])@ == value_json(all[j]),
                decreases items@.len(),
            {
                let ghost k = out@.len() as int;
                let item = items.remove(0);
                proof {
                    assert(whole->Array_0[k] == value_json(item));
                    assert(decreases_to!(whole => whole->Array_0));
                    assert(decreases_to!(whole->Array_0 => whole->Array_0[k]));
                }
                let converted = from_value(item);
                out.push(converted);
            }
            let r = Json::Array(out);
            assert(r@->Array_0 =~= whole->Array_0);
            r
        },
        ValueNode::Object(entries) => {
            let ghost all = entries@;
            let mut entries = entries;
            let mut out: Vec<(String, Json)> = Vec::new();
            while entries.len() > 0
                invariant
                    whole is Object,
                    whole->Object_0 == node_fields(all),
                    value_json(v) == whole,
                    entries@ == all.skip(out@.len() as int),
                    out@.len() + entries@.len() == all.len(),
                    forall|j: int|
                        0 <= j < out@.len() ==> (#[trigger] out@[j]).0@ == all[j].0@ && out@[j].1@
                            == value_json(all[j].1),
                decreases entries@.len(),
            {
                let ghost k = out@.len() as int;
                let entry = entries.remove(0);
                proof {
                    assert(whole->Object_0[k].1 == value_json(entry.1));
                    assert(decreases_to!(whole => whole->Object_0));
                    assert(decreases_to!(whole->Object_0 => whole->Object_0[k]));
                    assert(decreases_to!(whole->Object_0[k] => whole->Object_0[k].1));
                }
                let converted = from_value(entry.1);
                out.push((entry.0, converted));
            }
            assert(json::entry_views(out@) =~= whole->Object_0);
            Json::Object(Object::from_ascending(out))
        },
    }
}

/// The JSON library's form of a value.
pub fn to_value(v: &Json) -> (r: serde_json::Value)
    ensures
        value_json(r) == v@,
    decreases v@,
{
    match v {
        Json::Null => close_value(ValueNode::Null),
        Json::Bool(b) => close_value(ValueNode::Bool(*b)),
        Json::Number(n) => close_value(ValueNode::Number(clone_number(n))),
        Json::Text(s) => close_value(ValueNode::Text(s.clone())),
        Json::Array(items) => {
            let mut out: Vec<serde_json::Value> = Vec::new();
            let mut i: usize = 0;
            while i < items.len()
                invariant
                    *v == Json::Array(*items),
                    i <= items@.len(),
                    out@.len() == i,
                    forall|j: int| 0 <= j < i ==> value_json(#[trigger] out@[j]) == items@[j]@,
                decreases items@.len() - i,
            {
                assert(v@->Array_0[i as int] == items@[i as int]@);
                assert(decreases_to!(v@ => v@->Array_0));
                assert(decreases_to!(v@->Array_0 => v@->Array_0[i as int]));
                let item = to_value(&items[i]);
                out.push(item);
                i += 1;
            }
            let node = ValueNode::Array(out);
            assert(node_json(node)->Array_0 =~= v@->Array_0);
            close_value(node)
        },
        Json::Object(object) => {
            let mut out: Vec<(String, serde_json::Value)> = Vec::new();
            let count: usize = object.len();
            let mut i: usize = 0;
            while i < count
                invariant
                    *v == Json::Object(*object),
                    count == object@.len(),
                    i <= count,
                    out@.len() == i,
                    forall|j: int|
                        0 <= j < i ==> (#[trigger] out@[j]).0@ == object@[j].0 && value_json(
                            out@[j].1,
                        ) == object@[j].1,
                decreases object@.len() - i,
            {
                assert(decreases_to!(v@ => v@->Object_0));
                assert(decreases_to!(v@->Object_0 => v@->Object_0[i as int]));
                assert(decreases_to!(v@->Object_0[i as int] => v@->Object_0[i as int].1));
                let item = to_value(object.value(i));
                out.push((object.key(i).to_owned(), item));
                i += 1;
            }
            assert(node_fields(out@) =~= object@);
            close_value(ValueNode::Object(out))
        },
    }
}

/// Parses a text as JSON.
pub fn parse(source: &str) -> (r: Result<Json, String>)
    ensures
        match r {
            Ok(v) => json_parsed(source@) == Ok::<JsonView, Seq<char>>(v@),
            Err(e) => json_parsed(source@) == Err::<JsonView, Seq<char>>(e@),
        },
{
    match parse_value(source) {
        Ok(v) => Ok(from_value(v)),
        Err(e) => Err(e),
    }
}

/// Parses bytes as JSON.
pub fn parse_bytes(source: &[u8]) -> (r: Result<Json, String>)
    ensures
        match r {
            Ok(v) => json_parsed_bytes(source@) == Ok::<JsonView, Seq<char>>(v@),
            Err(e) => json_parsed_bytes(source@) == Err::<JsonView, Seq<char>>(e@),
        },
{
    match parse_value_bytes(source) {
        Ok(v) => Ok(from_value(v)),
        Err(e) => Err(e),
    }
}

/// Writes a value as compact JSON.
pub fn print(v: &Json) -> (r: String)
    ensures
        r@ == json_text(v@),
        v@ is Null ==> r@ == "null"@,
        v@ is Array ==> r@ == "["@ + comma_joined(json_texts(v@->Array_0)) + "]"@,
        v@ is Object ==> r@ == "{"@ + comma_joined(field_texts(v@->Object_0)) + "}"@,
        text::one_line(r@),
        reads_back(v@),
{
    value_text(&to_value(v))
}

/// How many bytes a value takes as compact JSON.
pub open spec fn json_size(v: JsonView) -> nat {
    text::byte_len(json_text(v))
}

/// Counts the bytes of a value as compact JSON.
pub fn size(v: &Json) -> (r: usize)
    ensures
        r == json_size(v@),
{
    text::byte_length(print(v).as_str())
}

/// What the JSON library says of a value where something else was expected.
pub uninterp spec fn type_complaint(found: JsonView, expected: Seq<char>) -> Seq<char>;

/// `serde::de::Error::invalid_type` of the JSON library's error, as text: its words on a value that
/// stands where something else was expected. They depend on the value and on what was expected.
#[verifier::external_body]
fn value_type_complaint(found: &serde_json::Value, expected: &str) -> (r: String)
    ensures
        r@ == type_complaint(value_json(*found), expected@),
{
    let found = match found {
        serde_json::Value::Null => Unexpected::Unit,
        serde_json::Value::Bool(b) => Unexpected::Bool(*b),
        serde_json::Value::Number(n) => match (n.as_u64(), n.as_i64()) {
            (Some(n), _) => Unexpected::Unsigned(n),
            (None, Some(n)) => Unexpected::Signed(n),
            (None, None) => Unexpected::Float(n.as_f64().unwrap_or_default()),
        },
        serde_json::Value::String(s) => Unexpected::Str(s),
        serde_json::Value::Array(_) => Unexpected::Seq,
        serde_json::Value::Object(_) => Unexpected::Map,
    };
    <serde_json::Error as serde::de::Error>::invalid_type(found, &expected).to_string()
}

/// Says that a value stands where something else was expected.
pub fn wrong_type(found: &Json, expected: &str) -> (r: String)
    ensures
        r@ == type_complaint(found@, expected@),
{
    value_type_complaint(&to_value(found), expected)
}

/// `std::str::from_utf8`: the text that the bytes encode, where they are valid UTF-8.
#[verifier::external_body]
pub(crate) fn text_of_bytes(source: &[u8]) -> (r: Option<&str>)
    ensures
        r is Some <==> valid_utf8(source@),
        r is Some ==> encode_utf8(r->0@) == source@,
{
    std::str::from_utf8(source).ok()
}

/// A token of a JSON Pointer as it is meant: `~1` stands for `/`, and `~0` for `~`.
pub open spec fn unescaped(token: Seq<char>) -> Seq<char>
    decreases token.len(),
{
    if token.len() == 0 {
        token
    } else if token.len() > 1 && token[0] == '~' && token[1] == '1' {
        seq!['/'] + unescaped(token.skip(2))
    } else if token.len() > 1 && token[0] == '~' && token[1] == '0' {
        seq!['~'] + unescaped(token.skip(2))
    } else {
        seq![token[0]] + unescaped(token.drop_first())
    }
}

/// What a token names in a value: a field of an object, or an item of an array by its index.
pub open spec fn child(v: JsonView, token: Seq<char>) -> Option<JsonView> {
    match v {
        JsonView::Object(fields) => json::field(fields, token),
        JsonView::Array(items) => if exists|i: int|
            0 <= i < items.len() && token == #[trigger] text::decimal(i as nat) {
            Some(
                items[choose|i: int|
                    0 <= i < items.len() && token == #[trigger] text::decimal(i as nat)],
            )
        } else {
            None
        },
        _ => None,
    }
}

/// Where the rest of a JSON Pointer leads to from a value, with what was read of its next token.
pub open spec fn walked(v: JsonView, token: Seq<char>, rest: Seq<char>) -> Option<JsonView>
    decreases rest.len(),
{
    if rest.len() == 0 {
        child(v, unescaped(token))
    } else if rest[0] != '/' {
        walked(v, token.push(rest[0]), rest.drop_first())
    } else {
        match child(v, unescaped(token)) {
            Some(found) => walked(found, Seq::empty(), rest.drop_first()),
            None => None,
        }
    }
}

/// The value inside another that a JSON Pointer leads to: tokens, each led by a `/`, name what to
/// step into.
pub open spec fn json_pointed(v: JsonView, pointer: Seq<char>) -> Option<JsonView> {
    if pointer.len() == 0 {
        Some(v)
    } else if pointer[0] != '/' {
        None
    } else {
        walked(v, Seq::empty(), pointer.drop_first())
    }
}

/// `serde_json::Value::pointer`: the value that a JSON Pointer leads to, where it leads to one. An
/// array is stepped into by the decimal index of an item, without a sign or leading zeros.
#[verifier::external_body]
fn value_at_pointer(v: &serde_json::Value, pointer: &str) -> (r: Option<serde_json::Value>)
    ensures
        match r {
            Some(found) => json_pointed(value_json(*v), pointer@) == Some(value_json(found)),
            None => json_pointed(value_json(*v), pointer@) is None,
        },
{
    v.pointer(pointer).cloned()
}

/// Follows a JSON Pointer.
pub fn follow_pointer(v: &Json, pointer: &str) -> (r: Option<Json>)
    ensures
        match r {
            Some(found) => json_pointed(v@, pointer@) == Some(found@),
            None => json_pointed(v@, pointer@) is None,
        },
{
    match value_at_pointer(&to_value(v), pointer) {
        Some(found) => Some(from_value(found)),
        None => None,
    }
}

} // verus!
