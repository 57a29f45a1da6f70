//! From bytes to text and from text to JSON documents.
//!
//! The parser is that of `serde_json`, and the decoder that of the standard
//! library. What they are trusted with stands at the top of this file.

use vstd::prelude::*;
use vstd::utf8::{decode_utf8, valid_utf8};

use crate::json::{json_views, lemma_array_view, lemma_object_view, member_views, Json, JsonValue};

verus! {

// ── Trusted: the outside parser and decoder ──────────────────────────────────

/// The document type of `serde_json`, seen only through the functions below.
#[verifier::external_type_specification]
#[verifier::external_body]
pub struct ExValue(serde_json::Value);

/// What a `serde_json::Value` holds: its tree of items and members, the members
/// of an object in the order in which its map hands them out.
pub uninterp spec fn json_contents(value: serde_json::Value) -> JsonValue;

/// What `serde_json::from_str` makes of a text: the document, or the wording of
/// the error.
pub uninterp spec fn json_reading(text: Seq<char>) -> Result<JsonValue, Seq<char>>;

/// How the standard library words its refusal of bytes that are not UTF-8.
pub uninterp spec fn utf8_error_text(bytes: Seq<u8>) -> Seq<char>;

/// `serde_json::from_str` at the type `serde_json::Value`. The outcome is a
/// function of the text alone, and an error is handed on as its wording.
#[verifier::external_body]
fn read_value(text: &str) -> (r: Result<serde_json::Value, String>)
    ensures
        match r {
            Ok(value) => json_reading(text@) == Ok::<JsonValue, Seq<char>>(json_contents(value)),
            Err(message) => json_reading(text@) == Err::<JsonValue, Seq<char>>(message@),
        },
{
    serde_json::from_str::<serde_json::Value>(text).map_err(|e| e.to_string())
}

/// `serde_json::Value::as_bool`: the truth value of a boolean, `None` of
/// anything else.
pub assume_specification[ serde_json::Value::as_bool ](value: &serde_json::Value) -> (r: Option<
    bool,
>)
    ensures
        r == json_contents(*value).as_bool(),
;

/// `serde_json::Value::is_number`: true of numbers and of nothing else.
pub assume_specification[ serde_json::Value::is_number ](value: &serde_json::Value) -> (r: bool)
    ensures
        r == (json_contents(*value) is Number),
;

/// `serde_json::Value::as_u64`: the value of a number that is an unsigned
/// integer of 64 bits, `None` of anything else.
pub assume_specification[ serde_json::Value::as_u64 ](value: &serde_json::Value) -> (r: Option<u64>)
    ensures
        r == json_contents(*value).as_u64(),
;

/// `serde_json::Value::as_str`: the text of a text value, `None` of anything
/// else.
pub assume_specification[ serde_json::Value::as_str ](value: &serde_json::Value) -> (r: Option<&str>)
    ensures
        match r {
            Some(s) => json_contents(*value) == JsonValue::Text(s@),
            None => !(json_contents(*value) is Text),
        },
;

/// `serde_json::Value::as_array`: the items of an array, `None` of anything else.
pub assume_specification[ serde_json::Value::as_array ](value: &serde_json::Value) -> (r: Option<
    &Vec<serde_json::Value>,
>)
    ensures
        match r {
            Some(items) => json_contents(*value) == JsonValue::Array(
                items@.map_values(|v: serde_json::Value| json_contents(v)),
            ),
            None => !(json_contents(*value) is Array),
        },
;

/// `serde_json::Value::as_object`, with the members of the map in a list: each
/// key comes once. `None` of anything but an object.
#[verifier::external_body]
fn members_of(value: &serde_json::Value) -> (r: Option<Vec<(String, &serde_json::Value)>>)
    ensures
        match r {
            Some(members) => {
                &&& json_contents(*value) == JsonValue::Object(
                    members@.map_values(
                        |m: (String, &serde_json::Value)| (m.0@, json_contents(*m.1)),
                    ),
                )
                &&& forall|i: int, j: int|
                    0 <= i < j < members@.len() ==> #[trigger] members@[i].0@ != #[trigger] members@[j].0@
            },
            None => !(json_contents(*value) is Object),
        },
{
    value.as_object().map(|map| map.iter().map(|(key, item)| (key.clone(), item)).collect())
}

/// `String::from_utf8`: the characters of bytes that are UTF-8, and for other
/// bytes the wording of the error.
#[verifier::external_body]
pub(crate) fn decode_bytes(bytes: Vec<u8>) -> (r: Result<String, String>)
    ensures
        match r {
            Ok(s) => valid_utf8(bytes@) && s@ == decode_utf8(bytes@),
            Err(message) => !valid_utf8(bytes@) && message@ == utf8_error_text(bytes@),
        },
{
    String::from_utf8(bytes).map_err(|e| e.to_string())
}

// ── Documents ────────────────────────────────────────────────────────────────

/// The document that `value` holds.
fn document(value: &serde_json::Value) -> (r: Json)
    ensures
        r@ == json_contents(*value),
        r@.well_formed(),
    decreases json_contents(*value),
{
    broadcast use {lemma_array_view, lemma_object_view};
    let ghost tree = json_contents(*value);
    if let Some(b) = value.as_bool() {
        return Json::Bool(b);
    }
    if value.is_number() {
        return Json::Number(value.as_u64());
    }
    if let Some(s) = value.as_str() {
        return Json::Text(s.to_string());
    }
    if let Some(items) = value.as_array() {
        let ghost all = items@.map_values(|v: serde_json::Value| json_contents(v));
        let mut out: Vec<Json> = Vec::new();
        let mut i: usize = 0;
        while i < items.len()
            invariant
                i <= items.len(),
                all == items@.map_values(|v: serde_json::Value| json_contents(v)),
                tree == json_contents(*value),
                tree == JsonValue::Array(all),
                json_views(out@) == all.take(i as int),
                forall|k: int| 0 <= k < i ==> (#[trigger] all[k]).well_formed(),
            decreases items.len() - i,
        {
            let ghost before = out@;
            assert(all[i as int] == json_contents(items@[i as int]));
            assert(decreases_to!(tree => tree->Array_0[i as int]));
            let item = document(&items[i]);
            out.push(item);
            assert(json_views(out@) == json_views(before).push(item@));
            assert(all.take(i + 1) == all.take(i as int).push(all[i as int]));
            i = i + 1;
        }
        assert(all.take(i as int) == all);
        return Json::Array(out);
    }
    if let Some(members) = members_of(value) {
        let ghost all = members@.map_values(
            |m: (String, &serde_json::Value)| (m.0@, json_contents(*m.1)),
        );
        let mut out: Vec<(String, Json)> = Vec::new();
        let mut i: usize = 0;
        while i < members.len()
            invariant
                i <= members.len(),
                all == members@.map_values(
                    |m: (String, &serde_json::Value)| (m.0@, json_contents(*m.1)),
                ),
                tree == json_contents(*value),
                tree == JsonValue::Object(all),
                member_views(out@) == all.take(i as int),
                forall|k: int| 0 <= k < i ==> (#[trigger] all[k]).1.well_formed(),
            decreases members.len() - i,
        {
            let ghost before = out@;
            assert(all[i as int] == (members@[i as int].0@, json_contents(*members@[i as int].1)));
            assert(decreases_to!(tree => tree->Object_0[i as int].1));
            let member = (members[i].0.clone(), document(members[i].1));
            out.push(member);
            assert(member_views(out@) == member_views(before).push((member.0@, member.1@)));
            assert(all.take(i + 1) == all.take(i as int).push(all[i as int]));
            i = i + 1;
        }
        assert(all.take(i as int) == all);
        assert forall|j: int, k: int| 0 <= j < k < all.len() implies all[j].0 != all[k].0 by {
            assert(members@[j].0@ != members@[k].0@);
        }
        return Json::Object(out);
    }
    Json::Null
}

/// Reads `text` as a JSON document.
pub fn read_json(text: &str) -> (r: Result<Json, String>)
    ensures
        match r {
            Ok(json) => json_reading(text@) == Ok::<JsonValue, Seq<char>>(json@)
                && json@.well_formed(),
            Err(message) => json_reading(text@) == Err::<JsonValue, Seq<char>>(message@),
        },
{
    match read_value(text) {
        Ok(value) => Ok(document(&value)),
        Err(message) => Err(message),
    }
}

} // verus!
