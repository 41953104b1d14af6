//! JSON values as the library sees them, with the accessors the parsers use;
//! `serde_json` reads and writes their text.
//!
//! Objects hold their members in order, each key once; a value read with
//! `serde_json` keeps that crate's member order.
use vstd::prelude::*;
use serde_json::Value as V;

use crate::text::str_eq;

verus! {

/// A JSON number.
#[derive(Debug, Clone)]
pub enum JsonNumber {
    /// A non-negative integer.
    PosInt(u64),
    /// A negative integer.
    NegInt(i64),
    /// Any other number, with the text `serde_json` writes for it.
    Float(String),
}

/// A JSON value.
#[derive(Debug)]
pub enum JsonValue {
    Null,
    Bool(bool),
    Number(JsonNumber),
    String(String),
    Array(Vec<JsonValue>),
    Object(Vec<(String, JsonValue)>),
}

// ---------------------------------------------------------------------------
// Accessors
// ---------------------------------------------------------------------------

/// The member `key` of an object, if the value is an object that has it
/// (the first member of that name).
pub open spec fn get_member(ms: Seq<(String, JsonValue)>, key: Seq<char>) -> Option<JsonValue>
    decreases ms.len(),
{
    if ms.len() == 0 {
        None
    } else if ms[0].0@ == key {
        Some(ms[0].1)
    } else {
        get_member(ms.drop_first(), key)
    }
}

/// `Value::get(key)`.
pub open spec fn json_get(v: JsonValue, key: Seq<char>) -> Option<JsonValue> {
    match v {
        JsonValue::Object(ms) => get_member(ms@, key),
        _ => None,
    }
}

/// `get` through an optional value.
pub open spec fn json_get_opt(v: Option<JsonValue>, key: Seq<char>) -> Option<JsonValue> {
    match v {
        Some(x) => json_get(x, key),
        None => None,
    }
}

/// `Value::as_str`.
pub open spec fn json_str(v: JsonValue) -> Option<Seq<char>> {
    match v {
        JsonValue::String(s) => Some(s@),
        _ => None,
    }
}

/// `as_str` through an optional value.
pub open spec fn json_str_opt(v: Option<JsonValue>) -> Option<Seq<char>> {
    match v {
        Some(x) => json_str(x),
        None => None,
    }
}

/// `Value::as_u64`.
pub open spec fn json_u64(v: JsonValue) -> Option<u64> {
    match v {
        JsonValue::Number(JsonNumber::PosInt(n)) => Some(n),
        JsonValue::Number(JsonNumber::NegInt(i)) => if i >= 0 {
            Some(i as u64)
        } else {
            None
        },
        _ => None,
    }
}

/// `as_u64` through an optional value.
pub open spec fn json_u64_opt(v: Option<JsonValue>) -> Option<u64> {
    match v {
        Some(x) => json_u64(x),
        None => None,
    }
}

/// `Value::as_bool`.
pub open spec fn json_bool(v: JsonValue) -> Option<bool> {
    match v {
        JsonValue::Bool(b) => Some(b),
        _ => None,
    }
}

/// `as_bool` through an optional value.
pub open spec fn json_bool_opt(v: Option<JsonValue>) -> Option<bool> {
    match v {
        Some(x) => json_bool(x),
        None => None,
    }
}

/// `Value::as_array`.
pub open spec fn json_array(v: JsonValue) -> Option<Seq<JsonValue>> {
    match v {
        JsonValue::Array(a) => Some(a@),
        _ => None,
    }
}

/// `Value::as_object`.
pub open spec fn json_object(v: JsonValue) -> Option<Seq<(String, JsonValue)>> {
    match v {
        JsonValue::Object(ms) => Some(ms@),
        _ => None,
    }
}

/// `as_object` through an optional value.
pub open spec fn json_object_opt(v: Option<JsonValue>) -> Option<Seq<(String, JsonValue)>> {
    match v {
        Some(x) => json_object(x),
        None => None,
    }
}

/// `as_array` through an optional value.
pub open spec fn json_array_opt(v: Option<JsonValue>) -> Option<Seq<JsonValue>> {
    match v {
        Some(x) => json_array(x),
        None => None,
    }
}

/// `Value::get(index)` on an array.
pub open spec fn json_index(v: JsonValue, i: int) -> Option<JsonValue> {
    match v {
        JsonValue::Array(a) => if 0 <= i < a@.len() {
            Some(a@[i])
        } else {
            None
        },
        _ => None,
    }
}

impl JsonValue {
    /// The member `key`, if this is an object that has it.
    pub fn get(&self, key: &str) -> (r: Option<&JsonValue>)
        ensures
            r matches Some(x) ==> json_get(*self, key@) == Some(*x),
            r is None ==> json_get(*self, key@) is None,
    {
        match self {
            JsonValue::Object(ms) => {
                let mut i: usize = 0;
                assert(ms@.skip(0) =~= ms@);
                while i < ms.len()
                    invariant
                        i <= ms@.len(),
                        json_get(*self, key@) == get_member(ms@, key@),
                        get_member(ms@, key@) == get_member(ms@.skip(i as int), key@),
                    decreases ms.len() - i,
                {
                    assert(ms@.skip(i as int)[0] == ms@[i as int]);
                    assert(ms@.skip(i as int).drop_first() =~= ms@.skip(i + 1));
                    if str_eq(ms[i].0.as_str(), key) {
                        return Some(&ms[i].1);
                    }
                    i += 1;
                }
                None
            },
            _ => None,
        }
    }

    /// The text, if this is a string.
    pub fn as_str(&self) -> (r: Option<&str>)
        ensures
            r matches Some(s) ==> json_str(*self) == Some(s@),
            r is None ==> json_str(*self) is None,
    {
        match self {
            JsonValue::String(s) => Some(s.as_str()),
            _ => None,
        }
    }

    /// The number, if this is a non-negative integer.
    pub fn as_u64(&self) -> (r: Option<u64>)
        ensures
            r == json_u64(*self),
    {
        match self {
            JsonValue::Number(JsonNumber::PosInt(n)) => Some(*n),
            JsonValue::Number(JsonNumber::NegInt(i)) => if *i >= 0 {
                Some(*i as u64)
            } else {
                None
            },
            _ => None,
        }
    }

    /// The flag, if this is a boolean.
    pub fn as_bool(&self) -> (r: Option<bool>)
        ensures
            r == json_bool(*self),
    {
        match self {
            JsonValue::Bool(b) => Some(*b),
            _ => None,
        }
    }

    /// The items, if this is an array.
    pub fn as_array(&self) -> (r: Option<&Vec<JsonValue>>)
        ensures
            r matches Some(a) ==> json_array(*self) == Some(a@),
            r is None ==> json_array(*self) is None,
    {
        match self {
            JsonValue::Array(a) => Some(a),
            _ => None,
        }
    }

    /// The members, if this is an object.
    pub fn as_object(&self) -> (r: Option<&Vec<(String, JsonValue)>>)
        ensures
            r matches Some(m) ==> json_object(*self) == Some(m@),
            r is None ==> json_object(*self) is None,
    {
        match self {
            JsonValue::Object(m) => Some(m),
            _ => None,
        }
    }

    /// The item at `i`, if this is an array that long.
    pub fn at(&self, i: usize) -> (r: Option<&JsonValue>)
        ensures
            r matches Some(x) ==> json_index(*self, i as int) == Some(*x),
            r is None ==> json_index(*self, i as int) is None,
    {
        match self {
            JsonValue::Array(a) => if i < a.len() {
                Some(&a[i])
            } else {
                None
            },
            _ => None,
        }
    }

    /// Whether this is `null`.
    pub fn is_null(&self) -> (r: bool)
        ensures
            r == (*self is Null),
    {
        match self {
            JsonValue::Null => true,
            _ => false,
        }
    }
}

// ---------------------------------------------------------------------------
// Mathematical view
// ---------------------------------------------------------------------------

/// A JSON value with strings as character sequences.
#[verifier::ext_equal]
pub enum Json {
    Null,
    Bool(bool),
    /// An integer.
    Int(int),
    /// A number that is not an integer, by its text.
    Float(Seq<char>),
    Str(Seq<char>),
    Arr(Seq<Json>),
    Obj(Seq<(Seq<char>, Json)>),
}

/// The view of a number.
pub open spec fn number_view(n: JsonNumber) -> Json {
    match n {
        JsonNumber::PosInt(u) => Json::Int(u as int),
        JsonNumber::NegInt(i) => Json::Int(i as int),
        JsonNumber::Float(t) => Json::Float(t@),
    }
}

/// The view of a value.
pub open spec fn jview(v: JsonValue) -> Json
    decreases v,
{
    match v {
        JsonValue::Null => Json::Null,
        JsonValue::Bool(b) => Json::Bool(b),
        JsonValue::Number(n) => number_view(n),
        JsonValue::String(s) => Json::Str(s@),
        JsonValue::Array(a) => Json::Arr(jview_items(a@)),
        JsonValue::Object(ms) => Json::Obj(jview_members(ms@)),
    }
}

/// The views of array items.
pub open spec fn jview_items(a: Seq<JsonValue>) -> Seq<Json>
    decreases a,
{
    if a.len() == 0 {
        seq![]
    } else {
        jview_items(a.drop_last()) + seq![jview(a.last())]
    }
}

/// The views of object members.
pub open spec fn jview_members(ms: Seq<(String, JsonValue)>) -> Seq<(Seq<char>, Json)>
    decreases ms,
{
    if ms.len() == 0 {
        seq![]
    } else {
        jview_members(ms.drop_last()) + seq![(ms.last().0@, jview(ms.last().1))]
    }
}

/// A JSON string value.
pub fn jstr(s: &str) -> (r: JsonValue)
    ensures
        jview(r) == Json::Str(s@),
{
    JsonValue::String(String::from_str(s))
}

/// A JSON array of values.
pub fn jarr(items: Vec<JsonValue>) -> (r: JsonValue)
    ensures
        jview(r) == Json::Arr(jview_items(items@)),
{
    JsonValue::Array(items)
}

/// A JSON object of members.
pub fn jobj(ms: Vec<(String, JsonValue)>) -> (r: JsonValue)
    ensures
        jview(r) == Json::Obj(jview_members(ms@)),
{
    JsonValue::Object(ms)
}

/// A member of an object.
pub fn member(key: &str, v: JsonValue) -> (r: (String, JsonValue))
    ensures
        r.0@ == key@,
        r.1 == v,
{
    (String::from_str(key), v)
}

/// The views of members pushed one at a time.
pub proof fn lemma_jview_members_push(ms: Seq<(String, JsonValue)>, m: (String, JsonValue))
    ensures
        jview_members(ms.push(m)) == jview_members(ms) + seq![(m.0@, jview(m.1))],
{
    assert(ms.push(m).drop_last() =~= ms);
}

/// The views of items pushed one at a time.
pub proof fn lemma_jview_items_push(a: Seq<JsonValue>, x: JsonValue)
    ensures
        jview_items(a.push(x)) == jview_items(a) + seq![jview(x)],
{
    assert(a.push(x).drop_last() =~= a);
}

/// Appends a member to an object's members.
pub fn push_member(ms: &mut Vec<(String, JsonValue)>, key: &str, v: JsonValue)
    ensures
        jview_members(final(ms)@) == jview_members(old(ms)@) + seq![(key@, jview(v))],
{
    let m = (String::from_str(key), v);
    proof {
        lemma_jview_members_push(ms@, m);
    }
    ms.push(m);
}

/// Appends an item to an array's items.
pub fn push_item(a: &mut Vec<JsonValue>, v: JsonValue)
    ensures
        jview_items(final(a)@) == jview_items(old(a)@) + seq![jview(v)],
{
    proof {
        lemma_jview_items_push(a@, v);
    }
    a.push(v);
}

// ---------------------------------------------------------------------------
// Reading JSON text
// ---------------------------------------------------------------------------

#[verifier::external_type_specification]
#[verifier::external_body]
pub struct ExSerdeJsonValue(serde_json::Value);

/// The library's JSON for a `serde_json` value: the same tree, objects in
/// the order `serde_json` keeps their members, numbers by kind. The
/// recursive half of `parse_json` and `parse_json_array`; it converts
/// only, and has no contract of its own.
#[verifier::external_body]
fn json_of_serde(v: &serde_json::Value) -> JsonValue {
    match v {
        V::Null => JsonValue::Null,
        V::Bool(b) => JsonValue::Bool(*b),
        V::Number(n) => JsonValue::Number(match (n.as_u64(), n.as_i64()) {
            (Some(u), _) => JsonNumber::PosInt(u),
            (None, Some(i)) => JsonNumber::NegInt(i),
            _ => JsonNumber::Float(n.to_string()),
        }),
        V::String(t) => JsonValue::String(t.clone()),
        V::Array(a) => JsonValue::Array(a.iter().map(json_of_serde).collect()),
        V::Object(m) => JsonValue::Object(m.iter().map(|(k, x)| (k.clone(), json_of_serde(x))).collect()),
    }
}

/// A value as `serde_json` gives it: a non-negative integer is never held
/// as a negative one.
pub open spec fn json_wf(v: JsonValue) -> bool
    decreases v,
{
    match v {
        JsonValue::Number(JsonNumber::NegInt(i)) => i < 0,
        JsonValue::Array(a) => forall|k: int| 0 <= k < a@.len() ==> json_wf(#[trigger] a@[k]),
        JsonValue::Object(ms) => forall|k: int| 0 <= k < ms@.len() ==> json_wf(#[trigger] ms@[k].1),
        _ => true,
    }
}

/// What `serde_json::from_str::<serde_json::Value>` gives for a text: the
/// value, or the error's message.
pub uninterp spec fn json_parsed(text: Seq<char>) -> Result<Json, Seq<char>>;

/// Reads JSON text with `serde_json::from_str`. The contract names the
/// result only: JSON parsing is the crate's.
#[verifier::external_body]
pub(crate) fn parse_json(text: &str) -> (r: Result<JsonValue, String>)
    ensures
        match r {
            Ok(v) => json_parsed(text@) == Ok::<Json, Seq<char>>(jview(v)) && json_wf(v),
            Err(e) => json_parsed(text@) == Err::<Json, Seq<char>>(e@),
        },
{
    serde_json::from_str::<serde_json::Value>(text).map(|v| json_of_serde(&v)).map_err(|e| e.to_string())
}

/// What `serde_json::from_str::<Vec<serde_json::Value>>` gives for a text:
/// the items of the array, or the error's message (also when the text is
/// JSON of another kind).
pub uninterp spec fn json_array_parsed(text: Seq<char>) -> Result<Seq<Json>, Seq<char>>;

/// Reads a JSON array with `serde_json::from_str`. The contract names the
/// result only: JSON parsing is the crate's.
#[verifier::external_body]
pub(crate) fn parse_json_array(text: &str) -> (r: Result<Vec<JsonValue>, String>)
    ensures
        match r {
            Ok(v) => json_array_parsed(text@) == Ok::<Seq<Json>, Seq<char>>(jview_items(v@)) && forall|k: int|
                0 <= k < v@.len() ==> json_wf(#[trigger] v@[k]),
            Err(e) => json_array_parsed(text@) == Err::<Seq<Json>, Seq<char>>(e@),
        },
{
    serde_json::from_str::<Vec<serde_json::Value>>(text).map(|v| v.iter().map(json_of_serde).collect()).map_err(|e| e.to_string())
}

// ---------------------------------------------------------------------------
// Writing JSON text
// ---------------------------------------------------------------------------

/// The `serde_json` value of the library's JSON: the same tree, members in
/// order, integers as integers and any other number read back from its
/// text. The recursive half of `to_json_text`; it converts only, and has
/// no contract of its own.
#[verifier::external_body]
fn serde_of_json(v: &JsonValue) -> serde_json::Value {
    match v {
        JsonValue::Null => V::Null,
        JsonValue::Bool(b) => V::Bool(*b),
        JsonValue::Number(JsonNumber::PosInt(u)) => V::from(*u),
        JsonValue::Number(JsonNumber::NegInt(i)) => V::from(*i),
        JsonValue::Number(JsonNumber::Float(t)) => serde_json::from_str::<serde_json::Number>(t).map(V::Number).unwrap_or(V::Null),
        JsonValue::String(t) => V::String(t.clone()),
        JsonValue::Array(a) => V::Array(a.iter().map(serde_of_json).collect()),
        JsonValue::Object(ms) => V::Object(ms.iter().map(|(k, x)| (k.clone(), serde_of_json(x))).collect()),
    }
}

/// What `serde_json::to_string` writes for a value: its compact JSON text.
pub uninterp spec fn json_written(v: Json) -> Seq<char>;

/// Writes a value as compact JSON with `serde_json::to_string`. The
/// contract names the result only: the writing is the crate's. (Writing a
/// `serde_json::Value` does not fail; the empty text stands for an error.)
#[verifier::external_body]
pub(crate) fn to_json_text(v: &JsonValue) -> (r: String)
    ensures
        r@ == json_written(jview(*v)),
{
    serde_json::to_string(&serde_of_json(v)).unwrap_or_default()
}

} // verus!
