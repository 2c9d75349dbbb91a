//! JSON documents as the library reads them. The application converts the
//! documents it receives to and from this form; objects keep their keys in
//! the order the document lists them, each key once.
use vstd::prelude::*;
use crate::text::{chars_of, seq_eq};

verus! {

/// A JSON number: a non-negative or a negative integer, or any other number
/// kept as its text.
#[derive(Debug, Clone, PartialEq, Eq)]
pub enum JsonNumber {
    PosInt(u64),
    NegInt(i64),
    Other(String),
}

#[derive(Debug)]
pub enum JsonValue {
    Null,
    Bool(bool),
    Number(JsonNumber),
    String(String),
    Array(Vec<JsonValue>),
    Object(Vec<(String, JsonValue)>),
}

/// The value under `key` among object entries: the first entry with that key.
pub open spec fn entries_get(es: Seq<(String, JsonValue)>, key: Seq<char>) -> Option<JsonValue>
    decreases es.len(),
{
    if es.len() == 0 {
        None
    } else if es[0].0@ == key {
        Some(es[0].1)
    } else {
        entries_get(es.drop_first(), key)
    }
}

/// `Value::get(key)`: the member `key` of an object; nothing for other values.
pub open spec fn jget(v: JsonValue, key: Seq<char>) -> Option<JsonValue> {
    match v {
        JsonValue::Object(es) => entries_get(es@, key),
        _ => None,
    }
}

/// `get` on an optional value.
pub open spec fn jget_opt(v: Option<JsonValue>, key: Seq<char>) -> Option<JsonValue> {
    match v {
        Some(v) => jget(v, key),
        None => None,
    }
}

/// `Value::as_str`.
pub open spec fn jstr(v: Option<JsonValue>) -> Option<Seq<char>> {
    match v {
        Some(JsonValue::String(s)) => Some(s@),
        _ => None,
    }
}

/// `Value::as_array`.
pub open spec fn jarr(v: Option<JsonValue>) -> Option<Seq<JsonValue>> {
    match v {
        Some(JsonValue::Array(items)) => Some(items@),
        _ => None,
    }
}

/// `Value::as_object`.
pub open spec fn jobj(v: Option<JsonValue>) -> Option<Seq<(String, JsonValue)>> {
    match v {
        Some(JsonValue::Object(es)) => Some(es@),
        _ => None,
    }
}

/// `Value::as_u64`.
pub open spec fn ju64(v: Option<JsonValue>) -> Option<u64> {
    match v {
        Some(JsonValue::Number(JsonNumber::PosInt(n))) => Some(n),
        _ => None,
    }
}

pub open spec fn opt_ref<'a>(r: Option<&'a JsonValue>) -> Option<JsonValue> {
    match r {
        Some(v) => Some(*v),
        None => None,
    }
}

/// The entry value under `key`.
pub fn entries_lookup<'a>(es: &'a Vec<(String, JsonValue)>, key: &str) -> (r: Option<&'a JsonValue>)
    ensures
        opt_ref(r) == entries_get(es@, key@),
{
    let k = chars_of(key);
    let mut i: usize = 0;
    assert(es@.skip(0) =~= es@);
    while i < es.len()
        invariant
            i <= es.len(),
            k@ == key@,
            entries_get(es@, key@) == entries_get(es@.skip(i as int), key@),
        decreases es.len() - i,
    {
        assert(es@.skip(i as int).drop_first() =~= es@.skip(i + 1));
        let name = chars_of(es[i].0.as_str());
        if seq_eq(name.as_slice(), k.as_slice()) {
            return Some(&es[i].1);
        }
        i = i + 1;
    }
    None
}

/// `Value::get`.
pub fn json_get<'a>(v: &'a JsonValue, key: &str) -> (r: Option<&'a JsonValue>)
    ensures
        opt_ref(r) == jget(*v, key@),
{
    match v {
        JsonValue::Object(es) => entries_lookup(es, key),
        _ => None,
    }
}

/// `get` on an optional value.
pub fn json_get_opt<'a>(v: Option<&'a JsonValue>, key: &str) -> (r: Option<&'a JsonValue>)
    ensures
        opt_ref(r) == jget_opt(opt_ref(v), key@),
{
    match v {
        Some(v) => json_get(v, key),
        None => None,
    }
}

/// `Value::as_str`.
pub fn json_str<'a>(v: Option<&'a JsonValue>) -> (r: Option<&'a String>)
    ensures
        match r {
            Some(s) => jstr(opt_ref(v)) == Some(s@),
            None => jstr(opt_ref(v)).is_none(),
        },
{
    match v {
        Some(JsonValue::String(s)) => Some(s),
        _ => None,
    }
}

/// `Value::as_array`.
pub fn json_array<'a>(v: Option<&'a JsonValue>) -> (r: Option<&'a Vec<JsonValue>>)
    ensures
        match r {
            Some(a) => jarr(opt_ref(v)) == Some(a@),
            None => jarr(opt_ref(v)).is_none(),
        },
{
    match v {
        Some(JsonValue::Array(items)) => Some(items),
        _ => None,
    }
}

/// `Value::as_object`.
pub fn json_object<'a>(v: Option<&'a JsonValue>) -> (r: Option<&'a Vec<(String, JsonValue)>>)
    ensures
        match r {
            Some(o) => jobj(opt_ref(v)) == Some(o@),
            None => jobj(opt_ref(v)).is_none(),
        },
{
    match v {
        Some(JsonValue::Object(es)) => Some(es),
        _ => None,
    }
}

/// `Value::as_u64`.
pub fn json_u64(v: Option<&JsonValue>) -> (r: Option<u64>)
    ensures
        r == ju64(opt_ref(v)),
{
    match v {
        Some(JsonValue::Number(JsonNumber::PosInt(n))) => Some(*n),
        _ => None,
    }
}

}

verus! {

/// A JSON document as mathematical values: texts as character sequences.
pub enum JsonView {
    Null,
    Bool(bool),
    Number(JsonNumber),
    Str(Seq<char>),
    Array(Seq<JsonView>),
    Object(Seq<(Seq<char>, JsonView)>),
}

/// The document a value holds.
pub open spec fn jview(v: JsonValue) -> JsonView
    decreases v,
{
    match v {
        JsonValue::Null => JsonView::Null,
        JsonValue::Bool(b) => JsonView::Bool(b),
        JsonValue::Number(n) => JsonView::Number(n),
        JsonValue::String(s) => JsonView::Str(s@),
        JsonValue::Array(items) => JsonView::Array(jviews(items@)),
        JsonValue::Object(es) => JsonView::Object(jentries(es@)),
    }
}

pub open spec fn jviews(s: Seq<JsonValue>) -> Seq<JsonView>
    decreases s,
{
    if s.len() == 0 {
        Seq::empty()
    } else {
        jviews(s.drop_last()).push(jview(s.last()))
    }
}

pub open spec fn jentries(s: Seq<(String, JsonValue)>) -> Seq<(Seq<char>, JsonView)>
    decreases s,
{
    if s.len() == 0 {
        Seq::empty()
    } else {
        jentries(s.drop_last()).push((s.last().0@, jview(s.last().1)))
    }
}


/// A JSON string.
pub fn jtext(s: &str) -> (r: JsonValue)
    ensures
        jview(r) == JsonView::Str(s@),
{
    JsonValue::String(s.to_owned())
}

/// A JSON string, or `null` for none.
pub fn jtext_or_null(s: &Option<String>) -> (r: JsonValue)
    ensures
        jview(r) == match s {
            Some(t) => JsonView::Str(t@),
            None => JsonView::Null,
        },
{
    match s {
        Some(t) => JsonValue::String(t.clone()),
        None => JsonValue::Null,
    }
}

/// Adds the member `key` to an object's entries.
pub fn put(es: &mut Vec<(String, JsonValue)>, key: &str, v: JsonValue)
    ensures
        jentries(final(es)@) == jentries(old(es)@).push((key@, jview(v))),
{
    let ghost before = es@;
    let ghost vv = jview(v);
    es.push((key.to_owned(), v));
    assert(es@.drop_last() =~= before);
}

/// Adds an item to an array's items.
pub fn push_item(items: &mut Vec<JsonValue>, v: JsonValue)
    ensures
        jviews(final(items)@) == jviews(old(items)@).push(jview(v)),
{
    let ghost before = items@;
    items.push(v);
    assert(items@.drop_last() =~= before);
}

}
