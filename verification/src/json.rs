//! A JSON document held as plain values.
//!
//! Numbers keep their decimal text; objects keep their members in order. An
//! object converted from a JSON map holds each key once; the type itself does
//! not enforce that, and lookups take the first member with a key.

use vstd::prelude::*;
use crate::text::chars_eq;
use crate::text::chars_of;

verus! {

/// A JSON value.
#[derive(Debug, PartialEq)]
pub enum JsonValue {
    Null,
    Bool(bool),
    /// The number's decimal text.
    Number(String),
    String(String),
    Array(Vec<JsonValue>),
    /// The members in order. Nothing here keeps a key from standing twice;
    /// where it does, every lookup in this library takes the first member with
    /// that key. An object read from a parsed map holds each key once, so
    /// there the choice makes no difference.
    Object(Vec<(String, JsonValue)>),
}

/// The mathematical form of a JSON value.
pub enum Json {
    Null,
    Bool(bool),
    Number(Seq<char>),
    Str(Seq<char>),
    Array(Seq<Json>),
    Object(Seq<(Seq<char>, Json)>),
}

/// The mathematical form of `v`.
pub open spec fn json_view(v: JsonValue) -> Json
    decreases v,
{
    match v {
        JsonValue::Null => Json::Null,
        JsonValue::Bool(b) => Json::Bool(b),
        JsonValue::Number(n) => Json::Number(n@),
        JsonValue::String(s) => Json::Str(s@),
        JsonValue::Array(items) => Json::Array(
            Seq::new(
                items.len() as nat,
                |i: int|
                    if 0 <= i < items.len() {
                        json_view(items@[i])
                    } else {
                        Json::Null
                    },
            ),
        ),
        JsonValue::Object(fields) => Json::Object(
            Seq::new(
                fields.len() as nat,
                |i: int|
                    if 0 <= i < fields.len() {
                        (fields@[i].0@, json_view(fields@[i].1))
                    } else {
                        (Seq::empty(), Json::Null)
                    },
            ),
        ),
    }
}

impl View for JsonValue {
    type V = Json;

    open spec fn view(&self) -> Json {
        json_view(*self)
    }
}

/// The value under `key` among `fields`: the first member with that key.
pub open spec fn field_value(fields: Seq<(Seq<char>, Json)>, key: Seq<char>) -> Option<Json>
    decreases fields.len(),
{
    if fields.len() == 0 {
        None
    } else if fields[0].0 == key {
        Some(fields[0].1)
    } else {
        field_value(fields.drop_first(), key)
    }
}

/// What `Value::get(key)` gives: the member of an object, else nothing.
pub open spec fn json_get(v: Json, key: Seq<char>) -> Option<Json> {
    match v {
        Json::Object(fields) => field_value(fields, key),
        _ => None,
    }
}

/// What `Value::as_str` gives: the text of a JSON string, else nothing.
pub open spec fn json_as_str(v: Json) -> Option<Seq<char>> {
    match v {
        Json::Str(s) => Some(s),
        _ => None,
    }
}

/// The text of the string under `key`, when `v` is an object holding one
/// (`v.get(key).and_then(Value::as_str)`).
pub open spec fn string_member(v: Json, key: Seq<char>) -> Option<Seq<char>> {
    match json_get(v, key) {
        Some(m) => json_as_str(m),
        None => None,
    }
}

/// The text of the string under `key` in `v`, when there is one.
pub fn get_string_member(v: &JsonValue, key: &str) -> (r: Option<String>)
    ensures
        r matches Some(s) ==> string_member(v@, key@) == Some(s@),
        r is None ==> string_member(v@, key@) is None,
{
    match v {
        JsonValue::Object(fields) => {
            let ghost fv = match v@ {
                Json::Object(f) => f,
                _ => Seq::empty(),
            };
            assert(fv.len() == fields.len());
            let k = chars_of(key);
            let n = fields.len();
            let mut i: usize = 0;
            assert(fv.skip(0) =~= fv);
            while i < n
                invariant
                    i <= n == fields.len() == fv.len(),
                    k@ == key@,
                    v@ == Json::Object(fv),
                    forall|j: int| 0 <= j < n ==> #[trigger] fv[j] == (fields@[j].0@, json_view(fields@[j].1)),
                    field_value(fv, key@) == field_value(fv.skip(i as int), key@),
                decreases n - i,
            {
                let kc = chars_of(fields[i].0.as_str());
                assert(fv.skip(i as int).drop_first() =~= fv.skip(i + 1));
                assert(fv.skip(i as int)[0] == fv[i as int]);
                if chars_eq(&kc, &k) {
                    match &fields[i].1 {
                        JsonValue::String(s) => {
                            return Some(s.clone());
                        },
                        _ => {
                            return None;
                        },
                    }
                }
                i = i + 1;
            }
            None
        },
        _ => None,
    }
}

proof fn lemma_dec_array(v: JsonValue, i: int)
    requires
        v is Array,
        0 <= i < v->Array_0.len(),
    ensures
        decreases_to!(v => v->Array_0[i]),
{
    assert(decreases_to!(v => v->Array_0));
    assert(decreases_to!(v->Array_0 => v->Array_0[i]));
}

proof fn lemma_dec_object(v: JsonValue, i: int)
    requires
        v is Object,
        0 <= i < v->Object_0.len(),
    ensures
        decreases_to!(v => v->Object_0[i].1),
{
    assert(decreases_to!(v => v->Object_0));
    assert(decreases_to!(v->Object_0 => v->Object_0[i]));
    assert(decreases_to!(v->Object_0[i] => v->Object_0[i].1));
}

/// A copy of `v`.
pub fn clone_json(v: &JsonValue) -> (r: JsonValue)
    ensures
        r@ == v@,
    decreases v,
{
    match v {
        JsonValue::Null => JsonValue::Null,
        JsonValue::Bool(b) => JsonValue::Bool(*b),
        JsonValue::Number(n) => JsonValue::Number(n.clone()),
        JsonValue::String(s) => JsonValue::String(s.clone()),
        JsonValue::Array(items) => {
            let mut out: Vec<JsonValue> = Vec::new();
            let n = items.len();
            let mut i: usize = 0;
            while i < n
                invariant
                    i <= n == items.len(),
                    out.len() == i,
                    *v == JsonValue::Array(*items),
                    forall|j: int| 0 <= j < i ==> #[trigger] json_view(out@[j]) == json_view(items@[j]),
                decreases n - i,
            {
                proof {
                    lemma_dec_array(*v, i as int);
                }
                let c = clone_json(&items[i]);
                out.push(c);
                i = i + 1;
            }
            let r = JsonValue::Array(out);
            assert(r@ =~= v@) by {
                let a = match r@ { Json::Array(a) => a, _ => Seq::empty() };
                let b = match v@ { Json::Array(b) => b, _ => Seq::empty() };
                assert(a.len() == b.len());
                assert forall|j: int| 0 <= j < a.len() implies a[j] == b[j] by {
                    assert(json_view(out@[j]) == json_view(items@[j]));
                }
                assert(a =~= b);
            }
            r
        },
        JsonValue::Object(fields) => {
            let mut out: Vec<(String, JsonValue)> = Vec::new();
            let n = fields.len();
            let mut i: usize = 0;
            while i < n
                invariant
                    i <= n == fields.len(),
                    out.len() == i,
                    *v == JsonValue::Object(*fields),
                    forall|j: int| 0 <= j < i ==> #[trigger] out@[j].0@ == fields@[j].0@
                        && json_view(out@[j].1) == json_view(fields@[j].1),
                decreases n - i,
            {
                proof {
                    lemma_dec_object(*v, i as int);
                }
                let c = clone_json(&fields[i].1);
                out.push((fields[i].0.clone(), c));
                i = i + 1;
            }
            let r = JsonValue::Object(out);
            assert(r@ =~= v@) by {
                let a = match r@ { Json::Object(a) => a, _ => Seq::empty() };
                let b = match v@ { Json::Object(b) => b, _ => Seq::empty() };
                assert(a =~= b);
            }
            r
        },
    }
}

} // verus!
