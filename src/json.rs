//! A JSON document tree owned by the library, built from the value that
//! `serde_json` parses, and the lookups the telemetry normalizer needs.
use vstd::prelude::*;

verus! {

#[verifier::external_type_specification]
#[verifier::external_body]
pub struct ExValue(serde_json::Value);

/// Whether `serde_json` accepts the text as one JSON document.
pub uninterp spec fn json_text_ok(s: Seq<char>) -> bool;

/// The tree of the JSON document that `serde_json` reads from the text.
pub uninterp spec fn json_tree_of(s: Seq<char>) -> Json;

/// Relies on `serde_json::from_str::<Value>`: reads one whole JSON document,
/// failing exactly on text that is not one; its value is moved into `Json`.
#[verifier::external_body]
fn parse_tree(s: &str) -> (r: Option<Json>)
    ensures
        r is Some <==> json_text_ok(s@),
        r matches Some(t) ==> t == json_tree_of(s@),
{
    serde_json::from_str::<serde_json::Value>(s).ok().map(json_of_value)
}

/// Relies on the variants of `serde_json::Value`: moves each into the
/// matching `Json` variant, a number as its `Display` text.
#[verifier::external_body]
fn json_of_value(v: serde_json::Value) -> Json {
    match v {
        serde_json::Value::Null => Json::Null,
        serde_json::Value::Bool(b) => Json::Bool(b),
        serde_json::Value::Number(n) => Json::Number(n.to_string()),
        serde_json::Value::String(t) => Json::Str(t),
        serde_json::Value::Array(a) => Json::Array(a.into_iter().map(json_of_value).collect()),
        serde_json::Value::Object(m) => Json::Object(m.into_iter().map(|(k, x)| (k, json_of_value(x))).collect()),
    }
}

/// A JSON value. Numbers keep the decimal text that the parser printed for them.
#[derive(Debug)]
pub enum Json {
    Null,
    Bool(bool),
    Number(String),
    Str(String),
    Array(Vec<Json>),
    Object(Vec<(String, Json)>),
}

/// Parses JSON text into its tree; `None` when the text is not JSON.
pub fn parse_json(s: &str) -> (r: Option<Json>)
    ensures
        r is Some <==> json_text_ok(s@),
        r matches Some(t) ==> t == json_tree_of(s@),
{
    parse_tree(s)
}

/// The value under `key` in an object's entry list (the first such entry).
pub open spec fn lookup(es: Seq<(String, Json)>, key: Seq<char>) -> Option<Json>
    decreases es.len(),
{
    if es.len() == 0 {
        None
    } else if es[0].0@ == key {
        Some(es[0].1)
    } else {
        lookup(es.drop_first(), key)
    }
}

/// The member `key` of an object; `None` for a missing key or a non-object.
pub open spec fn spec_field(j: Json, key: Seq<char>) -> Option<Json> {
    match j {
        Json::Object(es) => lookup(es@, key),
        _ => None,
    }
}

/// Element `i` of an array; `None` out of range or for a non-array.
pub open spec fn spec_item(j: Json, i: int) -> Option<Json> {
    match j {
        Json::Array(v) => if 0 <= i < v@.len() {
            Some(v@[i])
        } else {
            None
        },
        _ => None,
    }
}

/// The value of the first entry of an object: the accessor for grouping
/// objects whose single key is data rather than schema.
pub open spec fn spec_first_value(j: Json) -> Option<Json> {
    match j {
        Json::Object(es) => if es@.len() > 0 {
            Some(es@[0].1)
        } else {
            None
        },
        _ => None,
    }
}

/// `field` applied along a path of keys.
pub open spec fn opt_field(j: Option<Json>, key: Seq<char>) -> Option<Json> {
    match j {
        Some(x) => spec_field(x, key),
        None => None,
    }
}

/// `item` applied to an optional value.
pub open spec fn opt_item(j: Option<Json>, i: int) -> Option<Json> {
    match j {
        Some(x) => spec_item(x, i),
        None => None,
    }
}

/// `first_value` applied to an optional value.
pub open spec fn opt_first_value(j: Option<Json>) -> Option<Json> {
    match j {
        Some(x) => spec_first_value(x),
        None => None,
    }
}

/// The characters of a string value.
pub open spec fn spec_text(j: Option<Json>) -> Option<Seq<char>> {
    match j {
        Some(Json::Str(s)) => Some(s@),
        _ => None,
    }
}

/// The elements of an array value.
pub open spec fn spec_elements(j: Option<Json>) -> Option<Seq<Json>> {
    match j {
        Some(Json::Array(v)) => Some(v@),
        _ => None,
    }
}

/// The value an optional reference points to.
pub open spec fn deref_opt(r: Option<&Json>) -> Option<Json> {
    match r {
        Some(x) => Some(*x),
        None => None,
    }
}

/// The member `key` of an optional object.
pub fn opt_get<'a>(j: Option<&'a Json>, key: &str) -> (r: Option<&'a Json>)
    ensures
        deref_opt(r) == opt_field(deref_opt(j), key@),
{
    match j {
        Some(x) => x.field(key),
        None => None,
    }
}

/// Element `i` of an optional array.
pub fn opt_at<'a>(j: Option<&'a Json>, i: usize) -> (r: Option<&'a Json>)
    ensures
        deref_opt(r) == opt_item(deref_opt(j), i as int),
{
    match j {
        Some(x) => x.item(i),
        None => None,
    }
}

/// The value of the first entry of an optional object.
pub fn opt_first<'a>(j: Option<&'a Json>) -> (r: Option<&'a Json>)
    ensures
        deref_opt(r) == opt_first_value(deref_opt(j)),
{
    match j {
        Some(x) => x.first_value(),
        None => None,
    }
}

impl Json {
    /// The member `key` of an object.
    pub fn field<'a>(&'a self, key: &str) -> (r: Option<&'a Json>)
        ensures
            deref_opt(r) == spec_field(*self, key@),
    {
        match self {
            Json::Object(es) => {
                assert(es@.subrange(0, es@.len() as int) =~= es@);
                let mut i: usize = 0;
                while i < es.len()
                    invariant
                        i <= es@.len(),
                        spec_field(*self, key@) == lookup(es@, key@),
                        lookup(es@, key@) == lookup(es@.subrange(i as int, es@.len() as int), key@),
                    decreases es@.len() - i,
                {
                    let ghost rest = es@.subrange(i as int, es@.len() as int);
                    assert(rest.drop_first() =~= es@.subrange(i + 1, es@.len() as int));
                    assert(rest[0] == es@[i as int]);
                    let entry = &es[i];
                    if crate::text::text_eq(entry.0.as_str(), key) {
                        assert(rest[0].0@ == key@);
                        assert(lookup(rest, key@) == Some(entry.1));
                        return Some(&entry.1);
                    }
                    i = i + 1;
                }
                None
            },
            _ => None,
        }
    }

    /// Element `i` of an array.
    pub fn item<'a>(&'a self, i: usize) -> (r: Option<&'a Json>)
        ensures
            deref_opt(r) == spec_item(*self, i as int),
    {
        match self {
            Json::Array(v) => if i < v.len() {
                Some(&v[i])
            } else {
                None
            },
            _ => None,
        }
    }

    /// The value of the first entry of an object.
    pub fn first_value<'a>(&'a self) -> (r: Option<&'a Json>)
        ensures
            deref_opt(r) == spec_first_value(*self),
    {
        match self {
            Json::Object(es) => if es.len() > 0 {
                Some(&es[0].1)
            } else {
                None
            },
            _ => None,
        }
    }
}

} // verus!
