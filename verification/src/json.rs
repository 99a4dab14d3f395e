//! JSON documents as the pipeline's logic sees them.
//!
//! Parsing is delegated to an outside parser; the tree it yields is
//! converted node for node into [`JsonValue`], over which the listing and
//! gallery extraction rules are defined and verified.  Numbers never feed
//! any rule of the pipeline, so they carry no payload.  Object entries are
//! listed in sorted key order, each key at most once, as the parser's map
//! hands them out.

use vstd::prelude::*;

verus! {

/// One node of a parsed JSON document.
pub enum JsonValue {
    Null,
    Bool(bool),
    Num,
    Str(String),
    Arr(Vec<JsonValue>),
    Obj(Vec<(String, JsonValue)>),
}

/// The outside parser's own tree type, opaque here: values of it only pass
/// from the parser to the converter below.
#[verifier::external_type_specification]
#[verifier::external_body]
pub struct ExJsonValue(serde_json::Value);

/// The tree that `text` parses to, if it is well-formed JSON: a function
/// of the bytes alone.
pub uninterp spec fn json_of(text: Seq<u8>) -> Option<JsonValue>;

/// Relies on `serde_json::from_slice::<serde_json::Value>`: parses the
/// bytes as one JSON document, returning `None` on any syntax error.  The
/// result is converted by `json_from_serde` below.
#[verifier::external_body]
pub fn parse_json(text: &[u8]) -> (r: Option<JsonValue>)
    ensures
        r == json_of(text@),
{
    serde_json::from_slice::<serde_json::Value>(text).ok().map(json_from_serde)
}

/// Companion of `parse_json`: converts the parser's tree one node to one
/// node, dropping only the numeric payloads.  Object entries keep the
/// parser's map order, which is sorted by key.
#[verifier::external_body]
fn json_from_serde(v: serde_json::Value) -> JsonValue {
    match v {
        serde_json::Value::Null => JsonValue::Null,
        serde_json::Value::Bool(b) => JsonValue::Bool(b),
        serde_json::Value::Number(_) => JsonValue::Num,
        serde_json::Value::String(s) => JsonValue::Str(s),
        serde_json::Value::Array(a) => JsonValue::Arr(
            a.into_iter().map(json_from_serde).collect(),
        ),
        serde_json::Value::Object(m) => JsonValue::Obj(
            m.into_iter().map(|(k, x)| (k, json_from_serde(x))).collect(),
        ),
    }
}

/// The string that `text` parses to, if it is one JSON string literal: a
/// function of the characters alone.
pub uninterp spec fn json_string_of(text: Seq<char>) -> Option<Seq<char>>;

/// Relies on `serde_json::from_str::<String>`: parses the text as a single
/// JSON string literal, returning `None` if it is anything else.
#[verifier::external_body]
pub fn parse_json_string(text: &str) -> (r: Option<String>)
    ensures
        match r {
            Some(s) => json_string_of(text@) == Some(s@),
            None => json_string_of(text@) is None,
        },
{
    serde_json::from_str::<String>(text).ok()
}

/// The value under `key` in an entry list, first match taken.
pub open spec fn spec_obj_lookup(fields: Seq<(String, JsonValue)>, key: Seq<char>) -> Option<
    JsonValue,
>
    decreases fields.len(),
{
    if fields.len() == 0 {
        None
    } else if fields[0].0@ == key {
        Some(fields[0].1)
    } else {
        spec_obj_lookup(fields.drop_first(), key)
    }
}

/// The value under `key`, if `v` is an object holding that key.
pub open spec fn spec_get(v: JsonValue, key: Seq<char>) -> Option<JsonValue> {
    match v {
        JsonValue::Obj(fields) => spec_obj_lookup(fields@, key),
        _ => None,
    }
}

/// Look `key` up in `v`, if `v` is an object.
pub fn json_get<'a>(v: &'a JsonValue, key: &String) -> (r: Option<&'a JsonValue>)
    ensures
        match r {
            Some(x) => spec_get(*v, key@) == Some(*x),
            None => spec_get(*v, key@) is None,
        },
{
    match v {
        JsonValue::Obj(fields) => {
            let n = fields.len();
            proof {
                assert(fields@.skip(0) =~= fields@);
            }
            let mut i: usize = 0;
            while i < n
                invariant
                    *v is Obj,
                    v->Obj_0 == *fields,
                    i <= n,
                    n == fields@.len(),
                    spec_obj_lookup(fields@, key@) == spec_obj_lookup(
                        fields@.skip(i as int),
                        key@,
                    ),
                decreases n - i,
            {
                let pair = &fields[i];
                if pair.0 == *key {
                    proof {
                        assert(fields@.skip(i as int)[0] == fields@[i as int]);
                        assert(spec_obj_lookup(fields@.skip(i as int), key@) == Some(
                            fields@[i as int].1,
                        ));
                    }
                    return Some(&pair.1);
                }
                proof {
                    assert(fields@.skip(i as int).drop_first() =~= fields@.skip(i + 1));
                    assert(fields@.skip(i as int)[0] == fields@[i as int]);
                }
                i = i + 1;
            }
            proof {
                assert(fields@.skip(n as int) =~= Seq::<(String, JsonValue)>::empty());
            }
            None
        },
        _ => None,
    }
}

} // verus!
