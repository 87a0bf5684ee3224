//! A JSON value tree and the best-effort probe for the freshness counter that a
//! backend reports at `result.context.slot`.
use vstd::prelude::*;
use vstd::string::StringExecFns;

verus! {

/// Declares serde_json's value tree, which the parser hands back before it is
/// copied into `Json`.
#[verifier::external_type_specification]
#[verifier::external_body]
pub struct ExJsonValue(serde_json::Value);

/// A parsed JSON value, holding as plain values what the balancer reads.
pub enum Json {
    Null,
    Bool(bool),
    /// A number, with its value when it is an integer that fits in `u64`.
    Number(Option<u64>),
    Str(String),
    Array(Vec<Json>),
    /// The members of an object, one entry per key.
    Object(Vec<(String, Json)>),
}

/// The tree that serde_json parses from `text`, or `None` when `text` is not
/// one JSON value.
pub uninterp spec fn json_text_value(text: Seq<char>) -> Option<Json>;

/// The value of the first entry named `key`.
pub open spec fn member(entries: Seq<(String, Json)>, key: Seq<char>) -> Option<Json>
    decreases entries.len(),
{
    if entries.len() == 0 {
        None
    } else if entries[0].0@ == key {
        Some(entries[0].1)
    } else {
        member(entries.drop_first(), key)
    }
}

/// The member `key` of `j` when `j` is an object that has one.
pub open spec fn object_member(j: Json, key: Seq<char>) -> Option<Json> {
    match j {
        Json::Object(entries) => member(entries@, key),
        _ => None,
    }
}

/// The freshness counter at `result.context.slot`, when that path leads
/// through two objects to an integer that fits in `u64`.
pub open spec fn freshness_of(j: Json) -> Option<u64> {
    match object_member(j, "result"@) {
        Some(result) => match object_member(result, "context"@) {
            Some(context) => match object_member(context, "slot"@) {
                Some(Json::Number(n)) => n,
                _ => None,
            },
            None => None,
        },
        None => None,
    }
}

/// The freshness counter carried by a reply body, if any.
pub open spec fn body_freshness(body: Seq<char>) -> Option<u64> {
    match json_text_value(body) {
        Some(j) => freshness_of(j),
        None => None,
    }
}

/// Relies on serde_json::from_str::<serde_json::Value>: it parses `text` as one
/// JSON value and fails on anything else; the tree is copied into `Json`.
#[verifier::external_body]
fn parse_json(text: &str) -> (r: Option<Json>)
    ensures
        r == json_text_value(text@),
{
    serde_json::from_str::<serde_json::Value>(text).ok().map(copy_value)
}

/// Copies serde_json's tree into `Json`, variant for variant; a number keeps
/// what serde_json::Number::as_u64 gives of it. Called by `parse_json` alone.
#[verifier::external_body]
fn copy_value(v: serde_json::Value) -> Json {
    match v {
        serde_json::Value::Null => Json::Null,
        serde_json::Value::Bool(b) => Json::Bool(b),
        serde_json::Value::Number(n) => Json::Number(n.as_u64()),
        serde_json::Value::String(s) => Json::Str(s),
        serde_json::Value::Array(a) => Json::Array(a.into_iter().map(copy_value).collect()),
        serde_json::Value::Object(m) => Json::Object(m.into_iter().map(|(k, x)| (k, copy_value(x))).collect()),
    }
}

/// Looks up the member `key` of `j`.
pub fn get_member<'a>(j: &'a Json, key: &String) -> (r: Option<&'a Json>)
    ensures
        r.is_some() == object_member(*j, key@).is_some(),
        r.is_some() ==> *r.unwrap() == object_member(*j, key@).unwrap(),
{
    match j {
        Json::Object(entries) => {
            let mut i: usize = 0;
            assert(entries@.subrange(0, entries@.len() as int) =~= entries@);
            while i < entries.len()
                invariant
                    0 <= i <= entries@.len(),
                    *j == Json::Object(*entries),
                    member(entries@, key@) == member(entries@.subrange(i as int, entries@.len() as int), key@),
                decreases entries@.len() - i,
            {
                let ghost rest = entries@.subrange(i as int, entries@.len() as int);
                assert(rest.drop_first() =~= entries@.subrange(i + 1, entries@.len() as int));
                assert(rest[0] == entries@[i as int]);
                if entries[i].0 == *key {
                    return Some(&entries[i].1);
                }
                i = i + 1;
            }
            None
        },
        _ => None,
    }
}

/// The freshness counter at `result.context.slot` of `j`.
pub fn freshness(j: &Json) -> (r: Option<u64>)
    ensures
        r == freshness_of(*j),
{
    let result_key = String::from_str("result");
    let context_key = String::from_str("context");
    let slot_key = String::from_str("slot");
    match get_member(j, &result_key) {
        Some(result) => match get_member(result, &context_key) {
            Some(context) => match get_member(context, &slot_key) {
                Some(Json::Number(n)) => *n,
                _ => None,
            },
            None => None,
        },
        None => None,
    }
}

/// The freshness counter carried by a reply body: `None` when the body is not
/// JSON or has no unsigned integer at `result.context.slot`.
pub fn extract_freshness(body: &str) -> (r: Option<u64>)
    ensures
        r == body_freshness(body@),
{
    match parse_json(body) {
        Some(j) => freshness(&j),
        None => None,
    }
}

} // verus!
