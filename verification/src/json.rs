use vstd::prelude::*;
use vstd::string::StrSliceExecFns;
use crate::strutil::str_eq;

verus! {

#[verifier::external_type_specification]
#[verifier::external_body]
pub struct ExValue(serde_json::Value);

#[verifier::external_type_specification]
#[verifier::external_body]
pub struct ExJsonError(serde_json::Error);

/// A JSON document as plain values. A number is carried as its decimal text,
/// an object as its entries in document order.
pub enum JsonDoc {
    Null,
    Bool(bool),
    Num(String),
    Str(String),
    Arr(Vec<JsonDoc>),
    Obj(Vec<(String, JsonDoc)>),
}

/// The document a text parses as, if it parses: what serde_json::from_str
/// returns on it.
pub uninterp spec fn json_of(s: Seq<char>) -> Option<JsonDoc>;

/// Relies on serde_json::from_str: whether a text is well-formed JSON, and
/// which document it denotes, depend on the text alone.
#[verifier::external_body]
pub(crate) fn parse_json(body: &str) -> (r: Result<JsonDoc, serde_json::Error>)
    ensures
        match r {
            Ok(d) => json_of(body@) == Some(d),
            Err(_) => json_of(body@) is None,
        },
{
    match serde_json::from_str::<serde_json::Value>(body) {
        Ok(v) => Ok(doc_of_value(v)),
        Err(e) => Err(e),
    }
}

/// Relies on the shape of serde_json::Value: carries each variant over
/// unchanged, a number as its decimal text. Split from the parse only
/// because the conversion recurses.
#[verifier::external_body]
fn doc_of_value(v: serde_json::Value) -> JsonDoc {
    match v {
        serde_json::Value::Null => JsonDoc::Null,
        serde_json::Value::Bool(b) => JsonDoc::Bool(b),
        serde_json::Value::Number(n) => JsonDoc::Num(n.to_string()),
        serde_json::Value::String(s) => JsonDoc::Str(s),
        serde_json::Value::Array(a) => JsonDoc::Arr(a.into_iter().map(doc_of_value).collect()),
        serde_json::Value::Object(m) => JsonDoc::Obj(
            m.into_iter().map(|(k, w)| (k, doc_of_value(w))).collect(),
        ),
    }
}

/// The value under the first entry of `entries` with key `key`, if any.
pub open spec fn spec_obj_get(entries: Seq<(String, JsonDoc)>, key: Seq<char>) -> Option<JsonDoc>
    decreases entries.len(),
{
    if entries.len() == 0 {
        None
    } else if entries[0].0@ == key {
        Some(entries[0].1)
    } else {
        spec_obj_get(entries.skip(1), key)
    }
}

/// Looks a key up among an object's entries, first match wins.
pub fn obj_get<'a>(entries: &'a Vec<(String, JsonDoc)>, key: &str) -> (r: Option<&'a JsonDoc>)
    ensures
        match r {
            Some(d) => spec_obj_get(entries@, key@) == Some(*d),
            None => spec_obj_get(entries@, key@) is None,
        },
{
    let mut i: usize = 0;
    proof {
        assert(entries@.skip(0) =~= entries@);
    }
    while i < entries.len()
        invariant
            0 <= i <= entries@.len(),
            spec_obj_get(entries@, key@) == spec_obj_get(entries@.skip(i as int), key@),
        decreases entries@.len() - i,
    {
        proof {
            assert(entries@.skip(i as int)[0] == entries@[i as int]);
            assert(entries@.skip(i as int).skip(1) =~= entries@.skip(i + 1));
        }
        if str_eq(entries[i].0.as_str(), key) {
            return Some(&entries[i].1);
        }
        i = i + 1;
    }
    None
}

} // verus!
