//! JSON documents: parsing text with `serde_json`, and the parsed value as
//! far as translation keys go.
use vstd::prelude::*;
use crate::locale::JsonValue;

verus! {

/// A JSON value as plain values, as far as translation keys go.
pub enum JsonView {
    /// An object, with its members in order.
    Object(Seq<(Seq<char>, JsonView)>),
    /// A string.
    String(Seq<char>),
    /// Anything else: a number, a boolean, null or an array.
    Other,
}

/// The plain values of a JSON value.
pub open spec fn json_view(v: JsonValue) -> JsonView
    decreases v,
{
    match v {
        JsonValue::Object(members) => JsonView::Object(members_view(members@)),
        JsonValue::String(s) => JsonView::String(s@),
        JsonValue::Other => JsonView::Other,
    }
}

/// The plain values of the members of an object, in order.
pub open spec fn members_view(members: Seq<(String, JsonValue)>) -> Seq<(Seq<char>, JsonView)>
    decreases members,
{
    if members.len() == 0 {
        Seq::empty()
    } else {
        let last = members[members.len() - 1];
        members_view(members.subrange(0, members.len() - 1)).push((last.0@, json_view(last.1)))
    }
}

impl View for JsonValue {
    type V = JsonView;

    open spec fn view(&self) -> JsonView {
        json_view(*self)
    }
}

/// A value `serde_json` parsed.
#[verifier::external_type_specification]
#[verifier::external_body]
pub struct ExJsonDocumentValue(serde_json::Value);

/// What a parsed `serde_json::Value` holds: an object with its members in
/// the order its map yields them, a string, or anything else.
pub uninterp spec fn json_contents(v: serde_json::Value) -> JsonView;

/// What `serde_json::from_str` gives for a text, parsed as a
/// `serde_json::Value`: its contents, or none when the text is not JSON.
pub uninterp spec fn spec_json_document(text: Seq<char>) -> Option<JsonView>;

/// Parses a JSON text.
///
/// Trusted: calls `serde_json::from_str` for a `serde_json::Value`. Whether
/// it succeeds, and the contents of the value, are named by
/// `spec_json_document`.
#[verifier::external_body]
fn parse_json(text: &str) -> (r: Result<serde_json::Value, serde_json::Error>)
    ensures
        (r is Ok) == (spec_json_document(text@) is Some),
        r matches Ok(v) ==> spec_json_document(text@) == Some(json_contents(v)),
{
    serde_json::from_str(text)
}

/// The members of an object value, in the order its map yields them.
///
/// Trusted: calls `serde_json::Value::as_object`, which its documentation
/// says gives the object's map for an object and `None` otherwise; each
/// member is copied out with its key.
#[verifier::external_body]
fn json_object_members(v: &serde_json::Value) -> (r: Option<Vec<(String, serde_json::Value)>>)
    ensures
        match json_contents(*v) {
            JsonView::Object(ms) => r matches Some(rs) && rs@.len() == ms.len() && forall|i: int|
                0 <= i < ms.len() ==> (#[trigger] rs@[i]).0@ == ms[i].0 && json_contents(rs@[i].1) == ms[i].1,
            _ => r is None,
        },
{
    v.as_object().map(|m| m.iter().map(|(k, x)| (k.clone(), x.clone())).collect())
}

/// The text of a string value.
///
/// Trusted: calls `serde_json::Value::as_str`, which its documentation says
/// gives the string of a string value and `None` otherwise.
#[verifier::external_body]
fn json_string(v: &serde_json::Value) -> (r: Option<String>)
    ensures
        match json_contents(*v) {
            JsonView::String(s) => r matches Some(t) && t@ == s,
            _ => r is None,
        },
{
    v.as_str().map(|s| s.to_string())
}

/// The library's value holding the contents of a parsed value.
pub fn json_value_of(v: &serde_json::Value) -> (r: JsonValue)
    ensures
        r@ == json_contents(*v),
    decreases json_contents(*v),
{
    match json_object_members(v) {
        Some(members) => {
            let ghost jv = json_contents(*v);
            let ghost ms = jv->Object_0;
            let mut out: Vec<(String, JsonValue)> = Vec::new();
            let mut i: usize = 0;
            assert(ms.take(0) =~= Seq::<(Seq<char>, JsonView)>::empty());
            while i < members.len()
                invariant
                    i <= members@.len(),
                    jv == json_contents(*v),
                    jv == JsonView::Object(ms),
                    members@.len() == ms.len(),
                    forall|j: int|
                        0 <= j < ms.len() ==> (#[trigger] members@[j]).0@ == ms[j].0 && json_contents(members@[j].1)
                            == ms[j].1,
                    members_view(out@) == ms.take(i as int),
                decreases members@.len() - i,
            {
                let (k, x) = &members[i];
                assert(members@[i as int].0@ == ms[i as int].0);
                proof {
                    assert(decreases_to!(jv => jv->Object_0));
                    assert(decreases_to!(ms => ms[i as int]));
                    assert(decreases_to!(ms[i as int] => ms[i as int].1));
                }
                let child = json_value_of(x);
                let ghost before = out@;
                out.push((k.clone(), child));
                proof {
                    assert(out@.subrange(0, out@.len() - 1) =~= before);
                    assert(ms.take(i + 1) =~= ms.take(i as int).push(ms[i as int]));
                }
                i += 1;
            }
            assert(ms.take(i as int) =~= ms);
            JsonValue::Object(out)
        },
        None => match json_string(v) {
            Some(s) => JsonValue::String(s),
            None => JsonValue::Other,
        },
    }
}

/// Parses a JSON text into the library's value.
pub fn json_document(text: &str) -> (r: Result<JsonValue, serde_json::Error>)
    ensures
        (r is Ok) == (spec_json_document(text@) is Some),
        r matches Ok(v) ==> spec_json_document(text@) == Some(v@),
{
    match parse_json(text) {
        Ok(v) => Ok(json_value_of(&v)),
        Err(e) => Err(e),
    }
}

} // verus!
