//! Parsing and printing JSON through `serde_json`.

use vstd::prelude::*;
use super::model::{Json, JsonNumber, JsonValue, NumberView};
use super::access::distinct_keys;
use crate::storage::tree_model::{jsize, lemma_members_size_elem, lemma_seq_size_elem, members_size, seq_size};

verus! {

#[verifier::external_type_specification]
#[verifier::external_body]
pub struct ExSerdeJsonValue(serde_json::Value);

#[verifier::external_type_specification]
#[verifier::external_body]
pub struct ExSerdeJsonError(serde_json::Error);

/// The document that `serde_json::from_slice::<serde_json::Value>` reads
/// from `bytes`, or `None` where it reports an error.
pub uninterp spec fn spec_parse_json(bytes: Seq<u8>) -> Option<Json>;

/// The bytes that `serde_json::to_vec_pretty` writes for a document.
pub uninterp spec fn spec_json_pretty(v: Json) -> Seq<u8>;

/// A document that `serde_json` reads back exactly as it printed it, when
/// its containers nest at most `room` deep: no floating-point numbers
/// (whose text need not read back the same), negative integers below zero,
/// no key twice in an object.
pub open spec fn reads_back(j: Json, room: int) -> bool
    decreases jsize(j), 0nat,
{
    match j {
        Json::Number(NumberView::Float(_)) => false,
        Json::Number(NumberView::NegInt(i)) => i < 0,
        Json::Array(a) => room > 0 && list_reads_back(a, room - 1),
        Json::Object(es) => room > 0 && distinct_keys(es) && members_read_back(es, room - 1),
        _ => true,
    }
}

pub open spec fn list_reads_back(s: Seq<Json>, room: int) -> bool
    decreases seq_size(s), 1nat,
{
    if s.len() == 0 {
        true
    } else {
        proof {
            lemma_seq_size_elem(s, 0);
        }
        reads_back(s[0], room) && list_reads_back(s.drop_first(), room)
    }
}

pub open spec fn members_read_back(es: Seq<(Seq<char>, Json)>, room: int) -> bool
    decreases members_size(es), 1nat,
{
    if es.len() == 0 {
        true
    } else {
        proof {
            lemma_members_size_elem(es, 0);
        }
        reads_back(es[0].1, room) && members_read_back(es.drop_first(), room)
    }
}

/// How deep `serde_json::from_slice` lets containers nest (its recursion
/// limit of 128 refuses the 128th level).
pub const PARSE_DEPTH: u64 = 127;

/// One-for-one conversion of a `serde_json::Value` into a `JsonValue`.
/// Nothing is claimed of it here; `parse_json` states what the pair of
/// them yields.
#[verifier::external_body]
fn from_serde(v: serde_json::Value) -> JsonValue {
    match v {
        serde_json::Value::Null => JsonValue::Null,
        serde_json::Value::Bool(b) => JsonValue::Bool(b),
        serde_json::Value::Number(n) => JsonValue::Number(JsonNumber::from_serde_number(&n)),
        serde_json::Value::String(s) => JsonValue::Str(s),
        serde_json::Value::Array(a) => JsonValue::Array(a.into_iter().map(from_serde).collect()),
        serde_json::Value::Object(m) => JsonValue::Object(
            m.into_iter().map(|(k, x)| (k, from_serde(x))).collect(),
        ),
    }
}

/// One-for-one conversion of a `JsonValue` into a `serde_json::Value`
/// (object members keep their order). Nothing is claimed of it here;
/// `to_vec_pretty` states what the pair of them yields.
#[verifier::external_body]
fn to_serde(v: &JsonValue) -> serde_json::Value {
    match v {
        JsonValue::Null => serde_json::Value::Null,
        JsonValue::Bool(b) => serde_json::Value::Bool(*b),
        JsonValue::Number(n) => serde_json::Value::Number(n.to_serde_number()),
        JsonValue::Str(s) => serde_json::Value::String(s.clone()),
        JsonValue::Array(a) => serde_json::Value::Array(a.iter().map(to_serde).collect()),
        JsonValue::Object(m) => serde_json::Value::Object(
            m.iter().map(|(k, x)| (k.clone(), to_serde(x))).collect(),
        ),
    }
}

/// Calls `serde_json::from_slice::<serde_json::Value>`. Trusted to give
/// the document named by `spec_parse_json`, which depends on the bytes
/// alone, and `None` exactly where that call fails.
#[verifier::external_body]
fn serde_from_slice(bytes: &[u8]) -> (r: Option<JsonValue>)
    ensures
        r matches Some(v) ==> spec_parse_json(bytes@) == Some(v@),
        r is None ==> spec_parse_json(bytes@) is None,
{
    serde_json::from_slice::<serde_json::Value>(bytes).ok().map(from_serde)
}

/// Calls `serde_json::to_vec_pretty` on the document. Trusted to succeed
/// (printing a `Value` into a `Vec` fails only on writer errors, which a
/// `Vec` never gives, and on non-string map keys, which a `Value` never
/// holds) and to give the bytes named by `spec_json_pretty`, which depend on
/// the document alone; and, for a document that `reads_back`, that
/// `serde_json::from_slice` reads those bytes back as the same document
/// (integers and strings print and parse exactly, objects keep their order
/// with `preserve_order`).
#[verifier::external_body]
fn serde_to_vec_pretty(v: &JsonValue) -> (r: Result<Vec<u8>, serde_json::Error>)
    ensures
        r is Ok,
        r matches Ok(b) ==> b@ == spec_json_pretty(v@),
        r matches Ok(b) ==> (reads_back(v@, PARSE_DEPTH as int) ==> spec_parse_json(b@) == Some(
            v@,
        )),
{
    serde_json::to_vec_pretty(&to_serde(v))
}

/// Read a JSON document from `bytes`; `None` where they are not JSON.
pub fn parse_json(bytes: &[u8]) -> (r: Option<JsonValue>)
    ensures
        r matches Some(v) ==> spec_parse_json(bytes@) == Some(v@),
        r is None ==> spec_parse_json(bytes@) is None,
{
    serde_from_slice(bytes)
}

/// Print a document as pretty JSON (two-space indents); this always
/// succeeds.
pub fn to_vec_pretty(v: &JsonValue) -> (r: Result<Vec<u8>, serde_json::Error>)
    ensures
        r is Ok,
        r matches Ok(b) ==> b@ == spec_json_pretty(v@),
        r matches Ok(b) ==> (reads_back(v@, PARSE_DEPTH as int) ==> spec_parse_json(b@) == Some(
            v@,
        )),
{
    serde_to_vec_pretty(v)
}

/// The text of a `serde_json::Error` (its `Display` impl). Nothing is
/// claimed of it.
#[verifier::external_body]
pub(crate) fn error_text(e: &serde_json::Error) -> String {
    e.to_string()
}

} // verus!
