//! The JSON value type and its mathematical view.

use vstd::prelude::*;

verus! {

// ---- model -------------------------------------------------------------------

/// What a JSON number holds.
pub enum NumberView {
    PosInt(u64),
    /// Always below zero.
    NegInt(i64),
    /// A finite floating-point number, by the text `serde_json` prints for it.
    Float(Seq<char>),
}

/// A JSON document. Object members keep their order.
pub enum Json {
    Null,
    Bool(bool),
    Number(NumberView),
    Str(Seq<char>),
    Array(Seq<Json>),
    Object(Seq<(Seq<char>, Json)>),
}

#[derive(Debug, PartialEq)]
enum NumberRepr {
    PosInt(u64),
    NegInt(i64),
    Float(String),
}

/// A JSON number. Floating-point values only come out of parsing.
#[derive(Debug, PartialEq)]
pub struct JsonNumber {
    repr: NumberRepr,
}

impl View for JsonNumber {
    type V = NumberView;

    closed spec fn view(&self) -> NumberView {
        match self.repr {
            NumberRepr::PosInt(u) => NumberView::PosInt(u),
            NumberRepr::NegInt(i) => NumberView::NegInt(i),
            NumberRepr::Float(s) => NumberView::Float(s@),
        }
    }
}

/// A JSON document held as plain values.
#[derive(Debug, PartialEq)]
pub enum JsonValue {
    Null,
    Bool(bool),
    Number(JsonNumber),
    Str(String),
    Array(Vec<JsonValue>),
    Object(Vec<(String, JsonValue)>),
}

pub open spec fn json_view(v: JsonValue) -> Json
    decreases v,
{
    match v {
        JsonValue::Null => Json::Null,
        JsonValue::Bool(b) => Json::Bool(b),
        JsonValue::Number(n) => Json::Number(n@),
        JsonValue::Str(s) => Json::Str(s@),
        JsonValue::Array(a) => Json::Array(array_view(a@)),
        JsonValue::Object(m) => Json::Object(object_view(m@)),
    }
}

pub open spec fn array_view(s: Seq<JsonValue>) -> Seq<Json>
    decreases s,
{
    if s.len() == 0 {
        Seq::empty()
    } else {
        seq![json_view(s[0])] + array_view(s.drop_first())
    }
}

pub open spec fn object_view(s: Seq<(String, JsonValue)>) -> Seq<(Seq<char>, Json)>
    decreases s,
{
    if s.len() == 0 {
        Seq::empty()
    } else {
        seq![(s[0].0@, json_view(s[0].1))] + object_view(s.drop_first())
    }
}

impl View for JsonValue {
    type V = Json;

    open spec fn view(&self) -> Json {
        json_view(*self)
    }
}


proof fn lemma_array_view_rec(s: Seq<JsonValue>)
    ensures
        array_view(s).len() == s.len(),
        forall|i: int| 0 <= i < s.len() ==> array_view(s)[i] == json_view(#[trigger] s[i]),
    decreases s.len(),
{
    if s.len() > 0 {
        lemma_array_view_rec(s.drop_first());
        assert forall|i: int| 0 <= i < s.len() implies array_view(s)[i] == json_view(
            #[trigger] s[i],
        ) by {
            if i > 0 {
                assert(s.drop_first()[i - 1] == s[i]);
            }
        }
    }
}

proof fn lemma_object_view_rec(s: Seq<(String, JsonValue)>)
    ensures
        object_view(s).len() == s.len(),
        forall|i: int|
            0 <= i < s.len() ==> object_view(s)[i] == (#[trigger] s[i].0@, json_view(s[i].1)),
    decreases s.len(),
{
    if s.len() > 0 {
        lemma_object_view_rec(s.drop_first());
        assert forall|i: int| 0 <= i < s.len() implies object_view(s)[i] == (
            #[trigger] s[i].0@,
            json_view(s[i].1),
        ) by {
            if i > 0 {
                assert(s.drop_first()[i - 1] == s[i]);
            }
        }
    }
}

pub broadcast proof fn lemma_array_view_len(s: Seq<JsonValue>)
    ensures
        #[trigger] array_view(s).len() == s.len(),
{
    lemma_array_view_rec(s);
}

pub broadcast proof fn lemma_array_view_index(s: Seq<JsonValue>, i: int)
    requires
        0 <= i < s.len(),
    ensures
        #[trigger] array_view(s)[i] == json_view(s[i]),
{
    lemma_array_view_rec(s);
}

pub broadcast proof fn lemma_object_view_len(s: Seq<(String, JsonValue)>)
    ensures
        #[trigger] object_view(s).len() == s.len(),
{
    lemma_object_view_rec(s);
}

pub broadcast proof fn lemma_object_view_index(s: Seq<(String, JsonValue)>, i: int)
    requires
        0 <= i < s.len(),
    ensures
        #[trigger] object_view(s)[i] == (s[i].0@, json_view(s[i].1)),
{
    lemma_object_view_rec(s);
}

pub broadcast group group_json_view {
    lemma_array_view_len,
    lemma_array_view_index,
    lemma_object_view_len,
    lemma_object_view_index,
}

#[verifier::external_type_specification]
#[verifier::external_body]
pub struct ExSerdeJsonNumber(serde_json::Number);

/// Calls `serde_json::Number::as_u64`. Nothing is claimed of the result.
#[verifier::external_body]
fn serde_number_as_u64(n: &serde_json::Number) -> Option<u64> {
    n.as_u64()
}

/// Calls `serde_json::Number::as_i64`. Nothing is claimed of the result.
#[verifier::external_body]
fn serde_number_as_i64(n: &serde_json::Number) -> Option<i64> {
    n.as_i64()
}

/// The text of a `serde_json::Number` (its `Display` impl). Nothing is
/// claimed of it.
#[verifier::external_body]
fn serde_number_text(n: &serde_json::Number) -> String {
    n.to_string()
}

/// Calls `From<u64>` for `serde_json::Number`. Nothing is claimed.
#[verifier::external_body]
fn serde_number_from_u64(u: u64) -> serde_json::Number {
    serde_json::Number::from(u)
}

/// Calls `From<i64>` for `serde_json::Number`. Nothing is claimed.
#[verifier::external_body]
fn serde_number_from_i64(i: i64) -> serde_json::Number {
    serde_json::Number::from(i)
}

/// Calls `FromStr` for `serde_json::Number`. Nothing is claimed.
#[verifier::external_body]
fn serde_number_parse(text: &str) -> Result<serde_json::Number, serde_json::Error> {
    text.parse()
}

impl JsonNumber {
    /// Takes a `serde_json::Number` apart: an unsigned integer, else a signed
    /// one, else a floating-point number kept by its text. A signed integer
    /// that is not below zero is kept as unsigned, so a negative-integer
    /// result is always below zero.
    pub(crate) fn from_serde_number(n: &serde_json::Number) -> (r: JsonNumber)
        ensures
            r@ matches NumberView::NegInt(i) ==> i < 0,
    {
        match serde_number_as_u64(n) {
            Some(u) => JsonNumber::from_u64(u),
            None => match serde_number_as_i64(n) {
                Some(i) => JsonNumber::from_i64(i),
                None => JsonNumber { repr: NumberRepr::Float(serde_number_text(n)) },
            },
        }
    }

    /// Builds the `serde_json::Number`; a floating-point number is read back
    /// from its text (zero if that text did not read, which text kept from a
    /// parsed number always does).
    pub(crate) fn to_serde_number(&self) -> serde_json::Number {
        match &self.repr {
            NumberRepr::PosInt(u) => serde_number_from_u64(*u),
            NumberRepr::NegInt(i) => serde_number_from_i64(*i),
            NumberRepr::Float(s) => match serde_number_parse(s.as_str()) {
                Ok(n) => n,
                Err(_) => serde_number_from_u64(0),
            },
        }
    }

    pub fn from_u64(n: u64) -> (r: JsonNumber)
        ensures
            r@ == NumberView::PosInt(n),
    {
        JsonNumber { repr: NumberRepr::PosInt(n) }
    }

    /// Negative values are kept as such; others as non-negative integers.
    pub fn from_i64(n: i64) -> (r: JsonNumber)
        ensures
            n < 0 ==> r@ == NumberView::NegInt(n),
            n >= 0 ==> r@ == NumberView::PosInt(n as u64),
    {
        if n < 0 {
            JsonNumber { repr: NumberRepr::NegInt(n) }
        } else {
            JsonNumber { repr: NumberRepr::PosInt(n as u64) }
        }
    }

    pub fn as_u64(&self) -> (r: Option<u64>)
        ensures
            r == (match self@ {
                NumberView::PosInt(u) => Some(u),
                _ => None::<u64>,
            }),
    {
        match &self.repr {
            NumberRepr::PosInt(u) => Some(*u),
            _ => None,
        }
    }

    pub fn deep_clone(&self) -> (r: JsonNumber)
        ensures
            r@ == self@,
    {
        match &self.repr {
            NumberRepr::PosInt(u) => JsonNumber { repr: NumberRepr::PosInt(*u) },
            NumberRepr::NegInt(i) => JsonNumber { repr: NumberRepr::NegInt(*i) },
            NumberRepr::Float(s) => JsonNumber { repr: NumberRepr::Float(s.clone()) },
        }
    }
}

} // verus!
