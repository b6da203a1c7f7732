//! Reading and building JSON values: object members, typed accessors,
//! deep copies.

use vstd::prelude::*;
use crate::text::str_eq;
use super::model::{
    Json, JsonValue, NumberView, array_view, group_json_view, json_view,
    object_view,
};

verus! {

broadcast use group_json_view;

// ---- object members ------------------------------------------------------------

/// `i` is the position of the first member of `es` named `key`.
pub open spec fn first_key_at(es: Seq<(Seq<char>, Json)>, key: Seq<char>, i: int) -> bool {
    &&& 0 <= i < es.len()
    &&& es[i].0 == key
    &&& forall|j: int| 0 <= j < i ==> es[j].0 != key
}

/// No two members share a key.
pub open spec fn distinct_keys(es: Seq<(Seq<char>, Json)>) -> bool {
    forall|a: int, b: int| 0 <= a < b < es.len() ==> es[a].0 != es[b].0
}

pub open spec fn has_key(es: Seq<(Seq<char>, Json)>, key: Seq<char>) -> bool {
    exists|i: int| first_key_at(es, key, i)
}

pub open spec fn key_index(es: Seq<(Seq<char>, Json)>, key: Seq<char>) -> int {
    choose|i: int| first_key_at(es, key, i)
}

/// Map lookup by key.
pub open spec fn obj_get(es: Seq<(Seq<char>, Json)>, key: Seq<char>) -> Option<Json> {
    if has_key(es, key) {
        Some(es[key_index(es, key)].1)
    } else {
        None
    }
}

/// Map insertion: an existing member keeps its place and takes the new
/// value; a new key goes to the end.
pub open spec fn obj_insert(es: Seq<(Seq<char>, Json)>, key: Seq<char>, val: Json) -> Seq<
    (Seq<char>, Json),
> {
    if has_key(es, key) {
        es.update(key_index(es, key), (key, val))
    } else {
        es.push((key, val))
    }
}

pub proof fn lemma_first_key_unique(es: Seq<(Seq<char>, Json)>, key: Seq<char>, i: int, k: int)
    requires
        first_key_at(es, key, i),
        first_key_at(es, key, k),
    ensures
        i == k,
{
    if i < k {
        assert(es[i].0 != key);
    }
    if k < i {
        assert(es[k].0 != key);
    }
}

pub proof fn lemma_key_index(es: Seq<(Seq<char>, Json)>, key: Seq<char>, i: int)
    requires
        first_key_at(es, key, i),
    ensures
        has_key(es, key),
        key_index(es, key) == i,
{
    let k = key_index(es, key);
    lemma_first_key_unique(es, key, i, k);
}

/// `JsonValue::get` with a string index: the member of an object.
pub open spec fn json_get(j: Json, key: Seq<char>) -> Option<Json> {
    match j {
        Json::Object(es) => obj_get(es, key),
        _ => None,
    }
}

pub open spec fn json_as_str(j: Json) -> Option<Seq<char>> {
    match j {
        Json::Str(s) => Some(s),
        _ => None,
    }
}

pub open spec fn json_as_array(j: Json) -> Option<Seq<Json>> {
    match j {
        Json::Array(a) => Some(a),
        _ => None,
    }
}

pub open spec fn json_as_u64(j: Json) -> Option<u64> {
    match j {
        Json::Number(NumberView::PosInt(u)) => Some(u),
        _ => None,
    }
}

/// `get(key).and_then(as_str)`.
pub open spec fn get_str(j: Json, key: Seq<char>) -> Option<Seq<char>> {
    match json_get(j, key) {
        Some(v) => json_as_str(v),
        None => None,
    }
}

/// `get(key).and_then(as_array)`.
pub open spec fn get_array(j: Json, key: Seq<char>) -> Option<Seq<Json>> {
    match json_get(j, key) {
        Some(v) => json_as_array(v),
        None => None,
    }
}

/// Position of the first member named `key`.
pub fn member_position(es: &Vec<(String, JsonValue)>, key: &str) -> (r: Option<usize>)
    ensures
        r matches Some(i) ==> first_key_at(object_view(es@), key@, i as int),
        r is None ==> !has_key(object_view(es@), key@),
{
    let mut i: usize = 0;
    while i < es.len()
        invariant
            i <= es@.len(),
            forall|j: int| 0 <= j < i ==> object_view(es@)[j].0 != key@,
        decreases es@.len() - i,
    {
        if str_eq(es[i].0.as_str(), key) {
            return Some(i);
        }
        i = i + 1;
    }
    None
}

/// Insert `key: val` into the members `es`, as an object insert does.
pub fn members_insert(es: &mut Vec<(String, JsonValue)>, key: String, val: JsonValue)
    ensures
        object_view(final(es)@) == obj_insert(object_view(old(es)@), key@, val@),
{
    let ghost ov = object_view(old(es)@);
    match member_position(es, key.as_str()) {
        Some(i) => {
            proof {
                lemma_key_index(ov, key@, i as int);
            }
            es.set(i, (key, val));
            assert(object_view(es@) =~= ov.update(i as int, (key@, val@)));
        },
        None => {
            es.push((key, val));
            assert(object_view(es@) =~= ov.push((key@, val@)));
        },
    }
}

impl JsonValue {
    pub fn is_object(&self) -> (r: bool)
        ensures
            r == (self@ is Object),
    {
        match self {
            JsonValue::Object(_) => true,
            _ => false,
        }
    }

    pub fn as_str(&self) -> (r: Option<&str>)
        ensures
            r matches Some(s) ==> json_as_str(self@) == Some(s@),
            r is None ==> json_as_str(self@) is None,
    {
        match self {
            JsonValue::Str(s) => Some(s.as_str()),
            _ => None,
        }
    }

    pub fn as_array(&self) -> (r: Option<&Vec<JsonValue>>)
        ensures
            r matches Some(a) ==> self@ == Json::Array(array_view(a@)),
            r is None ==> json_as_array(self@) is None,
    {
        match self {
            JsonValue::Array(a) => Some(a),
            _ => None,
        }
    }

    pub fn as_object(&self) -> (r: Option<&Vec<(String, JsonValue)>>)
        ensures
            r matches Some(m) ==> self@ == Json::Object(object_view(m@)),
            r is None ==> !(self@ is Object),
    {
        match self {
            JsonValue::Object(m) => Some(m),
            _ => None,
        }
    }

    pub fn as_u64(&self) -> (r: Option<u64>)
        ensures
            r == json_as_u64(self@),
    {
        match self {
            JsonValue::Number(n) => n.as_u64(),
            _ => None,
        }
    }

    /// The member `key` of an object; `None` for a missing key or a
    /// value that is not an object.
    pub fn get(&self, key: &str) -> (r: Option<&JsonValue>)
        ensures
            r matches Some(v) ==> json_get(self@, key@) == Some(v@),
            r is None ==> json_get(self@, key@) is None,
    {
        match self {
            JsonValue::Object(m) => {
                match member_position(m, key) {
                    Some(i) => {
                        proof {
                            lemma_key_index(object_view(m@), key@, i as int);
                        }
                        Some(&m[i].1)
                    },
                    None => None,
                }
            },
            _ => None,
        }
    }

    /// `get(key).and_then(as_str)`.
    pub fn get_str(&self, key: &str) -> (r: Option<&str>)
        ensures
            r matches Some(s) ==> get_str(self@, key@) == Some(s@),
            r is None ==> get_str(self@, key@) is None,
    {
        match self.get(key) {
            Some(v) => v.as_str(),
            None => None,
        }
    }

    /// `get(key).and_then(as_array)`.
    pub fn get_array(&self, key: &str) -> (r: Option<&Vec<JsonValue>>)
        ensures
            r matches Some(a) ==> get_array(self@, key@) == Some(array_view(a@)),
            r is None ==> get_array(self@, key@) is None,
    {
        match self.get(key) {
            Some(v) => v.as_array(),
            None => None,
        }
    }

    /// A copy holding the same document.
    pub fn deep_clone(&self) -> (r: JsonValue)
        ensures
            r@ == self@,
        decreases self,
    {
        match self {
            JsonValue::Null => JsonValue::Null,
            JsonValue::Bool(b) => JsonValue::Bool(*b),
            JsonValue::Number(n) => JsonValue::Number(n.deep_clone()),
            JsonValue::Str(s) => JsonValue::Str(s.clone()),
            JsonValue::Array(a) => JsonValue::Array(clone_array(a)),
            JsonValue::Object(m) => JsonValue::Object(clone_members(m)),
        }
    }
}

/// Element-wise copy of an array.
pub fn clone_array(a: &Vec<JsonValue>) -> (r: Vec<JsonValue>)
    ensures
        array_view(r@) == array_view(a@),
    decreases a,
{
    let mut out: Vec<JsonValue> = Vec::new();
    let mut i: usize = 0;
    while i < a.len()
        invariant
            i <= a@.len(),
            out@.len() == i,
            forall|j: int| 0 <= j < i ==> json_view(#[trigger] out@[j]) == json_view(a@[j]),
        decreases a@.len() - i,
    {
        assert(decreases_to!(a => a@[i as int]));
        out.push(a[i].deep_clone());
        i = i + 1;
    }
    assert(array_view(out@) =~= array_view(a@));
    out
}

/// Member-wise copy of an object.
pub fn clone_members(m: &Vec<(String, JsonValue)>) -> (r: Vec<(String, JsonValue)>)
    ensures
        object_view(r@) == object_view(m@),
    decreases m,
{
    let mut out: Vec<(String, JsonValue)> = Vec::new();
    let mut i: usize = 0;
    while i < m.len()
        invariant
            i <= m@.len(),
            out@.len() == i,
            forall|j: int|
                0 <= j < i ==> (#[trigger] out@[j]).0@ == m@[j].0@ && json_view(out@[j].1)
                    == json_view(m@[j].1),
        decreases m@.len() - i,
    {
        assert(decreases_to!(m => m@[i as int].1));
        let v = m[i].1.deep_clone();
        out.push((m[i].0.clone(), v));
        i = i + 1;
    }
    assert(object_view(out@) =~= object_view(m@));
    out
}

} // verus!
