//! The manifest tree as a mathematical forest: node ids, folder children,
//! and what the tree operations compute.

use vstd::prelude::*;
use crate::json::model::{Json, NumberView};
use crate::json::access::{first_key_at, get_array, get_str, has_key, json_get, key_index, obj_get};

verus! {

// ---- sizes (termination measure for walks through folders) --------------------

pub open spec fn jsize(j: Json) -> nat
    decreases j,
{
    match j {
        Json::Array(a) => 1 + seq_size(a),
        Json::Object(es) => 1 + members_size(es),
        _ => 1,
    }
}

pub open spec fn seq_size(s: Seq<Json>) -> nat
    decreases s,
{
    if s.len() == 0 {
        0
    } else {
        jsize(s[0]) + seq_size(s.drop_first())
    }
}

pub open spec fn members_size(es: Seq<(Seq<char>, Json)>) -> nat
    decreases es,
{
    if es.len() == 0 {
        0
    } else {
        jsize(es[0].1) + members_size(es.drop_first())
    }
}

pub proof fn lemma_seq_size_elem(s: Seq<Json>, i: int)
    requires
        0 <= i < s.len(),
    ensures
        jsize(s[i]) <= seq_size(s),
        jsize(s[i]) >= 1,
    decreases s.len(),
{
    if i > 0 {
        lemma_seq_size_elem(s.drop_first(), i - 1);
    }
}

pub proof fn lemma_members_size_elem(es: Seq<(Seq<char>, Json)>, i: int)
    requires
        0 <= i < es.len(),
    ensures
        jsize(es[i].1) <= members_size(es),
    decreases es.len(),
{
    if i > 0 {
        lemma_members_size_elem(es.drop_first(), i - 1);
    }
}

pub proof fn lemma_seq_size_skip(s: Seq<Json>, i: int)
    requires
        0 <= i < s.len(),
    ensures
        seq_size(s.skip(i)) == jsize(s[i]) + seq_size(s.skip(i + 1)),
{
    assert(s.skip(i).drop_first() =~= s.skip(i + 1));
}

pub proof fn lemma_seq_size_skip_le(s: Seq<Json>, i: int)
    requires
        0 <= i <= s.len(),
    ensures
        seq_size(s.skip(i)) <= seq_size(s),
    decreases i,
{
    if i > 0 {
        lemma_seq_size_skip_le(s, i - 1);
        lemma_seq_size_skip(s, i - 1);
    } else {
        assert(s.skip(0) =~= s);
    }
}

// ---- nodes ---------------------------------------------------------------------

/// The node's `id` member, where it is a string.
pub open spec fn id_of(n: Json) -> Option<Seq<char>> {
    get_str(n, "id"@)
}

/// The node's `children` member, where it is an array (a folder).
pub open spec fn children_of(n: Json) -> Option<Seq<Json>> {
    get_array(n, "children"@)
}

pub proof fn lemma_children_smaller(n: Json)
    requires
        children_of(n) is Some,
    ensures
        seq_size(children_of(n)->0) < jsize(n),
{
    let es = n->Object_0;
    let k = key_index(es, "children"@);
    lemma_members_size_elem(es, k);
}

pub proof fn lemma_children_of_elem_smaller(s: Seq<Json>, i: int)
    requires
        0 <= i < s.len(),
        children_of(s[i]) is Some,
    ensures
        seq_size(children_of(s[i])->0) < seq_size(s),
{
    lemma_children_smaller(s[i]);
    lemma_seq_size_elem(s, i);
}

/// The node with its folder children replaced by `c`.
pub open spec fn set_children(n: Json, c: Seq<Json>) -> Json {
    match n {
        Json::Object(es) => if has_key(es, "children"@) {
            Json::Object(es.update(key_index(es, "children"@), ("children"@, Json::Array(c))))
        } else {
            n
        },
        _ => n,
    }
}

// ---- find ----------------------------------------------------------------------

/// Depth-first, pre-order search for the first node with `id`.
pub open spec fn find_in(nodes: Seq<Json>, id: Seq<char>) -> Option<Json>
    decreases seq_size(nodes),
{
    if nodes.len() == 0 {
        None
    } else {
        let n = nodes[0];
        if id_of(n) == Some(id) {
            Some(n)
        } else {
            let sub = match children_of(n) {
                Some(c) => {
                    proof {
                        lemma_children_of_elem_smaller(nodes, 0);
                    }
                    find_in(c, id)
                },
                None => None,
            };
            match sub {
                Some(f) => Some(f),
                None => {
                    proof {
                        lemma_seq_size_elem(nodes, 0);
                    }
                    find_in(nodes.drop_first(), id)
                },
            }
        }
    }
}


// ---- remove --------------------------------------------------------------------

/// `i` is the first position at this level whose node has `id`.
pub open spec fn level_first(nodes: Seq<Json>, id: Seq<char>, i: int) -> bool {
    &&& 0 <= i < nodes.len()
    &&& id_of(nodes[i]) == Some(id)
    &&& forall|j: int| 0 <= j < i ==> id_of(nodes[j]) != Some(id)
}

pub open spec fn has_level(nodes: Seq<Json>, id: Seq<char>) -> bool {
    exists|i: int| level_first(nodes, id, i)
}

pub open spec fn level_index(nodes: Seq<Json>, id: Seq<char>) -> int {
    choose|i: int| level_first(nodes, id, i)
}

pub proof fn lemma_level_index(nodes: Seq<Json>, id: Seq<char>, i: int)
    requires
        level_first(nodes, id, i),
    ensures
        has_level(nodes, id),
        level_index(nodes, id) == i,
{
    let k = level_index(nodes, id);
    if i < k {
        assert(id_of(nodes[i]) != Some(id));
    }
    if k < i {
        assert(id_of(nodes[k]) != Some(id));
    }
}

/// What `remove_node` does at one level: the first node at this level
/// with `id` is taken out, with `parent` as the id of its folder; failing
/// that, each node's folder is searched in turn. The result is the new
/// level, the removed node and its parent's id.
pub open spec fn remove_in(nodes: Seq<Json>, id: Seq<char>, parent: Option<Seq<char>>) -> Option<
    (Seq<Json>, Json, Option<Seq<char>>),
>
    decreases seq_size(nodes), 1nat,
{
    if has_level(nodes, id) {
        let i = level_index(nodes, id);
        Some((nodes.remove(i), nodes[i], parent))
    } else {
        remove_deep(nodes, id)
    }
}

/// The search through the folders of `nodes`, in order.
pub open spec fn remove_deep(nodes: Seq<Json>, id: Seq<char>) -> Option<
    (Seq<Json>, Json, Option<Seq<char>>),
>
    decreases seq_size(nodes), 0nat,
{
    if nodes.len() == 0 {
        None
    } else {
        let n = nodes[0];
        let sub = match children_of(n) {
            Some(c) => {
                proof {
                    lemma_children_of_elem_smaller(nodes, 0);
                }
                remove_in(c, id, id_of(n))
            },
            None => None,
        };
        match sub {
            Some((c2, v, p)) => Some((seq![set_children(n, c2)] + nodes.drop_first(), v, p)),
            None => {
                proof {
                    lemma_seq_size_elem(nodes, 0);
                }
                match remove_deep(nodes.drop_first(), id) {
                    Some((r2, v, p)) => Some((seq![n] + r2, v, p)),
                    None => None,
                }
            },
        }
    }
}

/// `prefix` put in front of the level that a removal produced.
pub open spec fn lift(prefix: Seq<Json>, r: Option<(Seq<Json>, Json, Option<Seq<char>>)>) -> Option<
    (Seq<Json>, Json, Option<Seq<char>>),
> {
    match r {
        Some((rest, v, p)) => Some((prefix + rest, v, p)),
        None => None,
    }
}


// ---- insert --------------------------------------------------------------------

/// What appending `node` into the folder `pid` does to a level: the first
/// node met (parents before children) whose id is `pid` takes it at the
/// end of its children, if it is a folder. If that node is not a folder,
/// the search of its level ends there, and the levels above it go on.
/// `None` where nothing was appended.
pub open spec fn append_into(nodes: Seq<Json>, node: Json, pid: Seq<char>) -> Option<Seq<Json>>
    decreases seq_size(nodes),
{
    if nodes.len() == 0 {
        None
    } else {
        let n = nodes[0];
        if id_of(n) == Some(pid) {
            match children_of(n) {
                Some(c) => Some(seq![set_children(n, c.push(node))] + nodes.drop_first()),
                None => None,
            }
        } else {
            let sub = match children_of(n) {
                Some(c) => {
                    proof {
                        lemma_children_of_elem_smaller(nodes, 0);
                    }
                    append_into(c, node, pid)
                },
                None => None,
            };
            match sub {
                Some(c2) => Some(seq![set_children(n, c2)] + nodes.drop_first()),
                None => {
                    proof {
                        lemma_seq_size_elem(nodes, 0);
                    }
                    match append_into(nodes.drop_first(), node, pid) {
                        Some(r2) => Some(seq![n] + r2),
                        None => None,
                    }
                },
            }
        }
    }
}

/// `insert_node`: into the folder `parent` where `append_into` finds it,
/// else at the end of the top level.
pub open spec fn insert_into(nodes: Seq<Json>, node: Json, parent: Option<Seq<char>>) -> Seq<Json> {
    match parent {
        Some(p) => match append_into(nodes, node, p) {
            Some(r) => r,
            None => nodes.push(node),
        },
        None => nodes.push(node),
    }
}

pub open spec fn lift_level(prefix: Seq<Json>, r: Option<Seq<Json>>) -> Option<Seq<Json>> {
    match r {
        Some(rest) => Some(prefix + rest),
        None => None,
    }
}


// ---- content ids ---------------------------------------------------------------

/// A node that owns an `entries/<id>.hosts` file: type `local` or `remote`.
pub open spec fn has_content_type(n: Json) -> bool {
    get_str(n, "type"@) == Some("local"@) || get_str(n, "type"@) == Some("remote"@)
}

/// The id that `n` itself contributes to `content_ids`.
pub open spec fn own_content_id(n: Json) -> Seq<Seq<char>> {
    if has_content_type(n) && id_of(n) is Some {
        seq![id_of(n)->0]
    } else {
        Seq::empty()
    }
}

/// Ids of every `local` / `remote` node, parents before their children.
pub open spec fn content_ids(nodes: Seq<Json>) -> Seq<Seq<char>>
    decreases seq_size(nodes),
{
    if nodes.len() == 0 {
        Seq::empty()
    } else {
        let n = nodes[0];
        let below = match children_of(n) {
            Some(c) => {
                proof {
                    lemma_children_of_elem_smaller(nodes, 0);
                }
                content_ids(c)
            },
            None => Seq::empty(),
        };
        proof {
            lemma_seq_size_elem(nodes, 0);
        }
        own_content_id(n) + below + content_ids(nodes.drop_first())
    }
}

} // verus!
