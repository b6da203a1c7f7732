//! Laws of the manifest tree operations: what `find_node` finds, that
//! `remove_node` removes exactly what `find_node` can find, that a node
//! inserted with `insert_node` can be found afterwards, that moving a node
//! keeps every id reachable, and that the ids
//! `collect_content_ids` reports belong to nodes of the tree.

use vstd::prelude::*;
use crate::json::model::Json;
use crate::json::access::{first_key_at, get_str, has_key, key_index, lemma_key_index};
use super::tree_model::{
    append_into, children_of, content_ids, find_in, has_level, id_of, insert_into,
    lemma_children_of_elem_smaller, lemma_level_index, lemma_seq_size_elem, level_first,
    level_index, own_content_id,
    remove_deep, remove_in, seq_size, set_children,
};

verus! {

/// Some node with `id` can be reached from `nodes` (through folders).
pub open spec fn reaches(nodes: Seq<Json>, id: Seq<char>) -> bool {
    find_in(nodes, id) is Some
}

/// One step of the search: a single node is reached when it has the id
/// or its folder reaches it.
proof fn lemma_reaches_single(n: Json, x: Seq<char>)
    ensures
        reaches(seq![n], x) == (id_of(n) == Some(x) || (children_of(n) matches Some(c) && reaches(
            c,
            x,
        ))),
{
    let s = seq![n];
    assert(s[0] == n);
    assert(s.drop_first() =~= Seq::<Json>::empty());
    assert(find_in(Seq::<Json>::empty(), x) is None);
}

/// The search over two levels put one after the other.
proof fn lemma_reaches_concat(a: Seq<Json>, b: Seq<Json>, x: Seq<char>)
    ensures
        reaches(a + b, x) == (reaches(a, x) || reaches(b, x)),
    decreases a.len(),
{
    if a.len() == 0 {
        assert(a + b =~= b);
    } else {
        let n = a[0];
        assert((a + b)[0] == n);
        assert((a + b).drop_first() =~= a.drop_first() + b);
        lemma_reaches_concat(a.drop_first(), b, x);
    }
}

/// A level reaches `x` when its first node or the rest does.
proof fn lemma_reaches_split(nodes: Seq<Json>, x: Seq<char>)
    requires
        nodes.len() > 0,
    ensures
        reaches(nodes, x) == (reaches(seq![nodes[0]], x) || reaches(nodes.drop_first(), x)),
{
    assert(seq![nodes[0]] + nodes.drop_first() =~= nodes);
    lemma_reaches_concat(seq![nodes[0]], nodes.drop_first(), x);
}

/// A node at any position of a level is reached.
proof fn lemma_reaches_member(nodes: Seq<Json>, i: int, x: Seq<char>)
    requires
        0 <= i < nodes.len(),
        reaches(seq![nodes[i]], x),
    ensures
        reaches(nodes, x),
    decreases i,
{
    lemma_reaches_split(nodes, x);
    if i > 0 {
        assert(nodes.drop_first()[i - 1] == nodes[i]);
        lemma_reaches_member(nodes.drop_first(), i - 1, x);
    }
}

/// What `find_node` returns has the id that was asked for.
pub proof fn law_find_has_id(nodes: Seq<Json>, id: Seq<char>)
    ensures
        find_in(nodes, id) matches Some(n) ==> id_of(n) == Some(id),
    decreases seq_size(nodes),
{
    if nodes.len() > 0 {
        let n = nodes[0];
        if id_of(n) != Some(id) {
            if let Some(c) = children_of(n) {
                lemma_children_of_elem_smaller(nodes, 0);
                law_find_has_id(c, id);
            }
            lemma_seq_size_elem(nodes, 0);
            law_find_has_id(nodes.drop_first(), id);
        }
    }
}

/// Replacing a folder's children keeps its id and gives the new children.
pub proof fn lemma_set_children(n: Json, c: Seq<Json>)
    requires
        children_of(n) is Some,
    ensures
        id_of(set_children(n, c)) == id_of(n),
        children_of(set_children(n, c)) == Some(c),
{
    reveal_strlit("id");
    reveal_strlit("children");
    let es = n->Object_0;
    let j = key_index(es, "children"@);
    let es2 = es.update(j, ("children"@, Json::Array(c)));
    assert(first_key_at(es, "children"@, j));
    assert forall|i: int| 0 <= i < es.len() implies #[trigger] es2[i].0 == es[i].0 by {}
    assert(first_key_at(es2, "children"@, j));
    lemma_key_index(es2, "children"@, j);
    assert("id"@.len() != "children"@.len());
    assert("id"@ != "children"@);
    if has_key(es, "id"@) {
        let i = key_index(es, "id"@);
        assert(first_key_at(es2, "id"@, i));
        lemma_key_index(es2, "id"@, i);
    } else {
        assert forall|i: int| !first_key_at(es2, "id"@, i) by {
            if first_key_at(es2, "id"@, i) {
                assert(es2[i].0 == es[i].0);
                assert forall|k: int| 0 <= k < i implies es[k].0 != "id"@ by {
                    assert(es2[k].0 == es[k].0);
                }
                assert(first_key_at(es, "id"@, i));
            }
        }
    }
}

/// `remove_node` removes something exactly where `find_node` finds
/// something, and what it removes has the id.
pub proof fn law_remove_iff_found(nodes: Seq<Json>, id: Seq<char>, parent: Option<Seq<char>>)
    ensures
        (remove_in(nodes, id, parent) is Some) == reaches(nodes, id),
        remove_in(nodes, id, parent) matches Some((_, v, _)) ==> id_of(v) == Some(id),
    decreases seq_size(nodes), 1nat,
{
    if has_level(nodes, id) {
        let i = level_index(nodes, id);
        assert(level_first(nodes, id, i));
        lemma_reaches_single(nodes[i], id);
        lemma_reaches_member(nodes, i, id);
    } else {
        assert forall|i: int| 0 <= i < nodes.len() implies id_of(nodes[i]) != Some(id) by {
            if id_of(nodes[i]) == Some(id) {
                lemma_level_exists(nodes, id, i);
            }
        }
        lemma_remove_deep_iff_found(nodes, id);
    }
}

proof fn lemma_level_exists(nodes: Seq<Json>, id: Seq<char>, i: int)
    requires
        0 <= i < nodes.len(),
        id_of(nodes[i]) == Some(id),
    ensures
        has_level(nodes, id),
    decreases i,
{
    if exists|j: int| 0 <= j < i && id_of(nodes[j]) == Some(id) {
        let j = choose|j: int| 0 <= j < i && id_of(nodes[j]) == Some(id);
        lemma_level_exists(nodes, id, j);
    } else {
        assert(level_first(nodes, id, i));
    }
}

proof fn lemma_remove_deep_iff_found(nodes: Seq<Json>, id: Seq<char>)
    requires
        forall|i: int| 0 <= i < nodes.len() ==> id_of(nodes[i]) != Some(id),
    ensures
        (remove_deep(nodes, id) is Some) == reaches(nodes, id),
        remove_deep(nodes, id) matches Some((_, v, _)) ==> id_of(v) == Some(id),
    decreases seq_size(nodes), 0nat,
{
    if nodes.len() > 0 {
        let n = nodes[0];
        if let Some(c) = children_of(n) {
            lemma_children_of_elem_smaller(nodes, 0);
            law_remove_iff_found(c, id, id_of(n));
        }
        lemma_seq_size_elem(nodes, 0);
        let rest = nodes.drop_first();
        assert forall|i: int| 0 <= i < rest.len() implies id_of(rest[i]) != Some(id) by {
            assert(rest[i] == nodes[i + 1]);
        }
        lemma_remove_deep_iff_found(rest, id);
    }
}

/// `remove_node` splits the tree in two: the ids reached before are
/// those reached afterwards and those of the removed node and its folder.
pub proof fn law_remove_partition(nodes: Seq<Json>, id: Seq<char>, parent: Option<Seq<char>>, x: Seq<char>)
    ensures
        remove_in(nodes, id, parent) matches Some((rest, v, _)) ==> reaches(nodes, x) == (reaches(
            rest,
            x,
        ) || reaches(seq![v], x)),
    decreases seq_size(nodes), 1nat,
{
    if has_level(nodes, id) {
        let i = level_index(nodes, id);
        assert(level_first(nodes, id, i));
        let a = nodes.take(i);
        let b = nodes.skip(i + 1);
        assert(nodes =~= a + (seq![nodes[i]] + b));
        assert(nodes.remove(i) =~= a + b);
        lemma_reaches_concat(a, seq![nodes[i]] + b, x);
        lemma_reaches_concat(seq![nodes[i]], b, x);
        lemma_reaches_concat(a, b, x);
    } else {
        lemma_remove_deep_partition(nodes, id, x);
    }
}

proof fn lemma_remove_deep_partition(nodes: Seq<Json>, id: Seq<char>, x: Seq<char>)
    ensures
        remove_deep(nodes, id) matches Some((rest, v, _)) ==> reaches(nodes, x) == (reaches(
            rest,
            x,
        ) || reaches(seq![v], x)),
    decreases seq_size(nodes), 0nat,
{
    if nodes.len() > 0 {
        let n = nodes[0];
        let tail = nodes.drop_first();
        lemma_seq_size_elem(nodes, 0);
        lemma_reaches_split(nodes, x);
        lemma_reaches_single(n, x);
        let sub = match children_of(n) {
            Some(c) => {
                lemma_children_of_elem_smaller(nodes, 0);
                law_remove_partition(c, id, id_of(n), x);
                remove_in(c, id, id_of(n))
            },
            None => None,
        };
        match sub {
            Some((c2, v, q)) => {
                let m = set_children(n, c2);
                lemma_set_children(n, c2);
                lemma_reaches_single(m, x);
                let r = seq![m] + tail;
                assert(r[0] == m);
                assert(r.drop_first() =~= tail);
                lemma_reaches_split(r, x);
            },
            None => {
                lemma_remove_deep_partition(tail, id, x);
                if let Some((r2, v, q)) = remove_deep(tail, id) {
                    let r = seq![n] + r2;
                    assert(r[0] == n);
                    assert(r.drop_first() =~= r2);
                    lemma_reaches_split(r, x);
                }
            },
        }
    }
}

/// After `insert_node`, exactly the ids reached before, and those of the
/// inserted node and its folder, are reached.
pub proof fn law_insert_reaches(nodes: Seq<Json>, node: Json, parent: Option<Seq<char>>, x: Seq<char>)
    ensures
        reaches(insert_into(nodes, node, parent), x) == (reaches(nodes, x) || reaches(
            seq![node],
            x,
        )),
{
    match parent {
        Some(p) => match append_into(nodes, node, p) {
            Some(r) => {
                lemma_append_reaches(nodes, node, p, x);
            },
            None => {
                assert(nodes.push(node) =~= nodes + seq![node]);
                lemma_reaches_concat(nodes, seq![node], x);
            },
        },
        None => {
            assert(nodes.push(node) =~= nodes + seq![node]);
            lemma_reaches_concat(nodes, seq![node], x);
        },
    }
}

/// Moving a node: removing it and inserting it again under the folder that
/// `remove_node` reported leaves exactly the same ids reachable.
pub proof fn law_remove_insert_keeps_ids(nodes: Seq<Json>, id: Seq<char>, x: Seq<char>)
    ensures
        remove_in(nodes, id, None) matches Some((rest, v, p)) ==> reaches(insert_into(rest, v, p), x)
            == reaches(nodes, x),
{
    law_remove_partition(nodes, id, None, x);
    if let Some((rest, v, p)) = remove_in(nodes, id, None) {
        law_insert_reaches(rest, v, p, x);
    }
}

proof fn lemma_append_reaches(nodes: Seq<Json>, node: Json, pid: Seq<char>, x: Seq<char>)
    ensures
        append_into(nodes, node, pid) matches Some(r) ==> reaches(r, x) == (reaches(nodes, x)
            || reaches(seq![node], x)),
    decreases seq_size(nodes),
{
    if nodes.len() > 0 {
        let n = nodes[0];
        let rest = nodes.drop_first();
        lemma_reaches_split(nodes, x);
        lemma_reaches_single(n, x);
        lemma_seq_size_elem(nodes, 0);
        if id_of(n) == Some(pid) {
            if let Some(c) = children_of(n) {
                let m = set_children(n, c.push(node));
                lemma_set_children(n, c.push(node));
                lemma_reaches_single(m, x);
                lemma_reaches_concat(c, seq![node], x);
                assert(c + seq![node] =~= c.push(node));
                let r = seq![m] + rest;
                assert(r[0] == m);
                assert(r.drop_first() =~= rest);
                lemma_reaches_split(r, x);
            }
        } else {
            let sub = match children_of(n) {
                Some(c) => {
                    lemma_children_of_elem_smaller(nodes, 0);
                    lemma_append_reaches(c, node, pid, x);
                    append_into(c, node, pid)
                },
                None => None,
            };
            match sub {
                Some(c2) => {
                    let m = set_children(n, c2);
                    lemma_set_children(n, c2);
                    lemma_reaches_single(m, x);
                    let r = seq![m] + rest;
                    assert(r[0] == m);
                    assert(r.drop_first() =~= rest);
                    lemma_reaches_split(r, x);
                },
                None => {
                    lemma_append_reaches(rest, node, pid, x);
                    if let Some(r2) = append_into(rest, node, pid) {
                        let r = seq![n] + r2;
                        assert(r[0] == n);
                        assert(r.drop_first() =~= r2);
                        lemma_reaches_split(r, x);
                    }
                },
            }
        }
    }
}

/// Every id that `collect_content_ids` reports names a node of the tree.
pub proof fn law_content_ids_reached(nodes: Seq<Json>, k: int)
    requires
        0 <= k < content_ids(nodes).len(),
    ensures
        reaches(nodes, content_ids(nodes)[k]),
    decreases seq_size(nodes),
{
    let n = nodes[0];
    let rest = nodes.drop_first();
    let own = own_content_id(n);
    let below = match children_of(n) {
        Some(c) => content_ids(c),
        None => Seq::<Seq<char>>::empty(),
    };
    let y = content_ids(nodes)[k];
    lemma_seq_size_elem(nodes, 0);
    lemma_reaches_split(nodes, y);
    lemma_reaches_single(n, y);
    assert(content_ids(nodes) == own + below + content_ids(rest));
    if k < own.len() {
        assert(y == own[k]);
    } else if k < own.len() + below.len() {
        assert(y == below[k - own.len()]);
        let c = children_of(n)->0;
        lemma_children_of_elem_smaller(nodes, 0);
        law_content_ids_reached(c, k - own.len());
    } else {
        assert(y == content_ids(rest)[k - own.len() - below.len()]);
        law_content_ids_reached(rest, k - own.len() - below.len());
    }
}


/// Removing a node that sits at the top level takes out the first node
/// there with the id and keeps every other node in its order: the level
/// becomes the nodes before it followed by the nodes after it.
pub proof fn law_remove_keeps_order(
    nodes: Seq<Json>,
    id: Seq<char>,
    parent: Option<Seq<char>>,
    i: int,
)
    requires
        0 <= i < nodes.len(),
        id_of(nodes[i]) == Some(id),
        forall|j: int| 0 <= j < i ==> id_of(nodes[j]) != Some(id),
    ensures
        remove_in(nodes, id, parent) == Some((nodes.take(i) + nodes.skip(i + 1), nodes[i], parent)),
{
    assert(level_first(nodes, id, i));
    lemma_level_index(nodes, id, i);
    assert(nodes.remove(i) =~= nodes.take(i) + nodes.skip(i + 1));
}

/// What one node contributes to the content ids: its own id when its
/// `type` is `local` or `remote` and it has a string id (a `group`, a
/// `folder` or any other kind contributes none), then those of its folder.
pub proof fn law_content_ids_of_node(n: Json)
    ensures
        content_ids(seq![n]) == (if (get_str(n, "type"@) == Some("local"@) || get_str(n, "type"@)
            == Some("remote"@)) && id_of(n) is Some {
            seq![id_of(n)->0]
        } else {
            Seq::<Seq<char>>::empty()
        }) + match children_of(n) {
            Some(c) => content_ids(c),
            None => Seq::empty(),
        },
{
    let s = seq![n];
    assert(s[0] == n);
    assert(s.drop_first() =~= Seq::<Json>::empty());
    assert(content_ids(s.drop_first()) == Seq::<Seq<char>>::empty());
    let below = match children_of(n) {
        Some(c) => content_ids(c),
        None => Seq::<Seq<char>>::empty(),
    };
    assert(own_content_id(n) + below + Seq::<Seq<char>>::empty() =~= own_content_id(n) + below);
}
} // verus!
