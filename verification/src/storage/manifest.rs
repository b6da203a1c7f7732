//! The manifest file: the tree of hosts nodes, its document form, and the
//! tree operations.
//!
//! Nodes are JSON objects. A node's `id` member names it; a node whose
//! `children` member is an array is a folder, and the walks below descend
//! into it.

use vstd::prelude::*;
use crate::json::model::{Json, JsonNumber, JsonValue, NumberView, array_view, group_json_view};
use crate::json::access::{clone_array, members_insert, obj_insert};
use crate::json::bridge::{reads_back, spec_json_pretty, spec_parse_json, to_vec_pretty, PARSE_DEPTH};
use super::error::StorageError;
use crate::text::str_eq;
use crate::json::model::object_view;
use crate::json::access::{lemma_key_index, member_position};
use crate::text::string_of;
use super::tree_model::{
    children_of, find_in, id_of, jsize, lemma_children_of_elem_smaller, lemma_children_smaller,
    lemma_level_index, lemma_seq_size_elem, level_first, lift, remove_deep, remove_in, seq_size,
    has_content_type, set_children, append_into, insert_into, lift_level, content_ids, own_content_id,
};

verus! {

broadcast use group_json_view;

pub const MANIFEST_FORMAT: &'static str = "switchhosts-data";

pub const MANIFEST_SCHEMA_VERSION: u32 = 1;

/// The in-memory manifest: the forest of nodes under `root`.
#[derive(Debug, PartialEq)]
pub struct Manifest {
    pub format: String,
    pub schema_version: u32,
    pub root: Vec<JsonValue>,
}

fn default_format() -> (r: String)
    ensures
        r@ == MANIFEST_FORMAT@,
{
    string_of(MANIFEST_FORMAT)
}

fn default_schema_version() -> (r: u32)
    ensures
        r == MANIFEST_SCHEMA_VERSION,
{
    MANIFEST_SCHEMA_VERSION
}

impl Default for Manifest {
    /// An empty tree in the current format.
    fn default() -> (r: Manifest)
        ensures
            r.format@ == MANIFEST_FORMAT@,
            r.schema_version == MANIFEST_SCHEMA_VERSION,
            r.root@.len() == 0,
    {
        Manifest {
            format: default_format(),
            schema_version: default_schema_version(),
            root: Vec::new(),
        }
    }
}

/// A document `{ "format": .., "schemaVersion": .., <list key>: [..] }`,
/// members in that order, as the storage files are written.
pub open spec fn versioned_document(format: Seq<char>, list_key: Seq<char>, items: Seq<Json>) -> Json {
    Json::Object(
        seq![
            ("format"@, Json::Str(format)),
            ("schemaVersion"@, Json::Number(NumberView::PosInt(1))),
            (list_key, Json::Array(items)),
        ],
    )
}

/// What the manifest file holds for the forest `root`.
pub open spec fn manifest_document(root: Seq<Json>) -> Json {
    versioned_document(MANIFEST_FORMAT@, "root"@, root)
}

/// Build `versioned_document(format, list_key, items)`.
pub fn versioned_value(format: &str, list_key: &str, items: &Vec<JsonValue>) -> (r: JsonValue)
    ensures
        r@ == versioned_document(format@, list_key@, array_view(items@)),
{
    let mut es: Vec<(String, JsonValue)> = Vec::new();
    es.push((string_of("format"), JsonValue::Str(string_of(format))));
    es.push((string_of("schemaVersion"), JsonValue::Number(JsonNumber::from_u64(1))));
    es.push((string_of(list_key), JsonValue::Array(clone_array(items))));
    let r = JsonValue::Object(es);
    assert(r@ == versioned_document(format@, list_key@, array_view(items@))) by {
        assert(crate::json::model::object_view(es@) =~= seq![
            ("format"@, Json::Str(format@)),
            ("schemaVersion"@, Json::Number(NumberView::PosInt(1))),
            (list_key@, Json::Array(array_view(items@))),
        ]);
    }
    r
}

/// Print a document. Printing always succeeds; the error type, which names
/// `path`, is that of the storage layer's other writes.
pub fn document_bytes(doc: &JsonValue, path: &str) -> (r: Result<Vec<u8>, StorageError>)
    ensures
        r is Ok,
        r matches Ok(b) ==> b@ == spec_json_pretty(doc@),
        r matches Ok(b) ==> (reads_back(doc@, PARSE_DEPTH as int) ==> spec_parse_json(b@) == Some(
            doc@,
        )),
{
    match to_vec_pretty(doc) {
        Ok(b) => Ok(b),
        Err(e) => Err(StorageError::serialize(path, &e)),
    }
}

impl Manifest {
    /// The bytes of the manifest file for this tree: the current format and
    /// schema version, then `root`. The caller writes them to `path`
    /// atomically. Printing always succeeds.
    pub fn save(&self, path: &str) -> (r: Result<Vec<u8>, StorageError>)
        ensures
            r is Ok,
            r matches Ok(b) ==> b@ == spec_json_pretty(manifest_document(array_view(self.root@))),
            r matches Ok(b) ==> (reads_back(manifest_document(array_view(self.root@)), PARSE_DEPTH as int)
                ==> spec_parse_json(b@) == Some(manifest_document(array_view(self.root@)))),
    {
        let doc = versioned_value(MANIFEST_FORMAT, "root", &self.root);
        document_bytes(&doc, path)
    }
}

fn node_id(node: &JsonValue) -> (r: Option<&str>)
    ensures
        r matches Some(s) ==> id_of(node@) == Some(s@),
        r is None ==> id_of(node@) is None,
{
    node.get_str("id")
}

fn node_children(node: &JsonValue) -> (r: Option<&Vec<JsonValue>>)
    ensures
        r matches Some(c) ==> children_of(node@) == Some(array_view(c@)),
        r is None ==> children_of(node@) is None,
{
    node.get_array("children")
}

fn has_id(node: &JsonValue, id: &str) -> (r: bool)
    ensures
        r == (id_of(node@) == Some(id@)),
{
    match node_id(node) {
        Some(s) => str_eq(s, id),
        None => false,
    }
}

pub open spec fn strings_view(v: Seq<String>) -> Seq<Seq<char>> {
    v.map_values(|s: String| s@)
}

/// Walk the tree and collect the ids of every `local`/`remote` node
/// reachable from the root, parents before their children.
pub fn collect_content_ids(nodes: &[JsonValue], out: &mut Vec<String>)
    ensures
        strings_view(final(out)@) == strings_view(old(out)@) + content_ids(array_view(nodes@)),
    decreases seq_size(array_view(nodes@)),
{
    let ghost av = array_view(nodes@);
    let ghost start = strings_view(out@);
    let mut i: usize = 0;
    assert(av.skip(0) =~= av);
    assert(start + content_ids(av) =~= strings_view(out@) + content_ids(av.skip(0)));
    while i < nodes.len()
        invariant
            i <= nodes@.len(),
            av == array_view(nodes@),
            start == strings_view(old(out)@),
            start + content_ids(av) == strings_view(out@) + content_ids(av.skip(i as int)),
        decreases nodes@.len() - i,
    {
        let ghost rest = av.skip(i as int);
        assert(rest[0] == av[i as int]);
        assert(rest.drop_first() =~= av.skip(i + 1));
        let node = &nodes[i];
        let ghost before = strings_view(out@);
        if is_content_node(node) {
            if let Some(id) = node_id(node) {
                out.push(string_of(id));
            }
        }
        assert(strings_view(out@) =~= before + own_content_id(node@));
        let ghost mid = strings_view(out@);
        if let Some(children) = node_children(node) {
            proof {
                lemma_children_of_elem_smaller(av, i as int);
            }
            collect_content_ids(children.as_slice(), out);
        }
        proof {
            let below = match children_of(node@) {
                Some(c) => content_ids(c),
                None => Seq::<Seq<char>>::empty(),
            };
            assert(strings_view(out@) =~= mid + below);
            assert(content_ids(rest) == own_content_id(node@) + below + content_ids(av.skip(i + 1)));
            assert(strings_view(out@) + content_ids(av.skip(i + 1)) =~= before + content_ids(rest));
        }
        i = i + 1;
    }
    assert(av.skip(i as int) =~= Seq::<Json>::empty());
    assert(strings_view(out@) + content_ids(av.skip(i as int)) =~= strings_view(out@));
}

fn is_content_node(node: &JsonValue) -> (r: bool)
    ensures
        r == has_content_type(node@),
{
    match node.get_str("type") {
        Some(t) => str_eq(t, "local") || str_eq(t, "remote"),
        None => false,
    }
}

/// Find a node anywhere in the tree by id (depth first, parents before
/// their children), returning a copy of it.
pub fn find_node(nodes: &[JsonValue], id: &str) -> (r: Option<JsonValue>)
    ensures
        r matches Some(n) ==> find_in(array_view(nodes@), id@) == Some(n@),
        r is None ==> find_in(array_view(nodes@), id@) is None,
    decreases seq_size(array_view(nodes@)),
{
    let ghost av = array_view(nodes@);
    let mut i: usize = 0;
    assert(av.skip(0) =~= av);
    while i < nodes.len()
        invariant
            i <= nodes@.len(),
            av == array_view(nodes@),
            find_in(av.skip(i as int), id@) == find_in(av, id@),
        decreases nodes@.len() - i,
    {
        let ghost rest = av.skip(i as int);
        assert(rest[0] == av[i as int]);
        assert(rest.drop_first() =~= av.skip(i + 1));
        let node = &nodes[i];
        if has_id(node, id) {
            return Some(node.deep_clone());
        }
        if let Some(children) = node_children(node) {
            proof {
                lemma_children_of_elem_smaller(av, i as int);
            }
            if let Some(found) = find_node(children.as_slice(), id) {
                return Some(found);
            }
        }
        i = i + 1;
    }
    None
}


pub open spec fn opt_str_view(o: Option<&str>) -> Option<Seq<char>> {
    match o {
        Some(s) => Some(s@),
        None => None,
    }
}

pub open spec fn opt_string_view(o: Option<String>) -> Option<Seq<char>> {
    match o {
        Some(s) => Some(s@),
        None => None,
    }
}

/// What removing `id` below and at `nodes` gives back.
pub open spec fn removal_matches(
    r: Option<(JsonValue, Option<String>)>,
    spec_r: Option<(Seq<Json>, Json, Option<Seq<char>>)>,
    before: Seq<Json>,
    after: Seq<Json>,
) -> bool {
    match spec_r {
        Some((rest, v, p)) => {
            &&& r matches Some((x, q))
            &&& x@ == v
            &&& opt_string_view(q) == p
            &&& after == rest
        },
        None => r is None && after == before,
    }
}

/// Remove a node by id. Returns the removed node plus the id of its
/// parent folder (`None` if it lived at the top level).
pub fn remove_node(nodes: &mut Vec<JsonValue>, id: &str) -> (r: Option<(JsonValue, Option<String>)>)
    ensures
        removal_matches(
            r,
            remove_in(array_view(old(nodes)@), id@, None),
            array_view(old(nodes)@),
            array_view(final(nodes)@),
        ),
{
    remove_node_inner(nodes, id, None)
}

fn copy_opt_str(o: Option<&str>) -> (r: Option<String>)
    ensures
        opt_string_view(r) == opt_str_view(o),
{
    match o {
        Some(s) => Some(string_of(s)),
        None => None,
    }
}

fn remove_node_inner(nodes: &mut Vec<JsonValue>, id: &str, parent_id: Option<&str>) -> (r: Option<
    (JsonValue, Option<String>),
>)
    ensures
        removal_matches(
            r,
            remove_in(array_view(old(nodes)@), id@, opt_str_view(parent_id)),
            array_view(old(nodes)@),
            array_view(final(nodes)@),
        ),
    decreases seq_size(array_view(old(nodes)@)), 1nat,
{
    let ghost av = array_view(nodes@);
    // first, this level
    let mut i: usize = 0;
    while i < nodes.len()
        invariant
            i <= nodes@.len(),
            av == array_view(nodes@),
            av == array_view(old(nodes)@),
            forall|j: int| 0 <= j < i ==> id_of(av[j]) != Some(id@),
        decreases nodes@.len() - i,
    {
        if has_id(&nodes[i], id) {
            proof {
                assert(level_first(av, id@, i as int));
                lemma_level_index(av, id@, i as int);
            }
            let removed = nodes.remove(i);
            assert(removed@ == av[i as int]);
            assert(array_view(nodes@) =~= av.remove(i as int));
            return Some((removed, copy_opt_str(parent_id)));
        }
        i = i + 1;
    }
    // then each node's folder, in order
    let mut k: usize = 0;
    assert(av.take(0) + av.skip(0) =~= av);
    while k < nodes.len()
        invariant
            k <= nodes@.len(),
            av == array_view(nodes@),
            av == array_view(old(nodes)@),
            !has_level_spec(av, id@),
            remove_deep(av, id@) == lift(av.take(k as int), remove_deep(av.skip(k as int), id@)),
        decreases nodes@.len() - k,
    {
        let ghost rest = av.skip(k as int);
        assert(rest[0] == av[k as int]);
        assert(rest.drop_first() =~= av.skip(k + 1));
        proof {
            lemma_seq_size_elem(av, k as int);
        }
        let mut node = JsonValue::Null;
        nodes.set_and_swap(k, &mut node);
        assert(node@ == av[k as int]);
        let ghost before_swap = nodes@;
        let (back, res) = remove_under(node, id);
        nodes.set(k, back);
        assert(nodes@ == before_swap.update(k as int, back));
        match res {
            Some(found) => {
                assert(array_view(nodes@) =~= av.take(k as int) + (seq![array_view(nodes@)[k as int]]
                    + rest.drop_first()));
                return Some(found);
            },
            None => {
                assert(array_view(nodes@) =~= av);
                proof {
                    let n = av[k as int];
                    match remove_deep(rest.drop_first(), id@) {
                        Some((r2, v, p)) => {
                            assert(av.take(k as int) + (seq![n] + r2) =~= av.take(k + 1) + r2);
                        },
                        None => {},
                    }
                }
            },
        }
        k = k + 1;
    }
    proof {
        assert(av.skip(k as int).len() == 0);
    }
    None
}

pub open spec fn has_level_spec(nodes: Seq<Json>, id: Seq<char>) -> bool {
    super::tree_model::has_level(nodes, id)
}

/// A folder taken apart: its members with the `children` slot emptied,
/// the slot's position and key, and the children.
struct OpenFolder {
    members: Vec<(String, JsonValue)>,
    slot: usize,
    key: String,
    children: Vec<JsonValue>,
}

impl OpenFolder {
    /// The folder with `c` as its children.
    spec fn with_children(&self, c: Seq<Json>) -> Json {
        Json::Object(object_view(self.members@).update(self.slot as int, (self.key@, Json::Array(c))))
    }

    spec fn opened_from(&self, n: Json) -> bool {
        &&& self.key@ == "children"@
        &&& self.slot < self.members@.len()
        &&& n == self.with_children(array_view(self.children@))
        &&& children_of(n) == Some(array_view(self.children@))
        &&& forall|c: Seq<Json>| #[trigger] set_children(n, c) == self.with_children(c)
    }
}

/// Take a folder apart; a node that is not a folder comes back whole.
fn open_folder(node: JsonValue) -> (r: Result<OpenFolder, JsonValue>)
    ensures
        r matches Ok(f) ==> f.opened_from(node@),
        r matches Err(m) ==> m@ == node@ && children_of(node@) is None,
{
    let ghost n = node@;
    match node {
        JsonValue::Object(mut es) => {
            let ghost ov = object_view(es@);
            assert(n == Json::Object(ov));
            match member_position(&es, "children") {
                Some(j) => {
                    proof {
                        lemma_key_index(ov, "children"@, j as int);
                    }
                    let mut slot = (String::new(), JsonValue::Null);
                    es.set_and_swap(j, &mut slot);
                    let (key, val) = slot;
                    assert(ov[j as int] == (key@, val@));
                    match val {
                        JsonValue::Array(children) => {
                            let ghost c0 = array_view(children@);
                            let f = OpenFolder { members: es, slot: j, key, children };
                            assert(ov =~= object_view(f.members@).update(
                                j as int,
                                ("children"@, Json::Array(c0)),
                            ));
                            assert forall|c: Seq<Json>| #[trigger]
                                set_children(n, c) == f.with_children(c) by {
                                assert(ov.update(j as int, ("children"@, Json::Array(c)))
                                    =~= object_view(f.members@).update(
                                    j as int,
                                    ("children"@, Json::Array(c)),
                                ));
                            }
                            Ok(f)
                        },
                        other => {
                            es.set(j, (key, other));
                            assert(object_view(es@) =~= ov);
                            Err(JsonValue::Object(es))
                        },
                    }
                },
                None => Err(JsonValue::Object(es)),
            }
        },
        other => Err(other),
    }
}

/// Put a folder taken apart by `open_folder` back together.
fn close_folder(f: OpenFolder) -> (r: JsonValue)
    requires
        f.slot < f.members@.len(),
    ensures
        r@ == f.with_children(array_view(f.children@)),
{
    let OpenFolder { mut members, slot, key, children } = f;
    let ghost before = object_view(members@);
    members.set(slot, (key, JsonValue::Array(children)));
    assert(object_view(members@) =~= before.update(
        slot as int,
        (key@, Json::Array(array_view(children@))),
    ));
    JsonValue::Object(members)
}

/// Search the folder of `node` (if it is one) for `id`; gives the node
/// back, with its folder changed where the search removed something.
fn remove_under(node: JsonValue, id: &str) -> (r: (JsonValue, Option<(JsonValue, Option<String>)>))
    ensures
        match children_of(node@) {
            Some(c) => match remove_in(c, id@, id_of(node@)) {
                Some((c2, v, p)) => {
                    &&& r.1 matches Some((x, q))
                    &&& x@ == v
                    &&& opt_string_view(q) == p
                    &&& r.0@ == set_children(node@, c2)
                },
                None => r.1 is None && r.0@ == node@,
            },
            None => r.1 is None && r.0@ == node@,
        },
    decreases jsize(node@), 0nat,
{
    let this_id = copy_opt_str(node_id(&node));
    let ghost n = node@;
    match open_folder(node) {
        Ok(mut f) => {
            proof {
                lemma_children_smaller(n);
            }
            let ghost c0 = array_view(f.children@);
            let res = match &this_id {
                Some(s) => remove_node_inner(&mut f.children, id, Some(s.as_str())),
                None => remove_node_inner(&mut f.children, id, None),
            };
            let ghost c1 = array_view(f.children@);
            assert(set_children(n, c1) == f.with_children(c1));
            let back = close_folder(f);
            (back, res)
        },
        Err(m) => (m, None),
    }
}

// ---- insert ------------------------------------------------------------------------

/// What happened at one node while looking for the folder to append to.
enum FolderStep {
    /// The node was appended under this node or below it.
    Appended,
    /// This node has the folder id but is not a folder: the search of this
    /// level stops.
    NotAFolder,
    /// Not here; go on with the next node.
    NotHere,
}

/// Insert `node` at the top level or inside the folder with `parent_id`.
/// If `parent_id` is supplied but no matching folder exists, the node is
/// appended to the top level.
pub fn insert_node(nodes: &mut Vec<JsonValue>, node: JsonValue, parent_id: Option<&str>)
    ensures
        array_view(final(nodes)@) == insert_into(array_view(old(nodes)@), node@, opt_str_view(
            parent_id,
        )),
{
    if let Some(pid) = parent_id {
        if append_into_folder(nodes, &node, pid) {
            return;
        }
    }
    let ghost before = array_view(nodes@);
    nodes.push(node);
    assert(array_view(nodes@) =~= before.push(node@));
}

fn append_into_folder(nodes: &mut Vec<JsonValue>, node: &JsonValue, parent_id: &str) -> (r: bool)
    ensures
        match append_into(array_view(old(nodes)@), node@, parent_id@) {
            Some(after) => r && array_view(final(nodes)@) == after,
            None => !r && array_view(final(nodes)@) == array_view(old(nodes)@),
        },
    decreases seq_size(array_view(old(nodes)@)), 1nat,
{
    let ghost av = array_view(nodes@);
    let mut k: usize = 0;
    assert(av.take(0) + av.skip(0) =~= av);
    while k < nodes.len()
        invariant
            k <= nodes@.len(),
            av == array_view(nodes@),
            av == array_view(old(nodes)@),
            append_into(av, node@, parent_id@) == lift_level(
                av.take(k as int),
                append_into(av.skip(k as int), node@, parent_id@),
            ),
        decreases nodes@.len() - k,
    {
        let ghost rest = av.skip(k as int);
        assert(rest[0] == av[k as int]);
        assert(rest.drop_first() =~= av.skip(k + 1));
        proof {
            lemma_seq_size_elem(av, k as int);
        }
        let mut current = JsonValue::Null;
        nodes.set_and_swap(k, &mut current);
        assert(current@ == av[k as int]);
        let ghost before_swap = nodes@;
        let (back, step) = append_step(current, node, parent_id);
        nodes.set(k, back);
        assert(nodes@ == before_swap.update(k as int, back));
        match step {
            FolderStep::Appended => {
                assert(array_view(nodes@) =~= av.take(k as int) + (seq![back@]
                    + rest.drop_first()));
                return true;
            },
            FolderStep::NotAFolder => {
                assert(array_view(nodes@) =~= av);
                return false;
            },
            FolderStep::NotHere => {
                assert(array_view(nodes@) =~= av);
                proof {
                    let n = av[k as int];
                    match append_into(rest.drop_first(), node@, parent_id@) {
                        Some(r2) => {
                            assert(av.take(k as int) + (seq![n] + r2) =~= av.take(k + 1) + r2);
                        },
                        None => {},
                    }
                }
            },
        }
        k = k + 1;
    }
    proof {
        assert(av.skip(k as int).len() == 0);
    }
    false
}

/// The search for the folder `parent_id` at one node.
fn append_step(current: JsonValue, node: &JsonValue, parent_id: &str) -> (r: (JsonValue, FolderStep))
    ensures
        if id_of(current@) == Some(parent_id@) {
            match children_of(current@) {
                Some(c) => r.1 is Appended && r.0@ == set_children(current@, c.push(node@)),
                None => r.1 is NotAFolder && r.0@ == current@,
            }
        } else {
            match children_of(current@) {
                Some(c) => match append_into(c, node@, parent_id@) {
                    Some(c2) => r.1 is Appended && r.0@ == set_children(current@, c2),
                    None => r.1 is NotHere && r.0@ == current@,
                },
                None => r.1 is NotHere && r.0@ == current@,
            }
        },
    decreases jsize(current@), 0nat,
{
    let matches = has_id(&current, parent_id);
    let ghost n = current@;
    match open_folder(current) {
        Ok(mut f) => {
            proof {
                lemma_children_smaller(n);
            }
            if matches {
                let ghost c0 = array_view(f.children@);
                f.children.push(node.deep_clone());
                assert(array_view(f.children@) =~= c0.push(node@));
                let ghost c1 = array_view(f.children@);
                assert(set_children(n, c1) == f.with_children(c1));
                (close_folder(f), FolderStep::Appended)
            } else {
                let done = append_into_folder(&mut f.children, node, parent_id);
                let ghost c1 = array_view(f.children@);
                assert(set_children(n, c1) == f.with_children(c1));
                let back = close_folder(f);
                if done {
                    (back, FolderStep::Appended)
                } else {
                    (back, FolderStep::NotHere)
                }
            }
        },
        Err(m) => {
            if matches {
                (m, FolderStep::NotAFolder)
            } else {
                (m, FolderStep::NotHere)
            }
        },
    }
}

} // verus!
