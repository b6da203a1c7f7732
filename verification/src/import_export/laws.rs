//! Laws of backup export and import: importing an exported backup writes
//! back exactly the tree, the contents and the trashcan it was made from.

use vstd::prelude::*;
use crate::json::model::{Json, NumberView};
use crate::storage::manifest::{manifest_document, versioned_document, MANIFEST_FORMAT};
use crate::storage::trashcan::{trashcan_document, TRASHCAN_FORMAT};
use crate::json::access::{
    first_key_at, get_array, get_str, has_key, json_as_str, json_get, lemma_key_index, obj_get,
    obj_insert,
};
use crate::storage::tree_model::{jsize, lemma_members_size_elem, lemma_seq_size_elem, members_size, seq_size};
use super::plan::{
    OutcomeView, StepView, array_at2, array_at3, import_spec, interval_seconds, import_v3_spec, import_v4_spec, import_v5_spec,
    major_version, v3_convert_list, v3_convert_members, v3_convert_node, v3_own_write,
    v4_entry_writes, v5_entry_writes,
};
use super::export::{backup_document, entries_members, BACKUP_FORMAT};

verus! {

/// The members `{ id: content }` of `pairs`, one per pair, in order.
pub open spec fn pairs_as_members(pairs: Seq<(Seq<char>, Seq<char>)>) -> Seq<(Seq<char>, Json)> {
    Seq::new(pairs.len(), |i: int| (pairs[i].0, Json::Str(pairs[i].1)))
}

/// One content write per pair, in order.
pub open spec fn pairs_as_writes(pairs: Seq<(Seq<char>, Seq<char>)>) -> Seq<StepView> {
    Seq::new(pairs.len(), |i: int| StepView::WriteEntry(pairs[i].0, pairs[i].1))
}

/// No two pairs share an id, and none is the system node `0`.
pub open spec fn distinct_content_ids(pairs: Seq<(Seq<char>, Seq<char>)>) -> bool {
    &&& forall|i: int, j: int| 0 <= i < j < pairs.len() ==> pairs[i].0 != pairs[j].0
    &&& forall|i: int| 0 <= i < pairs.len() ==> pairs[i].0 != "0"@
}

proof fn lemma_versioned_list(format: Seq<char>, list_key: Seq<char>, items: Seq<Json>)
    requires
        list_key.len() != 6 && list_key.len() != 13,
    ensures
        versioned_document(format, list_key, items) is Object,
        obj_get(versioned_document(format, list_key, items)->Object_0, list_key) == Some(
            Json::Array(items),
        ),
{
    reveal_strlit("format");
    reveal_strlit("schemaVersion");
    let es = versioned_document(format, list_key, items)->Object_0;
    assert(first_key_at(es, list_key, 2));
    lemma_key_index(es, list_key, 2);
}

/// Importing an exported backup gives back the exported tree and
/// trashcan, after the content writes that its `entries` object holds.
pub proof fn law_export_import_roundtrip(
    root: Seq<Json>,
    entries: Seq<(Seq<char>, Seq<char>)>,
    trash_items: Seq<Json>,
    exported_at: Seq<char>,
)
    ensures
        import_spec(backup_document(root, entries, trash_items, exported_at))
            == OutcomeView::Apply(
            v5_entry_writes(entries_members(entries)) + seq![
                StepView::SaveTrashcan(trash_items),
                StepView::SaveManifest(root),
            ],
        ),
{
    reveal_strlit("format");
    reveal_strlit("schemaVersion");
    reveal_strlit("version");
    reveal_strlit("exportedAt");
    reveal_strlit("manifest");
    reveal_strlit("entries");
    reveal_strlit("trashcan");
    reveal_strlit("root");
    reveal_strlit("items");
    let doc = backup_document(root, entries, trash_items, exported_at);
    let es = doc->Object_0;
    assert(first_key_at(es, "format"@, 0));
    lemma_key_index(es, "format"@, 0);
    assert("manifest"@ != "version"@) by {
        assert("manifest"@.len() != "version"@.len());
    }
    assert("manifest"@.len() == 8 && "format"@.len() == 6 && "schemaVersion"@.len() == 13
        && "exportedAt"@.len() == 10 && "entries"@.len() == 7 && "trashcan"@.len() == 8);
    assert("manifest"@ != "format"@ && "manifest"@ != "schemaVersion"@ && "manifest"@
        != "exportedAt"@);
    assert("entries"@ != "format"@ && "entries"@ != "schemaVersion"@ && "entries"@
        != "exportedAt"@ && "entries"@ != "manifest"@);
    assert(first_key_at(es, "manifest"@, 4));
    lemma_key_index(es, "manifest"@, 4);
    assert("entries"@ != "version"@) by {
        assert("entries"@[0] != "version"@[0]);
    }
    assert(first_key_at(es, "entries"@, 5));
    lemma_key_index(es, "entries"@, 5);
    assert("trashcan"@ != "manifest"@) by {
        assert("trashcan"@[0] != "manifest"@[0]);
    }
    assert(first_key_at(es, "trashcan"@, 6));
    lemma_key_index(es, "trashcan"@, 6);
    lemma_versioned_list(MANIFEST_FORMAT@, "root"@, root);
    lemma_versioned_list(TRASHCAN_FORMAT@, "items"@, trash_items);
}

proof fn lemma_entries_members_distinct(pairs: Seq<(Seq<char>, Seq<char>)>)
    requires
        forall|i: int, j: int| 0 <= i < j < pairs.len() ==> pairs[i].0 != pairs[j].0,
    ensures
        entries_members(pairs) == pairs_as_members(pairs),
    decreases pairs.len(),
{
    if pairs.len() > 0 {
        let init = pairs.drop_last();
        lemma_entries_members_distinct(init);
        let m = pairs_as_members(init);
        assert forall|i: int| !first_key_at(m, pairs.last().0, i) by {
            if 0 <= i < m.len() {
                assert(m[i].0 == pairs[i].0);
            }
        }
        assert(!has_key(m, pairs.last().0));
        assert(m.push((pairs.last().0, Json::Str(pairs.last().1))) =~= pairs_as_members(pairs));
    }
}

proof fn lemma_writes_of_members(pairs: Seq<(Seq<char>, Seq<char>)>)
    requires
        forall|i: int| 0 <= i < pairs.len() ==> pairs[i].0 != "0"@,
    ensures
        v5_entry_writes(pairs_as_members(pairs)) == pairs_as_writes(pairs),
    decreases pairs.len(),
{
    if pairs.len() > 0 {
        let rest = pairs.drop_first();
        lemma_writes_of_members(rest);
        assert(pairs_as_members(pairs).drop_first() =~= pairs_as_members(rest));
        assert(pairs_as_members(pairs)[0] == (pairs[0].0, Json::Str(pairs[0].1)));
        assert(seq![StepView::WriteEntry(pairs[0].0, pairs[0].1)] + pairs_as_writes(rest)
            =~= pairs_as_writes(pairs));
    }
}

/// With distinct ids other than `0`, as an export collects them, the
/// import writes each exported content back to its own node, in order.
pub proof fn law_export_import_entries(pairs: Seq<(Seq<char>, Seq<char>)>)
    requires
        distinct_content_ids(pairs),
    ensures
        v5_entry_writes(entries_members(pairs)) == pairs_as_writes(pairs),
{
    lemma_entries_members_distinct(pairs);
    lemma_writes_of_members(pairs);
}


// ---- every import writes contents first ------------------------------------------

/// A write of a content file for a node other than the system node `0`.
pub open spec fn is_content_write(s: StepView) -> bool {
    s matches StepView::WriteEntry(id, _) && id != "0"@
}

pub open spec fn content_writes_only(s: Seq<StepView>) -> bool {
    forall|i: int| 0 <= i < s.len() ==> #[trigger] is_content_write(s[i])
}

/// `steps` opens with `k` content writes, writes no content after them,
/// and saves the manifest once, at `m`.
pub open spec fn entries_first_at(steps: Seq<StepView>, k: int, m: int) -> bool {
    &&& 0 <= k <= m < steps.len()
    &&& forall|i: int| 0 <= i < k ==> #[trigger] is_content_write(steps[i])
    &&& forall|i: int| k <= i < steps.len() ==> !(#[trigger] steps[i] is WriteEntry)
    &&& steps[m] is SaveManifest
    &&& forall|i: int| 0 <= i < steps.len() && i != m ==> !(#[trigger] steps[i] is SaveManifest)
}

pub open spec fn entries_first(steps: Seq<StepView>) -> bool {
    exists|k: int, m: int| entries_first_at(steps, k, m)
}

proof fn lemma_concat_writes(a: Seq<StepView>, b: Seq<StepView>)
    requires
        content_writes_only(a),
        content_writes_only(b),
    ensures
        content_writes_only(a + b),
{
    assert forall|i: int| 0 <= i < (a + b).len() implies #[trigger] is_content_write((a + b)[i]) by {
        if i < a.len() {
            assert((a + b)[i] == a[i]);
        } else {
            assert((a + b)[i] == b[i - a.len()]);
        }
    }
}

proof fn lemma_v5_writes(es: Seq<(Seq<char>, Json)>)
    ensures
        content_writes_only(v5_entry_writes(es)),
    decreases es.len(),
{
    if es.len() > 0 {
        lemma_v5_writes(es.drop_first());
        let own = if es[0].0 == "0"@ {
            Seq::<StepView>::empty()
        } else {
            seq![StepView::WriteEntry(es[0].0, match json_as_str(es[0].1) {
                Some(s) => s,
                None => Seq::empty(),
            })]
        };
        assert(content_writes_only(own));
        lemma_concat_writes(own, v5_entry_writes(es.drop_first()));
    }
}

proof fn lemma_v4_writes(records: Seq<Json>)
    ensures
        content_writes_only(v4_entry_writes(records)),
    decreases records.len(),
{
    if records.len() > 0 {
        lemma_v4_writes(records.drop_first());
        let r = records[0];
        let own = match (get_str(r, "id"@), get_str(r, "content"@)) {
            (Some(id), Some(content)) => if id == "0"@ {
                Seq::<StepView>::empty()
            } else {
                seq![StepView::WriteEntry(id, content)]
            },
            _ => Seq::empty(),
        };
        assert(content_writes_only(own));
        lemma_concat_writes(own, v4_entry_writes(records.drop_first()));
    }
}

proof fn lemma_v3_node_writes(n: Json)
    ensures
        content_writes_only(v3_convert_node(n).1),
    decreases jsize(n), 0nat,
{
    if let Json::Object(es) = n {
        lemma_v3_members_writes(es, Seq::empty(), Seq::empty());
        assert(content_writes_only(v3_own_write(n)));
        lemma_concat_writes(v3_convert_members(es, Seq::empty(), Seq::empty()).1, v3_own_write(n));
    }
}

proof fn lemma_v3_members_writes(
    es: Seq<(Seq<char>, Json)>,
    out: Seq<(Seq<char>, Json)>,
    writes: Seq<StepView>,
)
    requires
        content_writes_only(writes),
    ensures
        content_writes_only(v3_convert_members(es, out, writes).1),
    decreases members_size(es), 0nat,
{
    if es.len() > 0 {
        let (k, v) = es[0];
        lemma_members_size_elem(es, 0);
        if let Json::Array(c) = v {
            if k == "children"@ {
                lemma_v3_list_writes(c);
                lemma_concat_writes(writes, v3_convert_list(c).1);
            }
        }
        let (out2, writes2) = if k == "where"@ || k == "content"@ {
            (out, writes)
        } else if k == "refresh_interval"@ {
            (
                obj_insert(out, k, Json::Number(NumberView::PosInt(interval_seconds(v) as u64))),
                writes,
            )
        } else if k == "children"@ {
            match v {
                Json::Array(c) => {
                    let (c2, w) = v3_convert_list(c);
                    (obj_insert(out, k, Json::Array(c2)), writes + w)
                },
                _ => (obj_insert(out, k, v), writes),
            }
        } else {
            (obj_insert(out, k, v), writes)
        };
        lemma_v3_members_writes(es.drop_first(), out2, writes2);
    }
}

proof fn lemma_v3_list_writes(s: Seq<Json>)
    ensures
        content_writes_only(v3_convert_list(s).1),
    decreases seq_size(s), 1nat,
{
    if s.len() > 0 {
        lemma_seq_size_elem(s, 0);
        lemma_v3_node_writes(s[0]);
        lemma_v3_list_writes(s.drop_first());
        lemma_concat_writes(v3_convert_node(s[0]).1, v3_convert_list(s.drop_first()).1);
    }
}

proof fn lemma_writes_then(writes: Seq<StepView>, tail: Seq<StepView>, m: int)
    requires
        content_writes_only(writes),
        0 <= m < tail.len(),
        tail[m] is SaveManifest,
        forall|i: int| 0 <= i < tail.len() ==> !(#[trigger] tail[i] is WriteEntry),
        forall|i: int| 0 <= i < tail.len() && i != m ==> !(#[trigger] tail[i] is SaveManifest),
    ensures
        entries_first(writes + tail),
{
    let steps = writes + tail;
    let k = writes.len() as int;
    assert forall|i: int| 0 <= i < k implies #[trigger] is_content_write(steps[i]) by {
        assert(steps[i] == writes[i]);
    }
    assert forall|i: int| k <= i < steps.len() implies !(#[trigger] steps[i] is WriteEntry) by {
        assert(steps[i] == tail[i - k]);
    }
    assert forall|i: int| 0 <= i < steps.len() && i != k + m implies !(
    #[trigger] steps[i] is SaveManifest) by {
        if i < k {
            assert(steps[i] == writes[i]);
            assert(is_content_write(writes[i]));
        } else {
            assert(steps[i] == tail[i - k]);
        }
    }
    assert(steps[k + m] == tail[m]);
    assert(entries_first_at(steps, k, k + m));
}

/// Every import that is not refused writes content files first, none of
/// them for the system node `0`, writes no content after them, and saves
/// the manifest exactly once, after all of them.
pub proof fn law_import_entries_first(data: Json)
    ensures
        import_spec(data) matches OutcomeView::Apply(steps) ==> entries_first(steps),
{
    if data is Object {
        if get_str(data, "format"@) == Some("switchhosts-backup"@) {
            if let Some(m) = json_get(data, "manifest"@) {
                if m is Object {
                    let root = match get_array(m, "root"@) {
                        Some(r) => r,
                        None => Seq::empty(),
                    };
                    let writes = match json_get(data, "entries"@) {
                        Some(Json::Object(es)) => v5_entry_writes(es),
                        _ => Seq::empty(),
                    };
                    if let Some(Json::Object(es)) = json_get(data, "entries"@) {
                        lemma_v5_writes(es);
                    }
                    let items = array_at2(data, "trashcan"@, "items"@);
                    let tail = seq![StepView::SaveTrashcan(items), StepView::SaveManifest(root)];
                    lemma_writes_then(writes, tail, 1);
                    assert(import_v5_spec(data) == OutcomeView::Apply(writes + tail));
                }
            }
        } else if let Some(version) = get_array(data, "version"@) {
            let major = major_version(version);
            if major == 3 {
                if let Some(list) = get_array(data, "list"@) {
                    let (nodes, writes) = v3_convert_list(list);
                    lemma_v3_list_writes(list);
                    let tail = seq![StepView::SaveManifest(nodes), StepView::SaveTrashcan(Seq::empty())];
                    lemma_writes_then(writes, tail, 0);
                    assert(import_v3_spec(data) == OutcomeView::Apply(writes + tail));
                }
            } else if major == 4 {
                if let Some(inner) = json_get(data, "data"@) {
                    if inner is Object {
                        let tree = array_at2(inner, "list"@, "tree"@);
                        let trash = array_at2(inner, "list"@, "trashcan"@);
                        let hosts = array_at3(inner, "collection"@, "hosts"@, "data"@);
                        let history = array_at3(inner, "collection"@, "history"@, "data"@);
                        let tail0 = if history.len() > 0 {
                            seq![StepView::WriteHistory(history)]
                        } else {
                            Seq::empty()
                        };
                        lemma_v4_writes(hosts);
                        let tail = seq![StepView::SaveTrashcan(trash), StepView::SaveManifest(tree)] + tail0;
                        assert(tail[0] == StepView::SaveTrashcan(trash));
                        assert(tail[1] == StepView::SaveManifest(tree));
                        lemma_writes_then(v4_entry_writes(hosts), tail, 1);
                        assert(v4_entry_writes(hosts) + seq![
                            StepView::SaveTrashcan(trash),
                            StepView::SaveManifest(tree),
                        ] + tail0 =~= v4_entry_writes(hosts) + tail);
                        assert(import_v4_spec(data) == OutcomeView::Apply(v4_entry_writes(hosts) + tail));
                    }
                }
            }
        }
    }
}


// ---- v4: every hosts record is written -------------------------------------------

/// The content write a v4 hosts record asks for: one with a string `id`
/// other than `0` and a string `content`.
pub open spec fn v4_record_write(r: Json) -> Option<StepView> {
    match (get_str(r, "id"@), get_str(r, "content"@)) {
        (Some(id), Some(content)) => if id != "0"@ {
            Some(StepView::WriteEntry(id, content))
        } else {
            None
        },
        _ => None,
    }
}

proof fn lemma_v4_writes_concat(a: Seq<Json>, b: Seq<Json>)
    ensures
        v4_entry_writes(a + b) == v4_entry_writes(a) + v4_entry_writes(b),
    decreases a.len(),
{
    if a.len() == 0 {
        assert(a + b =~= b);
        assert(Seq::<StepView>::empty() + v4_entry_writes(b) =~= v4_entry_writes(b));
    } else {
        assert((a + b)[0] == a[0]);
        assert((a + b).drop_first() =~= a.drop_first() + b);
        lemma_v4_writes_concat(a.drop_first(), b);
        let r = a[0];
        let own = match (get_str(r, "id"@), get_str(r, "content"@)) {
            (Some(id), Some(content)) => if id == "0"@ {
                Seq::<StepView>::empty()
            } else {
                seq![StepView::WriteEntry(id, content)]
            },
            _ => Seq::empty(),
        };
        assert(own + (v4_entry_writes(a.drop_first()) + v4_entry_writes(b)) =~= (own
            + v4_entry_writes(a.drop_first())) + v4_entry_writes(b));
    }
}

proof fn lemma_v4_writes_one(r: Json)
    ensures
        v4_entry_writes(seq![r]) == match v4_record_write(r) {
            Some(w) => seq![w],
            None => Seq::<StepView>::empty(),
        },
{
    let s = seq![r];
    assert(s[0] == r);
    assert(s.drop_first() =~= Seq::<Json>::empty());
    let own = match (get_str(r, "id"@), get_str(r, "content"@)) {
        (Some(id), Some(content)) => if id == "0"@ {
            Seq::<StepView>::empty()
        } else {
            seq![StepView::WriteEntry(id, content)]
        },
        _ => Seq::empty(),
    };
    assert(v4_entry_writes(s.drop_first()) == Seq::<StepView>::empty());
    assert(v4_entry_writes(s) == own + v4_entry_writes(s.drop_first()));
    assert(own + Seq::<StepView>::empty() =~= own);
}

/// The content writes of a v4 import are exactly one per hosts record with
/// a string id other than `0` and a string content, in the records' order:
/// no record is skipped and none is written twice.
pub proof fn law_v4_writes_every_record(records: Seq<Json>)
    ensures
        v4_entry_writes(records) == records.filter_map(|r: Json| v4_record_write(r)),
    decreases records.len(),
{
    let f = |r: Json| v4_record_write(r);
    if records.len() > 0 {
        let init = records.drop_last();
        law_v4_writes_every_record(init);
        assert(records =~= init + seq![records.last()]);
        lemma_v4_writes_concat(init, seq![records.last()]);
        lemma_v4_writes_one(records.last());
        match f(records.last()) {
            Some(w) => {},
            None => {
                assert(init.filter_map(f) + Seq::<StepView>::empty() =~= init.filter_map(f));
            },
        }
    }
}

/// A v4 backup imports as every written hosts record (see
/// `law_v4_writes_every_record`), then the trashcan and the tree of its
/// `list`, then the history records when there are any.
pub proof fn law_v4_import(data: Json)
    requires
        data is Object,
        get_str(data, "format"@) != Some("switchhosts-backup"@),
        get_array(data, "version"@) matches Some(v) && major_version(v) == 4,
        json_get(data, "data"@) matches Some(inner) && inner is Object,
    ensures
        ({
            let inner = json_get(data, "data"@)->Some_0;
            let history = array_at3(inner, "collection"@, "history"@, "data"@);
            import_spec(data) == OutcomeView::Apply(
                array_at3(inner, "collection"@, "hosts"@, "data"@).filter_map(
                    |r: Json| v4_record_write(r),
                ) + seq![
                    StepView::SaveTrashcan(array_at2(inner, "list"@, "trashcan"@)),
                    StepView::SaveManifest(array_at2(inner, "list"@, "tree"@)),
                ] + if history.len() > 0 {
                    seq![StepView::WriteHistory(history)]
                } else {
                    Seq::empty()
                },
            )
        }),
{
    let inner = json_get(data, "data"@)->Some_0;
    law_v4_writes_every_record(array_at3(inner, "collection"@, "hosts"@, "data"@));
}
} // verus!
