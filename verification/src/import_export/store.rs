//! The storage files as a mathematical store, and what an import does to
//! it: a refused import changes nothing, and importing an exported backup
//! gives back the exported tree, trashcan and contents.

use vstd::prelude::*;
use crate::json::model::Json;
use crate::json::access::{distinct_keys, first_key_at, has_key, json_as_str, key_index, obj_insert};
use crate::json::access::{get_str, lemma_key_index};
use crate::json::bridge::spec_parse_json;
use super::plan::{OutcomeView, StepView, import_fits, import_spec, v5_entry_writes};
use super::export::{backup_document, entries_members};
use super::laws::law_export_import_roundtrip;

verus! {

/// What the data directory holds: the manifest tree, the trashcan items,
/// the content file of each node id, and the apply-history records.
pub struct StoreView {
    pub tree: Seq<Json>,
    pub trash: Seq<Json>,
    pub entries: Map<Seq<char>, Seq<char>>,
    pub history: Seq<Json>,
}

/// The store after one write.
pub open spec fn apply_step(s: StoreView, step: StepView) -> StoreView {
    match step {
        StepView::WriteEntry(id, c) => StoreView {
            tree: s.tree,
            trash: s.trash,
            entries: s.entries.insert(id, c),
            history: s.history,
        },
        StepView::SaveTrashcan(items) => StoreView {
            tree: s.tree,
            trash: items,
            entries: s.entries,
            history: s.history,
        },
        StepView::SaveManifest(root) => StoreView {
            tree: root,
            trash: s.trash,
            entries: s.entries,
            history: s.history,
        },
        StepView::WriteHistory(items) => StoreView {
            tree: s.tree,
            trash: s.trash,
            entries: s.entries,
            history: items,
        },
    }
}

/// The store after the writes, in order.
pub open spec fn apply_steps(s: StoreView, steps: Seq<StepView>) -> StoreView
    decreases steps.len(),
{
    if steps.len() == 0 {
        s
    } else {
        apply_steps(apply_step(s, steps[0]), steps.drop_first())
    }
}

/// The store after an import: its writes in order, or nothing at all when
/// it is refused.
pub open spec fn after_import(s: StoreView, o: OutcomeView) -> StoreView {
    match o {
        OutcomeView::Apply(steps) => apply_steps(s, steps),
        OutcomeView::Refused(_) => s,
    }
}

/// A refused import leaves every file as it was.
pub proof fn law_refused_import_keeps_store(data: Json, s: StoreView)
    ensures
        import_spec(data) is Refused ==> after_import(s, import_spec(data)) == s,
{
}

proof fn lemma_apply_steps_concat(s: StoreView, a: Seq<StepView>, b: Seq<StepView>)
    ensures
        apply_steps(s, a + b) == apply_steps(apply_steps(s, a), b),
    decreases a.len(),
{
    if a.len() == 0 {
        assert(a + b =~= b);
    } else {
        assert((a + b)[0] == a[0]);
        assert((a + b).drop_first() =~= a.drop_first() + b);
        lemma_apply_steps_concat(apply_step(s, a[0]), a.drop_first(), b);
    }
}

proof fn lemma_apply_one(s: StoreView, x: StepView)
    ensures
        apply_steps(s, seq![x]) == apply_step(s, x),
{
    reveal_with_fuel(apply_steps, 2);
    assert(seq![x][0] == x);
    assert(seq![x].drop_first() =~= Seq::<StepView>::empty());
}

/// A v5 content value as it is written: the string, or empty.
pub open spec fn str_or_empty(j: Json) -> Seq<char> {
    match json_as_str(j) {
        Some(c) => c,
        None => Seq::empty(),
    }
}

/// The content files after the writes of the v5 `entries` members `es`.
pub open spec fn write_members(m: Map<Seq<char>, Seq<char>>, es: Seq<(Seq<char>, Json)>) -> Map<
    Seq<char>,
    Seq<char>,
>
    decreases es.len(),
{
    if es.len() == 0 {
        m
    } else {
        let m2 = if es[0].0 == "0"@ {
            m
        } else {
            m.insert(es[0].0, str_or_empty(es[0].1))
        };
        write_members(m2, es.drop_first())
    }
}

proof fn lemma_v5_writes_store(s: StoreView, es: Seq<(Seq<char>, Json)>)
    ensures
        apply_steps(s, v5_entry_writes(es)) == (StoreView {
            tree: s.tree,
            trash: s.trash,
            entries: write_members(s.entries, es),
            history: s.history,
        }),
    decreases es.len(),
{
    if es.len() > 0 {
        let own = if es[0].0 == "0"@ {
            Seq::<StepView>::empty()
        } else {
            seq![StepView::WriteEntry(es[0].0, str_or_empty(es[0].1))]
        };
        assert(v5_entry_writes(es) == own + v5_entry_writes(es.drop_first()));
        lemma_apply_steps_concat(s, own, v5_entry_writes(es.drop_first()));
        if es[0].0 != "0"@ {
            lemma_apply_one(s, StepView::WriteEntry(es[0].0, str_or_empty(es[0].1)));
        }
        lemma_v5_writes_store(apply_steps(s, own), es.drop_first());
    }
}

proof fn lemma_write_members(m: Map<Seq<char>, Seq<char>>, es: Seq<(Seq<char>, Json)>)
    requires
        distinct_keys(es),
    ensures
        forall|j: int|
            0 <= j < es.len() && es[j].0 != "0"@ ==> #[trigger] write_members(m, es).contains_key(
                es[j].0,
            ) && write_members(m, es)[es[j].0] == str_or_empty(es[j].1),
        forall|k: Seq<char>|
            (k == "0"@ || forall|j: int| 0 <= j < es.len() ==> es[j].0 != k) ==> (
            #[trigger] write_members(m, es).contains_key(k) == m.contains_key(k) && (
            m.contains_key(k) ==> write_members(m, es)[k] == m[k])),
    decreases es.len(),
{
    if es.len() > 0 {
        let rest = es.drop_first();
        assert(distinct_keys(rest)) by {
            assert forall|a: int, b: int| 0 <= a < b < rest.len() implies rest[a].0 != rest[b].0 by {
                assert(rest[a] == es[a + 1] && rest[b] == es[b + 1]);
            }
        }
        let m2 = if es[0].0 == "0"@ {
            m
        } else {
            m.insert(es[0].0, str_or_empty(es[0].1))
        };
        lemma_write_members(m2, rest);
        let r = write_members(m, es);
        assert(r == write_members(m2, rest));
        assert forall|j: int| 0 <= j < es.len() && es[j].0 != "0"@ implies #[trigger] r.contains_key(
            es[j].0,
        ) && r[es[j].0] == str_or_empty(es[j].1) by {
            if j == 0 {
                assert forall|i: int| 0 <= i < rest.len() implies rest[i].0 != es[0].0 by {
                    assert(rest[i] == es[i + 1]);
                }
            } else {
                assert(rest[j - 1] == es[j]);
            }
        }
        assert forall|k: Seq<char>|
            (k == "0"@ || forall|j: int| 0 <= j < es.len() ==> es[j].0 != k) implies (
            #[trigger] r.contains_key(k) == m.contains_key(k) && (m.contains_key(k) ==> r[k]
                == m[k])) by {
            if k != "0"@ {
                assert(es[0].0 != k);
                assert forall|i: int| 0 <= i < rest.len() implies rest[i].0 != k by {
                    assert(rest[i] == es[i + 1]);
                }
            }
            assert(write_members(m2, rest).contains_key(k) == m2.contains_key(k));
            assert(m2.contains_key(k) == m.contains_key(k));
            if m.contains_key(k) {
                assert(m2[k] == m[k]);
                assert(write_members(m2, rest)[k] == m2[k]);
            }
        }
    }
}

/// Pairs that share an id share the content (an export reads one file per
/// id).
pub open spec fn consistent_pairs(pairs: Seq<(Seq<char>, Seq<char>)>) -> bool {
    forall|i: int, j: int|
        0 <= i < pairs.len() && 0 <= j < pairs.len() && pairs[i].0 == pairs[j].0 ==> pairs[i].1
            == pairs[j].1
}

/// The `entries` object of an export: distinct keys, each one an exported
/// id, each holding a string; and, for consistent pairs, every pair among
/// its members.
proof fn lemma_entries_members(pairs: Seq<(Seq<char>, Seq<char>)>)
    ensures
        distinct_keys(entries_members(pairs)),
        forall|j: int|
            0 <= j < entries_members(pairs).len() ==> exists|i: int|
                0 <= i < pairs.len() && pairs[i].0 == (#[trigger] entries_members(pairs)[j]).0,
        consistent_pairs(pairs) ==> forall|i: int|
            0 <= i < pairs.len() ==> exists|j: int|
                0 <= j < entries_members(pairs).len() && #[trigger] entries_members(pairs)[j] == (
                pairs[i].0, Json::Str(#[trigger] pairs[i].1)),
    decreases pairs.len(),
{
    if pairs.len() > 0 {
        let init = pairs.drop_last();
        lemma_entries_members(init);
        let em0 = entries_members(init);
        let k = pairs.last().0;
        let v = Json::Str(pairs.last().1);
        let em = entries_members(pairs);
        assert(em == obj_insert(em0, k, v));
        let last = pairs.len() - 1;
        if has_key(em0, k) {
            let idx = key_index(em0, k);
            assert(first_key_at(em0, k, idx));
            assert(em == em0.update(idx, (k, v)));
            assert forall|a: int, b: int| 0 <= a < b < em.len() implies em[a].0 != em[b].0 by {
                assert(em0[a].0 != em0[b].0);
            }
            assert forall|j: int| 0 <= j < em.len() implies exists|i: int|
                0 <= i < pairs.len() && pairs[i].0 == (#[trigger] em[j]).0 by {
                if j == idx {
                    assert(pairs[last].0 == em[j].0);
                } else {
                    let i = choose|i: int| 0 <= i < init.len() && init[i].0 == em0[j].0;
                    assert(pairs[i] == init[i]);
                }
            }
            if consistent_pairs(pairs) {
                assert(consistent_pairs(init)) by {
                    assert forall|i: int, j: int|
                        0 <= i < init.len() && 0 <= j < init.len() && init[i].0 == init[j].0 implies init[i].1
                        == init[j].1 by {
                        assert(init[i] == pairs[i] && init[j] == pairs[j]);
                    }
                }
                assert forall|i: int| 0 <= i < pairs.len() implies exists|j: int|
                    0 <= j < em.len() && #[trigger] em[j] == (pairs[i].0, Json::Str(
                        #[trigger] pairs[i].1,
                    )) by {
                    if i == last {
                        assert(em[idx] == (pairs[i].0, Json::Str(pairs[i].1)));
                    } else {
                        assert(init[i] == pairs[i]);
                        let j = choose|j: int|
                            0 <= j < em0.len() && #[trigger] em0[j] == (init[i].0, Json::Str(
                                init[i].1,
                            ));
                        if j == idx {
                            assert(pairs[i].1 == pairs[last].1);
                            assert(em[idx] == (pairs[i].0, Json::Str(pairs[i].1)));
                        } else {
                            assert(em[j] == em0[j]);
                        }
                    }
                }
            }
        } else {
            assert(em == em0.push((k, v)));
            assert forall|j: int| 0 <= j < em0.len() implies em0[j].0 != k by {
                if em0[j].0 == k {
                    assert(first_key_at(em0, k, j));
                }
            }
            assert forall|a: int, b: int| 0 <= a < b < em.len() implies em[a].0 != em[b].0 by {
                if b == em0.len() {
                    assert(em[a] == em0[a]);
                } else {
                    assert(em0[a].0 != em0[b].0);
                }
            }
            assert forall|j: int| 0 <= j < em.len() implies exists|i: int|
                0 <= i < pairs.len() && pairs[i].0 == (#[trigger] em[j]).0 by {
                if j == em0.len() {
                    assert(pairs[last].0 == em[j].0);
                } else {
                    let i = choose|i: int| 0 <= i < init.len() && init[i].0 == em0[j].0;
                    assert(pairs[i] == init[i]);
                }
            }
            if consistent_pairs(pairs) {
                assert(consistent_pairs(init)) by {
                    assert forall|i: int, j: int|
                        0 <= i < init.len() && 0 <= j < init.len() && init[i].0 == init[j].0 implies init[i].1
                        == init[j].1 by {
                        assert(init[i] == pairs[i] && init[j] == pairs[j]);
                    }
                }
                assert forall|i: int| 0 <= i < pairs.len() implies exists|j: int|
                    0 <= j < em.len() && #[trigger] em[j] == (pairs[i].0, Json::Str(
                        #[trigger] pairs[i].1,
                    )) by {
                    if i == last {
                        assert(em[em0.len() as int] == (pairs[i].0, Json::Str(pairs[i].1)));
                    } else {
                        assert(init[i] == pairs[i]);
                        let j = choose|j: int|
                            0 <= j < em0.len() && #[trigger] em0[j] == (init[i].0, Json::Str(
                                init[i].1,
                            ));
                        assert(em[j] == em0[j]);
                    }
                }
            }
        }
    }
}

/// Importing an exported backup into any store gives back the exported
/// tree and trashcan, writes each exported content to its node (the system
/// node `0` excepted), leaves every other content file and the apply
/// history as they were. Ids may repeat, as a tree can name a node twice.
pub proof fn law_export_import_store(
    root: Seq<Json>,
    pairs: Seq<(Seq<char>, Seq<char>)>,
    trash_items: Seq<Json>,
    exported_at: Seq<char>,
    s: StoreView,
)
    requires
        consistent_pairs(pairs),
    ensures
        ({
            let t = after_import(s, import_spec(backup_document(root, pairs, trash_items, exported_at)));
            &&& t.tree == root
            &&& t.trash == trash_items
            &&& t.history == s.history
            &&& forall|i: int|
                0 <= i < pairs.len() && pairs[i].0 != "0"@ ==> #[trigger] t.entries.contains_key(
                    pairs[i].0,
                ) && t.entries[pairs[i].0] == pairs[i].1
            &&& forall|k: Seq<char>|
                (k == "0"@ || forall|i: int| 0 <= i < pairs.len() ==> pairs[i].0 != k) ==> (
                #[trigger] t.entries.contains_key(k) == s.entries.contains_key(k) && (
                s.entries.contains_key(k) ==> t.entries[k] == s.entries[k]))
        }),
{
    law_export_import_roundtrip(root, pairs, trash_items, exported_at);
    let em = entries_members(pairs);
    let writes = v5_entry_writes(em);
    let tail = seq![StepView::SaveTrashcan(trash_items), StepView::SaveManifest(root)];
    lemma_apply_steps_concat(s, writes, tail);
    lemma_v5_writes_store(s, em);
    let s1 = apply_steps(s, writes);
    assert(tail.drop_first() =~= seq![StepView::SaveManifest(root)]);
    lemma_apply_one(apply_step(s1, tail[0]), StepView::SaveManifest(root));
    let t = apply_steps(s1, tail);
    assert(t.entries == write_members(s.entries, em));
    lemma_entries_members(pairs);
    lemma_write_members(s.entries, em);
    assert forall|i: int| 0 <= i < pairs.len() && pairs[i].0 != "0"@ implies #[trigger] t.entries.contains_key(
        pairs[i].0,
    ) && t.entries[pairs[i].0] == pairs[i].1 by {
        let j = choose|j: int|
            0 <= j < em.len() && #[trigger] em[j] == (pairs[i].0, Json::Str(#[trigger] pairs[i].1));
        assert(str_or_empty(em[j].1) == pairs[i].1);
    }
    assert forall|k: Seq<char>|
        (k == "0"@ || forall|i: int| 0 <= i < pairs.len() ==> pairs[i].0 != k) implies (
        #[trigger] t.entries.contains_key(k) == s.entries.contains_key(k) && (s.entries.contains_key(k)
            ==> t.entries[k] == s.entries[k])) by {
        if k != "0"@ {
            assert forall|j: int| 0 <= j < em.len() implies em[j].0 != k by {
                let i = choose|i: int| 0 <= i < pairs.len() && pairs[i].0 == (#[trigger] em[j]).0;
            }
        }
    }
}

/// Importing the bytes of an export (which parse back to the backup
/// document whenever it reads back; see `export_bytes`): the import is not
/// refused for overflow, and the store ends up as `law_export_import_store`
/// says.
pub proof fn law_export_bytes_import(
    root: Seq<Json>,
    pairs: Seq<(Seq<char>, Seq<char>)>,
    trash_items: Seq<Json>,
    exported_at: Seq<char>,
    bytes: Seq<u8>,
    s: StoreView,
)
    requires
        consistent_pairs(pairs),
        spec_parse_json(bytes) == Some(backup_document(root, pairs, trash_items, exported_at)),
    ensures
        spec_parse_json(bytes) matches Some(d) && import_fits(d) && ({
            let t = after_import(s, import_spec(d));
            &&& t.tree == root
            &&& t.trash == trash_items
            &&& t.history == s.history
            &&& forall|i: int|
                0 <= i < pairs.len() && pairs[i].0 != "0"@ ==> #[trigger] t.entries.contains_key(
                    pairs[i].0,
                ) && t.entries[pairs[i].0] == pairs[i].1
            &&& forall|k: Seq<char>|
                (k == "0"@ || forall|i: int| 0 <= i < pairs.len() ==> pairs[i].0 != k) ==> (
                #[trigger] t.entries.contains_key(k) == s.entries.contains_key(k) && (
                s.entries.contains_key(k) ==> t.entries[k] == s.entries[k]))
        }),
{
    reveal_strlit("format");
    let doc = backup_document(root, pairs, trash_items, exported_at);
    let es = doc->Object_0;
    assert(first_key_at(es, "format"@, 0));
    lemma_key_index(es, "format"@, 0);
    assert(get_str(doc, "format"@) == Some(super::export::BACKUP_FORMAT@));
    law_export_import_store(root, pairs, trash_items, exported_at, s);
}

} // verus!
