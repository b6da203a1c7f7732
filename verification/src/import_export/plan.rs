//! What a backup import does, as a sequence of storage writes.
//!
//! A backup is JSON. Importing it never touches the disk directly: it
//! yields either a refusal code (shown by the renderer) or the writes to
//! make, in order. Content files come first, before the trashcan and the
//! manifest file, so that an interrupted import leaves the previous tree in
//! place.

use vstd::prelude::*;
use crate::json::model::{Json, NumberView};
use crate::json::access::{get_array, get_str, json_as_array, json_as_str, json_as_u64, json_get, obj_get, obj_insert};
use crate::storage::tree_model::{jsize, members_size, seq_size, lemma_seq_size_elem, lemma_members_size_elem};

verus! {

/// A storage write, by what it writes.
pub enum StepView {
    /// `entries/<id>.hosts` gets `content`.
    WriteEntry(Seq<char>, Seq<char>),
    /// `trashcan.json` gets these items.
    SaveTrashcan(Seq<Json>),
    /// the manifest file gets this forest.
    SaveManifest(Seq<Json>),
    /// `internal/histories/system-hosts.json` gets these records.
    WriteHistory(Seq<Json>),
}

/// The result of an import: the writes to make, or a refusal code.
pub enum OutcomeView {
    Apply(Seq<StepView>),
    Refused(Seq<char>),
}

// ---- dispatch ------------------------------------------------------------------

/// `version[0]` as an unsigned number, 0 when absent or not one.
pub open spec fn major_version(version: Seq<Json>) -> u64 {
    if version.len() > 0 {
        match json_as_u64(version[0]) {
            Some(u) => u,
            None => 0,
        }
    } else {
        0
    }
}

/// Import of a parsed backup: v5 by its `format`, else v3 / v4 by the
/// major `version`.
pub open spec fn import_spec(data: Json) -> OutcomeView {
    if !(data is Object) {
        OutcomeView::Refused("invalid_data"@)
    } else if get_str(data, "format"@) == Some("switchhosts-backup"@) {
        import_v5_spec(data)
    } else {
        match get_array(data, "version"@) {
            None => OutcomeView::Refused("invalid_data"@),
            Some(version) => {
                let major = major_version(version);
                if major == 3 {
                    import_v3_spec(data)
                } else if major == 4 {
                    import_v4_spec(data)
                } else if major > 4 {
                    OutcomeView::Refused("new_version"@)
                } else {
                    OutcomeView::Refused("invalid_data"@)
                }
            },
        }
    }
}

/// `j.get(a).and_then(|x| x.get(b)).and_then(as_array)`, empty when absent.
pub open spec fn array_at2(j: Json, a: Seq<char>, b: Seq<char>) -> Seq<Json> {
    match json_get(j, a) {
        Some(x) => match get_array(x, b) {
            Some(arr) => arr,
            None => Seq::empty(),
        },
        None => Seq::empty(),
    }
}

/// `j.get(a).get(b).get(c)` as an array, empty when absent.
pub open spec fn array_at3(j: Json, a: Seq<char>, b: Seq<char>, c: Seq<char>) -> Seq<Json> {
    match json_get(j, a) {
        Some(x) => array_at2(x, b, c),
        None => Seq::empty(),
    }
}

// ---- v5 ------------------------------------------------------------------------

/// The entry writes of a v5 backup's `entries` object: one per member, in
/// order, except the system node `0`; content that is not a string is
/// written as empty.
pub open spec fn v5_entry_writes(es: Seq<(Seq<char>, Json)>) -> Seq<StepView>
    decreases es.len(),
{
    if es.len() == 0 {
        Seq::empty()
    } else {
        let (id, cv) = es[0];
        let own = if id == "0"@ {
            Seq::empty()
        } else {
            seq![
                StepView::WriteEntry(
                    id,
                    match json_as_str(cv) {
                        Some(s) => s,
                        None => Seq::empty(),
                    },
                ),
            ]
        };
        own + v5_entry_writes(es.drop_first())
    }
}

pub open spec fn import_v5_spec(data: Json) -> OutcomeView {
    match json_get(data, "manifest"@) {
        Some(m) => if m is Object {
            let root = match get_array(m, "root"@) {
                Some(r) => r,
                None => Seq::empty(),
            };
            let writes = match json_get(data, "entries"@) {
                Some(Json::Object(es)) => v5_entry_writes(es),
                _ => Seq::empty(),
            };
            let items = array_at2(data, "trashcan"@, "items"@);
            OutcomeView::Apply(
                writes + seq![StepView::SaveTrashcan(items), StepView::SaveManifest(root)],
            )
        } else {
            OutcomeView::Refused("invalid_data"@)
        },
        None => OutcomeView::Refused("invalid_data"@),
    }
}

// ---- v4 ------------------------------------------------------------------------

/// The entry writes of v4 `collection.hosts.data` records: those with a
/// string `id` and a string `content`, except the system node `0`.
pub open spec fn v4_entry_writes(records: Seq<Json>) -> Seq<StepView>
    decreases records.len(),
{
    if records.len() == 0 {
        Seq::empty()
    } else {
        let r = records[0];
        let own = match (get_str(r, "id"@), get_str(r, "content"@)) {
            (Some(id), Some(content)) => if id == "0"@ {
                Seq::empty()
            } else {
                seq![StepView::WriteEntry(id, content)]
            },
            _ => Seq::empty(),
        };
        own + v4_entry_writes(records.drop_first())
    }
}

pub open spec fn import_v4_spec(data: Json) -> OutcomeView {
    match json_get(data, "data"@) {
        Some(inner) => if inner is Object {
            let tree = array_at2(inner, "list"@, "tree"@);
            let trash = array_at2(inner, "list"@, "trashcan"@);
            let hosts = array_at3(inner, "collection"@, "hosts"@, "data"@);
            let history = array_at3(inner, "collection"@, "history"@, "data"@);
            let tail = if history.len() > 0 {
                seq![StepView::WriteHistory(history)]
            } else {
                Seq::empty()
            };
            OutcomeView::Apply(
                v4_entry_writes(hosts) + seq![
                    StepView::SaveTrashcan(trash),
                    StepView::SaveManifest(tree),
                ] + tail,
            )
        } else {
            OutcomeView::Refused("invalid_data_key"@)
        },
        None => OutcomeView::Refused("invalid_data_key"@),
    }
}

// ---- v3 ------------------------------------------------------------------------

/// The v3 refresh interval (hours) in seconds.
pub open spec fn interval_seconds(v: Json) -> int {
    match json_as_u64(v) {
        Some(h) => h * 3600,
        None => 0,
    }
}

/// Every `refresh_interval` that a v3 conversion multiplies fits in a
/// `u64` once given in seconds.
pub open spec fn v3_fits_node(n: Json) -> bool
    decreases jsize(n), 0nat,
{
    match n {
        Json::Object(es) => v3_fits_members(es),
        _ => true,
    }
}

pub open spec fn v3_fits_members(es: Seq<(Seq<char>, Json)>) -> bool
    decreases members_size(es), 0nat,
{
    if es.len() == 0 {
        true
    } else {
        let (k, v) = es[0];
        proof {
            lemma_members_size_elem(es, 0);
        }
        let here = if k == "refresh_interval"@ {
            interval_seconds(v) <= u64::MAX
        } else if k == "children"@ {
            match v {
                Json::Array(c) => v3_fits_list(c),
                _ => true,
            }
        } else {
            true
        };
        here && v3_fits_members(es.drop_first())
    }
}

pub open spec fn v3_fits_list(s: Seq<Json>) -> bool
    decreases seq_size(s), 1nat,
{
    if s.len() == 0 {
        true
    } else {
        proof {
            lemma_seq_size_elem(s, 0);
        }
        v3_fits_node(s[0]) && v3_fits_list(s.drop_first())
    }
}

/// The members of a converted v3 node, built up member by member, and
/// the entry writes of its folder so far.
pub open spec fn v3_convert_members(
    es: Seq<(Seq<char>, Json)>,
    out: Seq<(Seq<char>, Json)>,
    writes: Seq<StepView>,
) -> (Seq<(Seq<char>, Json)>, Seq<StepView>)
    decreases members_size(es), 0nat,
{
    if es.len() == 0 {
        (out, writes)
    } else {
        let (k, v) = es[0];
        proof {
            lemma_members_size_elem(es, 0);
        }
        let (out2, writes2) = if k == "where"@ || k == "content"@ {
            (out, writes)
        } else if k == "refresh_interval"@ {
            (
                obj_insert(out, k, Json::Number(NumberView::PosInt(interval_seconds(v) as u64))),
                writes,
            )
        } else if k == "children"@ {
            match v {
                Json::Array(c) => {
                    let (c2, w) = v3_convert_list(c);
                    (obj_insert(out, k, Json::Array(c2)), writes + w)
                },
                _ => (obj_insert(out, k, v), writes),
            }
        } else {
            (obj_insert(out, k, v), writes)
        };
        v3_convert_members(es.drop_first(), out2, writes2)
    }
}

/// The content write that a v3 node carries inline, if any.
pub open spec fn v3_own_write(n: Json) -> Seq<StepView> {
    match (get_str(n, "id"@), get_str(n, "content"@)) {
        (Some(id), Some(content)) => if id != "0"@ {
            seq![StepView::WriteEntry(id, content)]
        } else {
            Seq::empty()
        },
        _ => Seq::empty(),
    }
}

/// A v3 node in the v5 shape (`where` becomes `type`, inline `content`
/// leaves, `refresh_interval` turns from hours to seconds, folders are
/// converted too), with the entry writes of it and its folder.
pub open spec fn v3_convert_node(n: Json) -> (Json, Seq<StepView>)
    decreases jsize(n), 0nat,
{
    match n {
        Json::Object(es) => {
            let (out, writes) = v3_convert_members(es, Seq::empty(), Seq::empty());
            let out2 = match obj_get(es, "where"@) {
                Some(w) => obj_insert(out, "type"@, w),
                None => out,
            };
            (Json::Object(out2), writes + v3_own_write(n))
        },
        _ => (n, Seq::empty()),
    }
}

pub open spec fn v3_convert_list(s: Seq<Json>) -> (Seq<Json>, Seq<StepView>)
    decreases seq_size(s), 1nat,
{
    if s.len() == 0 {
        (Seq::empty(), Seq::empty())
    } else {
        proof {
            lemma_seq_size_elem(s, 0);
        }
        let (a, w1) = v3_convert_node(s[0]);
        let (rest, w2) = v3_convert_list(s.drop_first());
        (seq![a] + rest, w1 + w2)
    }
}

pub open spec fn import_v3_spec(data: Json) -> OutcomeView {
    match get_array(data, "list"@) {
        Some(list) => {
            let (nodes, writes) = v3_convert_list(list);
            OutcomeView::Apply(
                writes + seq![StepView::SaveManifest(nodes), StepView::SaveTrashcan(Seq::empty())],
            )
        },
        None => OutcomeView::Refused("invalid_v3_data"@),
    }
}

/// The backup is handled as v3.
pub open spec fn is_v3_backup(data: Json) -> bool {
    &&& data is Object
    &&& get_str(data, "format"@) != Some("switchhosts-backup"@)
    &&& get_array(data, "version"@) matches Some(v) && major_version(v) == 3
}

/// The inputs on which importing does not overflow: in a v3 backup, every
/// refresh interval fits in a `u64` once turned into seconds.
pub open spec fn import_fits(data: Json) -> bool {
    is_v3_backup(data) ==> match get_array(data, "list"@) {
        Some(list) => v3_fits_list(list),
        None => true,
    }
}

} // verus!
