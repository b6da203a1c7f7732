//! Building the v5 backup document.
//!
//! The backup holds the manifest tree, the content of every local and
//! remote node keyed by id, and the trashcan. It carries both the v5
//! `format` discriminator and `version: [5, 0, 0, 0]`, so that the older
//! importers, which read `version[0]`, refuse it as a newer version.

use vstd::prelude::*;
use crate::json::model::{Json, JsonNumber, JsonValue, NumberView, array_view, group_json_view, object_view};
use crate::json::access::{members_insert, obj_insert};
use crate::text::{str_eq, string_of};
use crate::storage::manifest::{
    collect_content_ids, document_bytes, manifest_document, strings_view, versioned_value,
    MANIFEST_FORMAT,
};
use crate::storage::trashcan::{trashcan_document, TRASHCAN_FORMAT};
use crate::storage::tree_model::content_ids;
use crate::storage::error::StorageError;
use crate::json::bridge::{reads_back, spec_json_pretty, spec_parse_json, PARSE_DEPTH};

verus! {

broadcast use group_json_view;

pub const BACKUP_FORMAT: &'static str = "switchhosts-backup";

/// The ids in order, without the system node `0`.
pub open spec fn drop_system_ids(ids: Seq<Seq<char>>) -> Seq<Seq<char>>
    decreases ids.len(),
{
    if ids.len() == 0 {
        Seq::empty()
    } else {
        (if ids[0] == "0"@ {
            Seq::empty()
        } else {
            seq![ids[0]]
        }) + drop_system_ids(ids.drop_first())
    }
}

/// The nodes whose content a backup embeds: every local/remote node of
/// the tree, parents before children, except the system node `0`.
pub fn export_content_ids(root: &[JsonValue]) -> (r: Vec<String>)
    ensures
        strings_view(r@) == drop_system_ids(content_ids(array_view(root@))),
{
    let mut all: Vec<String> = Vec::new();
    collect_content_ids(root, &mut all);
    assert(strings_view(all@) =~= content_ids(array_view(root@)));
    let ghost ids = strings_view(all@);
    let mut out: Vec<String> = Vec::new();
    let mut i: usize = 0;
    assert(ids.skip(0) =~= ids);
    while i < all.len()
        invariant
            i <= all@.len(),
            ids == strings_view(all@),
            drop_system_ids(ids) == strings_view(out@) + drop_system_ids(ids.skip(i as int)),
        decreases all@.len() - i,
    {
        let ghost rest = ids.skip(i as int);
        assert(rest[0] == ids[i as int]);
        assert(rest.drop_first() =~= ids.skip(i + 1));
        let ghost before = strings_view(out@);
        if !str_eq(all[i].as_str(), "0") {
            out.push(all[i].clone());
        }
        assert(before + drop_system_ids(rest) =~= strings_view(out@) + drop_system_ids(
            ids.skip(i + 1),
        ));
        i = i + 1;
    }
    assert(ids.skip(i as int) =~= Seq::<Seq<char>>::empty());
    assert(strings_view(out@) + Seq::<Seq<char>>::empty() =~= strings_view(out@));
    out
}

pub open spec fn pairs_view(v: Seq<(String, String)>) -> Seq<(Seq<char>, Seq<char>)> {
    v.map_values(|p: (String, String)| (p.0@, p.1@))
}

/// The `entries` object of a backup: each (id, content) inserted in turn.
pub open spec fn entries_members(pairs: Seq<(Seq<char>, Seq<char>)>) -> Seq<(Seq<char>, Json)>
    decreases pairs.len(),
{
    if pairs.len() == 0 {
        Seq::empty()
    } else {
        obj_insert(entries_members(pairs.drop_last()), pairs.last().0, Json::Str(pairs.last().1))
    }
}

/// `[5, 0, 0, 0]`.
pub open spec fn backup_version() -> Json {
    Json::Array(
        seq![
            Json::Number(NumberView::PosInt(5)),
            Json::Number(NumberView::PosInt(0)),
            Json::Number(NumberView::PosInt(0)),
            Json::Number(NumberView::PosInt(0)),
        ],
    )
}

/// The v5 backup document.
pub open spec fn backup_document(
    root: Seq<Json>,
    entries: Seq<(Seq<char>, Seq<char>)>,
    trash_items: Seq<Json>,
    exported_at: Seq<char>,
) -> Json {
    Json::Object(
        seq![
            ("format"@, Json::Str(BACKUP_FORMAT@)),
            ("schemaVersion"@, Json::Number(NumberView::PosInt(1))),
            ("version"@, backup_version()),
            ("exportedAt"@, Json::Str(exported_at)),
            ("manifest"@, manifest_document(root)),
            ("entries"@, Json::Object(entries_members(entries))),
            ("trashcan"@, trashcan_document(trash_items)),
        ],
    )
}

fn entries_value(entries: &Vec<(String, String)>) -> (r: JsonValue)
    ensures
        r@ == Json::Object(entries_members(pairs_view(entries@))),
{
    let ghost pv = pairs_view(entries@);
    let mut es: Vec<(String, JsonValue)> = Vec::new();
    let mut i: usize = 0;
    assert(pv.take(0) =~= Seq::<(Seq<char>, Seq<char>)>::empty());
    while i < entries.len()
        invariant
            i <= entries@.len(),
            pv == pairs_view(entries@),
            object_view(es@) == entries_members(pv.take(i as int)),
        decreases entries@.len() - i,
    {
        assert(pv.take(i + 1).drop_last() =~= pv.take(i as int));
        assert(pv.take(i + 1).last() == pv[i as int]);
        members_insert(&mut es, entries[i].0.clone(), JsonValue::Str(entries[i].1.clone()));
        i = i + 1;
    }
    assert(pv.take(i as int) =~= pv);
    JsonValue::Object(es)
}

/// The backup document for the tree `root`, the contents `entries`
/// (id, content), the trashcan `trash_items` and the export time
/// `exported_at` (RFC 3339).
pub fn export_document(
    root: &Vec<JsonValue>,
    entries: &Vec<(String, String)>,
    trash_items: &Vec<JsonValue>,
    exported_at: &str,
) -> (r: JsonValue)
    ensures
        r@ == backup_document(
            array_view(root@),
            pairs_view(entries@),
            array_view(trash_items@),
            exported_at@,
        ),
{
    let mut version: Vec<JsonValue> = Vec::new();
    version.push(JsonValue::Number(JsonNumber::from_u64(5)));
    version.push(JsonValue::Number(JsonNumber::from_u64(0)));
    version.push(JsonValue::Number(JsonNumber::from_u64(0)));
    version.push(JsonValue::Number(JsonNumber::from_u64(0)));
    let ghost vv = array_view(version@);
    assert(vv =~= seq![
        Json::Number(NumberView::PosInt(5)),
        Json::Number(NumberView::PosInt(0)),
        Json::Number(NumberView::PosInt(0)),
        Json::Number(NumberView::PosInt(0)),
    ]);
    let mut es: Vec<(String, JsonValue)> = Vec::new();
    es.push((string_of("format"), JsonValue::Str(string_of(BACKUP_FORMAT))));
    es.push((string_of("schemaVersion"), JsonValue::Number(JsonNumber::from_u64(1))));
    es.push((string_of("version"), JsonValue::Array(version)));
    es.push((string_of("exportedAt"), JsonValue::Str(string_of(exported_at))));
    es.push((string_of("manifest"), versioned_value(MANIFEST_FORMAT, "root", root)));
    es.push((string_of("entries"), entries_value(entries)));
    es.push((string_of("trashcan"), versioned_value(TRASHCAN_FORMAT, "items", trash_items)));
    assert(object_view(es@) =~= seq![
        ("format"@, Json::Str(BACKUP_FORMAT@)),
        ("schemaVersion"@, Json::Number(NumberView::PosInt(1))),
        ("version"@, backup_version()),
        ("exportedAt"@, Json::Str(exported_at@)),
        ("manifest"@, manifest_document(array_view(root@))),
        ("entries"@, Json::Object(entries_members(pairs_view(entries@)))),
        ("trashcan"@, trashcan_document(array_view(trash_items@))),
    ]);
    JsonValue::Object(es)
}

/// The bytes of the backup file (see `export_document`), to be written to
/// `path`. Printing always succeeds; a backup whose document reads back
/// parses back to that document.
pub fn export_bytes(
    root: &Vec<JsonValue>,
    entries: &Vec<(String, String)>,
    trash_items: &Vec<JsonValue>,
    exported_at: &str,
    path: &str,
) -> (r: Result<Vec<u8>, StorageError>)
    ensures
        r is Ok,
        r matches Ok(b) ==> b@ == spec_json_pretty(
            backup_document(array_view(root@), pairs_view(entries@), array_view(trash_items@), exported_at@),
        ),
        r matches Ok(b) ==> ({
            let doc = backup_document(
                array_view(root@),
                pairs_view(entries@),
                array_view(trash_items@),
                exported_at@,
            );
            reads_back(doc, PARSE_DEPTH as int) ==> spec_parse_json(b@) == Some(doc)
        }),
{
    let doc = export_document(root, entries, trash_items, exported_at);
    document_bytes(&doc, path)
}

} // verus!
