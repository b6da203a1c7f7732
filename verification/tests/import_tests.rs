use switchhosts::import_export::export::{export_bytes, export_content_ids, export_document};
use switchhosts::import_export::import::{
    history_bytes, import_backup_bytes, import_backup_value, ImportOutcome, ImportStep,
};
use switchhosts::json::bridge::{parse_json, to_vec_pretty};
use switchhosts::json::model::JsonValue;

fn json(text: &str) -> JsonValue {
    parse_json(text.as_bytes()).expect("test JSON parses")
}

fn forest(text: &str) -> Vec<JsonValue> {
    match json(text) {
        JsonValue::Array(a) => a,
        other => panic!("not an array: {other:?}"),
    }
}

fn entry(id: &str, content: &str) -> ImportStep {
    ImportStep::WriteEntry { id: id.to_string(), content: content.to_string() }
}

fn import(text: &str) -> Option<ImportOutcome> {
    import_backup_bytes(text.as_bytes())
}

#[test]
fn unparsable_backup() {
    assert_eq!(import("{oops"), Some(ImportOutcome::Refused("parse_error")));
}

#[test]
fn not_an_object() {
    assert_eq!(import("[1, 2]"), Some(ImportOutcome::Refused("invalid_data")));
}

#[test]
fn no_version() {
    assert_eq!(import(r#"{"list": []}"#), Some(ImportOutcome::Refused("invalid_data")));
    assert_eq!(import(r#"{"version": "3"}"#), Some(ImportOutcome::Refused("invalid_data")));
}

#[test]
fn newer_version() {
    assert_eq!(import(r#"{"version": [6, 0]}"#), Some(ImportOutcome::Refused("new_version")));
}

#[test]
fn older_or_odd_version() {
    assert_eq!(import(r#"{"version": [2]}"#), Some(ImportOutcome::Refused("invalid_data")));
    assert_eq!(import(r#"{"version": []}"#), Some(ImportOutcome::Refused("invalid_data")));
    assert_eq!(import(r#"{"version": ["4"]}"#), Some(ImportOutcome::Refused("invalid_data")));
}

#[test]
fn v3_without_list() {
    assert_eq!(import(r#"{"version": [3, 0]}"#), Some(ImportOutcome::Refused("invalid_v3_data")));
}

#[test]
fn v4_without_data() {
    assert_eq!(import(r#"{"version": [4, 1]}"#), Some(ImportOutcome::Refused("invalid_data_key")));
    assert_eq!(import(r#"{"version": [4, 1], "data": []}"#), Some(ImportOutcome::Refused("invalid_data_key")));
}

#[test]
fn v5_without_manifest() {
    assert_eq!(import(r#"{"format": "switchhosts-backup"}"#), Some(ImportOutcome::Refused("invalid_data")));
    assert_eq!(import(r#"{"format": "switchhosts-backup", "manifest": 3}"#), Some(ImportOutcome::Refused("invalid_data")));
}

#[test]
fn v3_conversion() {
    let text = r#"{
      "version": [3, 5, 2],
      "list": [
        {"id": "0", "title": "System", "where": "local", "content": "sys"},
        {"id": "r1", "where": "remote", "url": "http://x", "refresh_interval": 2, "content": "remote body"},
        {"id": "g1", "where": "folder", "children": [
           {"id": "l1", "where": "local", "content": "local body", "on": true}
        ]},
        7
      ]
    }"#;
    let expected_nodes = forest(
        r#"[
      {"id": "0", "title": "System", "type": "local"},
      {"id": "r1", "url": "http://x", "refresh_interval": 7200, "type": "remote"},
      {"id": "g1", "children": [{"id": "l1", "on": true, "type": "local"}], "type": "folder"},
      7
    ]"#,
    );
    assert_eq!(
        import(text),
        Some(ImportOutcome::Apply(vec![
            entry("r1", "remote body"),
            entry("l1", "local body"),
            ImportStep::SaveManifest { root: expected_nodes },
            ImportStep::SaveTrashcan { items: vec![] },
        ]))
    );
}

#[test]
fn v3_children_writes_precede_own_write() {
    let text = r#"{"version": [3], "list": [
        {"id": "p", "content": "parent", "children": [{"id": "c", "content": "child"}]}
    ]}"#;
    match import(text) {
        Some(ImportOutcome::Apply(steps)) => {
            assert_eq!(steps[0], entry("c", "child"));
            assert_eq!(steps[1], entry("p", "parent"));
        }
        other => panic!("unexpected {other:?}"),
    }
}

#[test]
fn v3_interval_not_a_number_is_zero() {
    let text = r#"{"version": [3], "list": [{"id": "r", "refresh_interval": "soon"}]}"#;
    assert_eq!(
        import(text),
        Some(ImportOutcome::Apply(vec![
            ImportStep::SaveManifest { root: forest(r#"[{"id": "r", "refresh_interval": 0}]"#) },
            ImportStep::SaveTrashcan { items: vec![] },
        ]))
    );
}

#[test]
fn v3_interval_too_large_is_not_imported() {
    let text = r#"{"version": [3], "list": [{"id": "r", "refresh_interval": 18446744073709551615}]}"#;
    assert_eq!(import(text), None);
}

#[test]
fn v4_import() {
    let text = r#"{
      "version": [4, 3, 0, 6140],
      "data": {
        "list": {"tree": [{"id": "a", "type": "local"}], "trashcan": [{"id": "t"}]},
        "collection": {
          "hosts": {"data": [
            {"id": "0", "content": "system"},
            {"id": "a", "content": "A body", "_id": "x"},
            {"id": "b"},
            {"content": "orphan"}
          ]},
          "history": {"data": [{"id": 1, "content": "h"}]}
        }
      }
    }"#;
    assert_eq!(
        import(text),
        Some(ImportOutcome::Apply(vec![
            entry("a", "A body"),
            ImportStep::SaveTrashcan { items: forest(r#"[{"id": "t"}]"#) },
            ImportStep::SaveManifest { root: forest(r#"[{"id": "a", "type": "local"}]"#) },
            ImportStep::WriteHistory { items: forest(r#"[{"id": 1, "content": "h"}]"#) },
        ]))
    );
}

#[test]
fn v4_missing_parts_are_empty_and_no_history() {
    let text = r#"{"version": [4], "data": {}}"#;
    assert_eq!(
        import(text),
        Some(ImportOutcome::Apply(vec![
            ImportStep::SaveTrashcan { items: vec![] },
            ImportStep::SaveManifest { root: vec![] },
        ]))
    );
}

#[test]
fn v5_import() {
    let text = r#"{
      "format": "switchhosts-backup",
      "version": [5, 0, 0, 0],
      "manifest": {"format": "switchhosts-data", "schemaVersion": 1, "root": [{"id": "a"}]},
      "entries": {"a": "A", "0": "sys", "b": 12},
      "trashcan": {"items": [{"id": "t"}]}
    }"#;
    assert_eq!(
        import(text),
        Some(ImportOutcome::Apply(vec![
            entry("a", "A"),
            entry("b", ""),
            ImportStep::SaveTrashcan { items: forest(r#"[{"id": "t"}]"#) },
            ImportStep::SaveManifest { root: forest(r#"[{"id": "a"}]"#) },
        ]))
    );
}

#[test]
fn v5_minimal() {
    let text = r#"{"format": "switchhosts-backup", "manifest": {}}"#;
    assert_eq!(
        import(text),
        Some(ImportOutcome::Apply(vec![
            ImportStep::SaveTrashcan { items: vec![] },
            ImportStep::SaveManifest { root: vec![] },
        ]))
    );
}

#[test]
fn export_then_import_round_trip() {
    let root = forest(
        r#"[{"id": "a", "type": "local"}, {"id": "f", "type": "folder", "children": [{"id": "b", "type": "remote"}]}, {"id": "0", "type": "local"}]"#,
    );
    let ids = export_content_ids(&root);
    assert_eq!(ids, vec!["a".to_string(), "b".to_string()]);
    let entries = vec![("a".to_string(), "A body".to_string()), ("b".to_string(), "B body".to_string())];
    let trash = forest(r#"[{"id": "t", "type": "local"}]"#);
    let doc = export_document(&root, &entries, &trash, "2026-04-11T10:00:00+00:00");
    let bytes = to_vec_pretty(&doc).unwrap();
    let parsed = parse_json(&bytes).unwrap();
    assert_eq!(parsed, doc);
    assert_eq!(
        import_backup_value(&parsed),
        ImportOutcome::Apply(vec![
            entry("a", "A body"),
            entry("b", "B body"),
            ImportStep::SaveTrashcan { items: trash },
            ImportStep::SaveManifest { root },
        ])
    );
}

#[test]
fn export_document_shape() {
    let doc = export_document(&vec![], &vec![("x".into(), "X".into())], &vec![], "T");
    let expected = json(
        r#"{
      "format": "switchhosts-backup",
      "schemaVersion": 1,
      "version": [5, 0, 0, 0],
      "exportedAt": "T",
      "manifest": {"format": "switchhosts-data", "schemaVersion": 1, "root": []},
      "entries": {"x": "X"},
      "trashcan": {"format": "switchhosts-trashcan", "schemaVersion": 1, "items": []}
    }"#,
    );
    assert_eq!(doc, expected);
}

#[test]
fn exported_backup_is_refused_by_version_only_readers() {
    // Older importers read `version[0]`; the export says 5.
    let doc = export_document(&vec![], &vec![], &vec![], "T");
    let v = doc.get_array("version").unwrap();
    assert_eq!(v[0].as_u64(), Some(5));
}

#[test]
fn history_file_bytes() {
    let items = forest(r#"[{"id": 1}]"#);
    let bytes = history_bytes(&items, "h.json").unwrap();
    assert_eq!(String::from_utf8(bytes).unwrap(), "[\n  {\n    \"id\": 1\n  }\n]");
}

fn contents_first_manifest_once(steps: &[ImportStep]) -> bool {
    let k = steps.iter().take_while(|s| matches!(s, ImportStep::WriteEntry { .. })).count();
    let own_ids_ok = steps[..k]
        .iter()
        .all(|s| matches!(s, ImportStep::WriteEntry { id, .. } if id != "0"));
    let no_late_writes = steps[k..].iter().all(|s| !matches!(s, ImportStep::WriteEntry { .. }));
    let manifests = steps.iter().filter(|s| matches!(s, ImportStep::SaveManifest { .. })).count();
    own_ids_ok && no_late_writes && manifests == 1
}

#[test]
fn every_import_writes_contents_first_and_the_manifest_once() {
    let backups = [
        r#"{"version": [3], "list": [{"id": "0", "content": "s"}, {"id": "f", "where": "folder",
            "children": [{"id": "c", "content": "C"}]}, {"id": "x", "content": "X"}]}"#,
        r#"{"version": [4], "data": {"collection": {"hosts": {"data": [{"id": "0", "content": "s"},
            {"id": "a", "content": "A"}]}, "history": {"data": [{"id": 1}]}}}}"#,
        r#"{"format": "switchhosts-backup", "manifest": {"root": []}, "entries": {"0": "s", "a": "A"}}"#,
    ];
    for text in backups {
        match import(text) {
            Some(ImportOutcome::Apply(steps)) => assert!(contents_first_manifest_once(&steps), "{text}"),
            other => panic!("not applied: {other:?}"),
        }
    }
}

#[test]
fn export_bytes_read_back_and_import_with_a_repeated_id() {
    let root = forest(
        r#"[{"id": "a", "type": "local"}, {"id": "f", "type": "folder", "children": [{"id": "a", "type": "local"}, {"id": "b", "type": "remote"}]}]"#,
    );
    let ids = export_content_ids(&root);
    assert_eq!(ids, vec!["a".to_string(), "a".to_string(), "b".to_string()]);
    let entries: Vec<(String, String)> = ids
        .iter()
        .map(|id| (id.clone(), format!("{id} body")))
        .collect();
    let trash = forest(r#"[{"id": "t", "type": "local", "n": -4}]"#);
    let bytes = export_bytes(&root, &entries, &trash, "2026-04-11T10:00:00+00:00", "/tmp/backup.json")
        .expect("printing never fails");
    let doc = export_document(&root, &entries, &trash, "2026-04-11T10:00:00+00:00");
    assert_eq!(parse_json(&bytes), Some(doc));
    assert_eq!(
        import_backup_bytes(&bytes),
        Some(ImportOutcome::Apply(vec![
            entry("a", "a body"),
            entry("b", "b body"),
            ImportStep::SaveTrashcan { items: trash },
            ImportStep::SaveManifest { root },
        ]))
    );
}

#[test]
fn refused_imports_carry_no_writes() {
    for text in ["{oops", "[]", r#"{"version": [9]}"#, r#"{"version": [4]}"#, r#"{"version": [3]}"#] {
        assert!(matches!(import(text), Some(ImportOutcome::Refused(_))), "{text}");
    }
}
