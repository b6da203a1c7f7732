use switchhosts::json::bridge::parse_json;
use switchhosts::json::model::JsonValue;
use switchhosts::storage::entries::{entry_path, write_entry};
use switchhosts::storage::error::StorageError;
use switchhosts::storage::manifest::{Manifest, MANIFEST_FORMAT, MANIFEST_SCHEMA_VERSION};
use switchhosts::storage::trashcan::Trashcan;

fn json(text: &str) -> JsonValue {
    parse_json(text.as_bytes()).expect("test JSON parses")
}

#[test]
fn entry_path_joins_directory_and_id() {
    assert_eq!(entry_path("/home/u/.SwitchHosts/entries", "abc-123"), Ok("/home/u/.SwitchHosts/entries/abc-123.hosts".to_string()));
}

#[test]
fn entry_path_directory_with_trailing_slash() {
    assert_eq!(entry_path("entries/", "x"), Ok("entries/x.hosts".to_string()));
}

#[test]
fn entry_path_empty_directory() {
    assert_eq!(entry_path("", "x"), Ok("x.hosts".to_string()));
}

fn illegal(id: &str, shown: &str) -> Result<String, StorageError> {
    Err(StorageError::InvalidConfigValue {
        key: "entry_id".to_string(),
        reason: format!("illegal entry id: {shown}"),
    })
}

#[test]
fn entry_path_rejects_empty_id() {
    assert_eq!(entry_path("e", ""), illegal("", "\"\""));
}

#[test]
fn entry_path_rejects_slash() {
    assert_eq!(entry_path("e", "a/b"), illegal("a/b", "\"a/b\""));
}

#[test]
fn entry_path_rejects_backslash() {
    assert_eq!(entry_path("e", "a\\b"), illegal("a\\b", "\"a\\\\b\""));
}

#[test]
fn entry_path_rejects_nul() {
    assert_eq!(entry_path("e", "a\0b"), illegal("a\0b", "\"a\\0b\""));
}

#[test]
fn entry_path_rejects_parent_reference() {
    assert_eq!(entry_path("e", ".."), illegal("..", "\"..\""));
    assert_eq!(entry_path("e", "x..y"), illegal("x..y", "\"x..y\""));
}

#[test]
fn entry_path_accepts_single_dots() {
    assert_eq!(entry_path("e", ".a.b."), Ok("e/.a.b..hosts".to_string()));
}

#[test]
fn write_entry_gives_path_and_utf8_bytes() {
    let (path, bytes) = write_entry("e", "id1", "127.0.0.1 ä.test\n").expect("valid id");
    assert_eq!(path, "e/id1.hosts");
    assert_eq!(bytes, "127.0.0.1 ä.test\n".as_bytes().to_vec());
}

#[test]
fn write_entry_rejects_bad_id() {
    assert!(matches!(write_entry("e", "../x", "c"), Err(StorageError::InvalidConfigValue { .. })));
}

#[test]
fn manifest_default_is_empty_current_format() {
    let m = Manifest::default();
    assert_eq!(m.format, MANIFEST_FORMAT);
    assert_eq!(m.format, "switchhosts-data");
    assert_eq!(m.schema_version, MANIFEST_SCHEMA_VERSION);
    assert_eq!(m.schema_version, 1);
    assert!(m.root.is_empty());
}

#[test]
fn manifest_save_pretty_document_in_fixed_order() {
    let m = Manifest {
        format: "something-else".to_string(),
        schema_version: 9,
        root: vec![json(r#"{"id": "a", "title": "A"}"#)],
    };
    let bytes = m.save("/tmp/m.json").expect("prints");
    let text = String::from_utf8(bytes).unwrap();
    let expected = "{\n  \"format\": \"switchhosts-data\",\n  \"schemaVersion\": 1,\n  \"root\": [\n    {\n      \"id\": \"a\",\n      \"title\": \"A\"\n    }\n  ]\n}";
    assert_eq!(text, expected);
}

#[test]
fn manifest_save_empty_root() {
    let bytes = Manifest::default().save("p").expect("prints");
    assert_eq!(String::from_utf8(bytes).unwrap(), "{\n  \"format\": \"switchhosts-data\",\n  \"schemaVersion\": 1,\n  \"root\": []\n}");
}

#[test]
fn trashcan_save_document() {
    let t = Trashcan { format: String::new(), schema_version: 0, items: vec![json(r#"{"id": "t"}"#)] };
    let bytes = t.save("p").expect("prints");
    assert_eq!(String::from_utf8(bytes).unwrap(), "{\n  \"format\": \"switchhosts-trashcan\",\n  \"schemaVersion\": 1,\n  \"items\": [\n    {\n      \"id\": \"t\"\n    }\n  ]\n}");
}

#[test]
fn trashcan_default_is_empty() {
    let t = Trashcan::default();
    assert_eq!(t.format, "switchhosts-trashcan");
    assert_eq!(t.schema_version, 1);
    assert!(t.items.is_empty());
}
