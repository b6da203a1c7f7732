use switchhosts::json::bridge::parse_json;
use switchhosts::json::model::JsonValue;
use switchhosts::storage::manifest::{collect_content_ids, find_node, insert_node, remove_node};

fn json(text: &str) -> JsonValue {
    parse_json(text.as_bytes()).expect("test JSON parses")
}

fn forest(text: &str) -> Vec<JsonValue> {
    match json(text) {
        JsonValue::Array(a) => a,
        other => panic!("not an array: {other:?}"),
    }
}

const TREE: &str = r#"[
  {"id": "a", "type": "local"},
  {"id": "f", "type": "folder", "children": [
     {"id": "b", "type": "remote"},
     {"id": "g", "type": "folder", "children": [{"id": "c", "type": "local"}]}
  ]},
  {"id": "0", "type": "local", "is_sys": true}
]"#;

#[test]
fn find_node_top_level() {
    let nodes = forest(TREE);
    assert_eq!(find_node(&nodes, "a"), Some(json(r#"{"id": "a", "type": "local"}"#)));
}

#[test]
fn find_node_nested_in_folders() {
    let nodes = forest(TREE);
    assert_eq!(find_node(&nodes, "c"), Some(json(r#"{"id": "c", "type": "local"}"#)));
}

#[test]
fn find_node_missing() {
    let nodes = forest(TREE);
    assert_eq!(find_node(&nodes, "zz"), None);
}

#[test]
fn find_node_prefers_parent_before_children() {
    // "dup" appears inside the folder and later at the top level: the
    // depth-first walk meets the folder's child first.
    let nodes = forest(
        r#"[{"id": "f", "children": [{"id": "dup", "n": 1}]}, {"id": "dup", "n": 2}]"#,
    );
    assert_eq!(find_node(&nodes, "dup"), Some(json(r#"{"id": "dup", "n": 1}"#)));
}

#[test]
fn find_node_ignores_non_string_ids() {
    let nodes = forest(r#"[{"id": 7}, {"id": "7"}]"#);
    assert_eq!(find_node(&nodes, "7"), Some(json(r#"{"id": "7"}"#)));
}

#[test]
fn remove_node_top_level_has_no_parent() {
    let mut nodes = forest(TREE);
    let removed = remove_node(&mut nodes, "a");
    assert_eq!(removed, Some((json(r#"{"id": "a", "type": "local"}"#), None)));
    assert_eq!(nodes.len(), 2);
    assert_eq!(find_node(&nodes, "a"), None);
}

#[test]
fn remove_node_nested_reports_parent_folder() {
    let mut nodes = forest(TREE);
    let removed = remove_node(&mut nodes, "c");
    assert_eq!(removed, Some((json(r#"{"id": "c", "type": "local"}"#), Some("g".to_string()))));
    let expected = forest(
        r#"[
      {"id": "a", "type": "local"},
      {"id": "f", "type": "folder", "children": [
         {"id": "b", "type": "remote"},
         {"id": "g", "type": "folder", "children": []}
      ]},
      {"id": "0", "type": "local", "is_sys": true}
    ]"#,
    );
    assert_eq!(nodes, expected);
}

#[test]
fn remove_node_prefers_shallower_match() {
    // The level is searched before any folder below it.
    let mut nodes = forest(
        r#"[{"id": "f", "children": [{"id": "dup", "n": 1}]}, {"id": "dup", "n": 2}]"#,
    );
    let removed = remove_node(&mut nodes, "dup");
    assert_eq!(removed, Some((json(r#"{"id": "dup", "n": 2}"#), None)));
    assert_eq!(nodes, forest(r#"[{"id": "f", "children": [{"id": "dup", "n": 1}]}]"#));
}

#[test]
fn remove_node_missing_leaves_tree_alone() {
    let mut nodes = forest(TREE);
    assert_eq!(remove_node(&mut nodes, "nope"), None);
    assert_eq!(nodes, forest(TREE));
}

#[test]
fn insert_node_into_nested_folder() {
    let mut nodes = forest(TREE);
    insert_node(&mut nodes, json(r#"{"id": "new"}"#), Some("g"));
    let expected = forest(
        r#"[
      {"id": "a", "type": "local"},
      {"id": "f", "type": "folder", "children": [
         {"id": "b", "type": "remote"},
         {"id": "g", "type": "folder", "children": [{"id": "c", "type": "local"}, {"id": "new"}]}
      ]},
      {"id": "0", "type": "local", "is_sys": true}
    ]"#,
    );
    assert_eq!(nodes, expected);
}

#[test]
fn insert_node_without_parent_goes_to_top_level() {
    let mut nodes = forest(TREE);
    insert_node(&mut nodes, json(r#"{"id": "new"}"#), None);
    assert_eq!(nodes.len(), 4);
    assert_eq!(nodes[3], json(r#"{"id": "new"}"#));
}

#[test]
fn insert_node_unknown_parent_falls_back_to_top_level() {
    let mut nodes = forest(TREE);
    insert_node(&mut nodes, json(r#"{"id": "new"}"#), Some("missing"));
    assert_eq!(nodes.len(), 4);
    assert_eq!(nodes[3], json(r#"{"id": "new"}"#));
}

#[test]
fn insert_node_parent_that_is_not_a_folder_falls_back_to_top_level() {
    let mut nodes = forest(TREE);
    insert_node(&mut nodes, json(r#"{"id": "new"}"#), Some("b"));
    assert_eq!(nodes.len(), 4);
    assert_eq!(nodes[3], json(r#"{"id": "new"}"#));
    assert_eq!(find_node(&nodes, "new"), Some(json(r#"{"id": "new"}"#)));
}

#[test]
fn insert_then_find_finds_the_node() {
    let mut nodes = forest(TREE);
    insert_node(&mut nodes, json(r#"{"id": "x", "children": [{"id": "y"}]}"#), Some("f"));
    assert_eq!(find_node(&nodes, "x"), Some(json(r#"{"id": "x", "children": [{"id": "y"}]}"#)));
    assert_eq!(find_node(&nodes, "y"), Some(json(r#"{"id": "y"}"#)));
    assert_eq!(find_node(&nodes, "c"), Some(json(r#"{"id": "c", "type": "local"}"#)));
}

#[test]
fn collect_content_ids_parents_before_children() {
    let nodes = forest(TREE);
    let mut ids = vec!["seed".to_string()];
    collect_content_ids(&nodes, &mut ids);
    let expected: Vec<String> = ["seed", "a", "b", "c", "0"].iter().map(|s| s.to_string()).collect();
    assert_eq!(ids, expected);
}

#[test]
fn collected_ids_are_all_found() {
    let nodes = forest(TREE);
    let mut ids = Vec::new();
    collect_content_ids(&nodes, &mut ids);
    for id in &ids {
        assert!(find_node(&nodes, id).is_some());
    }
}

#[test]
fn remove_then_find_agree_on_presence() {
    for id in ["a", "f", "b", "g", "c", "0", "none"] {
        let mut nodes = forest(TREE);
        let found = find_node(&nodes, id).is_some();
        let removed = remove_node(&mut nodes, id);
        assert_eq!(found, removed.is_some());
    }
}

#[test]
fn moving_a_node_keeps_every_id_reachable() {
    let text = r#"[{"id": "a"}, {"id": "f", "children": [{"id": "g", "children": [{"id": "b"}]}, {"id": "c"}]}]"#;
    let before = forest(text);
    let mut nodes = forest(text);
    let (removed, parent) = remove_node(&mut nodes, "g").expect("g is in the tree");
    assert_eq!(parent.as_deref(), Some("f"));
    insert_node(&mut nodes, removed, parent.as_deref());
    for id in ["a", "f", "g", "b", "c", "x"] {
        assert_eq!(find_node(&nodes, id).is_some(), find_node(&before, id).is_some(), "{id}");
    }
}
