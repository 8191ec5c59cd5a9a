use rsmgclient::format::{
    bytes_le_exec, join, map_to_string, mg_map_to_string, node_to_string, quoted,
    relationship_to_string, sort_entries_by_key,
};

fn entry(key: &str, value: &str) -> (String, String) {
    (key.to_string(), value.to_string())
}

fn strings(parts: &[&str]) -> Vec<String> {
    parts.iter().map(|p| p.to_string()).collect()
}

/// The text of the relationship used as a property value in the display scenarios.
fn rel_text() -> String {
    relationship_to_string("test", &mg_map_to_string(vec![entry("name", "NULL")]))
}

#[test]
fn relationship_display() {
    assert_eq!(rel_text(), "[:test {'name': NULL}]");
}

#[test]
fn map_display_in_key_order() {
    let entries = vec![
        entry("name", "NULL"),
        entry("rel", &rel_text()),
        entry("is_it", "true"),
        entry("id", "128"),
    ];
    assert_eq!(
        mg_map_to_string(entries),
        "{'id': 128, 'is_it': true, 'name': NULL, 'rel': [:test {'name': NULL}]}"
    );
}

#[test]
fn node_display() {
    let properties = mg_map_to_string(vec![entry("rel", &rel_text()), entry("id", "128")]);
    assert_eq!(
        node_to_string(&strings(&["test"]), &properties),
        "(:test {'id': 128, 'rel': [:test {'name': NULL}]})"
    );
}

#[test]
fn relationship_with_properties_display() {
    let properties = mg_map_to_string(vec![entry("rel", &rel_text()), entry("id", "128")]);
    assert_eq!(
        relationship_to_string("test", &properties),
        "[:test {'id': 128, 'rel': [:test {'name': NULL}]}]"
    );
}

#[test]
fn node_with_several_labels() {
    assert_eq!(
        node_to_string(&strings(&["Person", "Employee"]), "{}"),
        "(:Person, Employee {})"
    );
}

#[test]
fn list_display() {
    assert_eq!(
        join(&strings(&["NULL", "true", "130", &rel_text()]), ", "),
        "NULL, true, 130, [:test {'name': NULL}]"
    );
}

#[test]
fn join_edges() {
    assert_eq!(join(&Vec::new(), ", "), "");
    assert_eq!(join(&strings(&["only"]), ", "), "only");
    assert_eq!(join(&strings(&["a", "b", "c"]), "-"), "a-b-c");
}

#[test]
fn empty_map_display() {
    assert_eq!(mg_map_to_string(Vec::new()), "{}");
}

#[test]
fn string_display_is_quoted() {
    assert_eq!(quoted("ṰⱻⱾᵀ"), "'ṰⱻⱾᵀ'");
    assert_eq!(quoted(""), "''");
}

#[test]
fn map_text_does_not_depend_on_entry_order() {
    let a = vec![entry("x", "1"), entry("y", "2"), entry("z", "3")];
    let b = vec![entry("z", "3"), entry("x", "1"), entry("y", "2")];
    let c = vec![entry("y", "2"), entry("z", "3"), entry("x", "1")];
    let expected = "{'x': 1, 'y': 2, 'z': 3}";
    assert_eq!(mg_map_to_string(a), expected);
    assert_eq!(mg_map_to_string(b), expected);
    assert_eq!(mg_map_to_string(c), expected);
}

#[test]
fn keys_sort_by_bytes() {
    let sorted = sort_entries_by_key(vec![
        entry("b", "1"),
        entry("ab", "2"),
        entry("a", "3"),
        entry("B", "4"),
        entry("é", "5"),
        entry("z", "6"),
    ]);
    let keys: Vec<&str> = sorted.iter().map(|e| e.0.as_str()).collect();
    assert_eq!(keys, vec!["B", "a", "ab", "b", "z", "é"]);
}

#[test]
fn sort_keeps_every_entry() {
    let sorted = sort_entries_by_key(vec![entry("k", "1"), entry("k", "2"), entry("a", "3")]);
    assert_eq!(sorted.len(), 3);
    assert_eq!(sorted[0], entry("a", "3"));
    assert_eq!(sorted[1].0, "k");
    assert_eq!(sorted[2].0, "k");
}

#[test]
fn map_to_string_keeps_given_order() {
    let entries = vec![entry("b", "2"), entry("a", "1")];
    assert_eq!(map_to_string(&entries), "{'b': 2, 'a': 1}");
}

#[test]
fn byte_order() {
    assert!(bytes_le_exec(b"", b""));
    assert!(bytes_le_exec(b"", b"a"));
    assert!(!bytes_le_exec(b"a", b""));
    assert!(bytes_le_exec(b"ab", b"abc"));
    assert!(!bytes_le_exec(b"abc", b"ab"));
    assert!(bytes_le_exec(b"abc", b"abd"));
    assert!(!bytes_le_exec(b"abd", b"abc"));
    assert!(bytes_le_exec(b"same", b"same"));
    assert!(bytes_le_exec(b"Z", b"a"));
}
