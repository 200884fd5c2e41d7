use toml_edit::{value, DocumentMut, Table};
use walrus::hub::{merge_mcp_servers, remove_mcp_servers};
use walrus::toml_tree::{collect_leaves, get_nested, insert_nested, load_document, remove_nested};

fn doc(text: &str) -> DocumentMut {
    text.parse::<DocumentMut>().unwrap()
}

fn segs(parts: &[&str]) -> Vec<String> {
    parts.iter().map(|s| s.to_string()).collect()
}

fn server(command: &str) -> Table {
    let mut t = Table::new();
    t.insert("command", value(command));
    t
}

#[test]
fn get_walks_nested_tables() {
    let d = doc("name = \"n\"\n\n[goal]\ncoding = \"rust\"\n");
    assert_eq!(get_nested(&d, &segs(&["name"])), Some("n".to_string()));
    assert_eq!(get_nested(&d, &segs(&["goal", "coding"])), Some("rust".to_string()));
}

#[test]
fn get_missing_or_not_a_string_is_none() {
    let d = doc("n = 3\nname = \"n\"\n\n[goal]\ncoding = \"rust\"\n");
    assert_eq!(get_nested(&d, &segs(&["missing"])), None);
    assert_eq!(get_nested(&d, &segs(&["goal", "missing"])), None);
    assert_eq!(get_nested(&d, &segs(&["name", "deeper"])), None);
    assert_eq!(get_nested(&d, &segs(&["n"])), None);
    assert_eq!(get_nested(&d, &segs(&["goal"])), None);
}

#[test]
fn get_walks_inline_tables() {
    let d = doc("a = { b = \"c\", d = { e = \"f\" } }\n");
    assert_eq!(get_nested(&d, &segs(&["a", "b"])), Some("c".to_string()));
    assert_eq!(get_nested(&d, &segs(&["a", "d", "e"])), Some("f".to_string()));
}

#[test]
fn insert_creates_tables_and_returns_previous() {
    let mut d = DocumentMut::new();
    assert_eq!(insert_nested(&mut d, &segs(&["goal", "coding"]), "rust"), None);
    assert_eq!(get_nested(&d, &segs(&["goal", "coding"])), Some("rust".to_string()));
    assert!(d.to_string().contains("[goal]"));
    assert_eq!(insert_nested(&mut d, &segs(&["goal", "coding"]), "go"), Some("rust".to_string()));
    assert_eq!(get_nested(&d, &segs(&["goal", "coding"])), Some("go".to_string()));
}

#[test]
fn insert_keeps_comments_and_other_keys() {
    let mut d = doc("# who I am\nname = \"a\"\n");
    assert_eq!(insert_nested(&mut d, &segs(&["mood"]), "calm"), None);
    let text = d.to_string();
    assert!(text.starts_with("# who I am\nname = \"a\"\n"));
    assert_eq!(get_nested(&d, &segs(&["mood"])), Some("calm".to_string()));
}

#[test]
fn insert_over_non_table_changes_nothing() {
    let mut d = doc("a = 1\n");
    assert_eq!(insert_nested(&mut d, &segs(&["a", "b"]), "x"), None);
    assert_eq!(d.to_string(), "a = 1\n");
}

#[test]
fn insert_over_non_string_leaf_returns_none() {
    let mut d = doc("a = 1\n");
    assert_eq!(insert_nested(&mut d, &segs(&["a"]), "x"), None);
    assert_eq!(get_nested(&d, &segs(&["a"])), Some("x".to_string()));
}

#[test]
fn remove_prunes_emptied_tables() {
    let mut d = doc("[goal]\ncoding = \"rust\"\n");
    let (old, empty) = remove_nested(&mut d, &segs(&["goal", "coding"]));
    assert_eq!(old, Some("rust".to_string()));
    assert!(empty);
    assert_eq!(get_nested(&d, &segs(&["goal", "coding"])), None);
    assert!(!d.to_string().contains("goal"));
}

#[test]
fn remove_keeps_other_entries() {
    let mut d = doc("name = \"n\"\n\n[goal]\ncoding = \"rust\"\nwriting = \"prose\"\n");
    let (old, empty) = remove_nested(&mut d, &segs(&["goal", "coding"]));
    assert_eq!(old, Some("rust".to_string()));
    assert!(!empty);
    assert_eq!(get_nested(&d, &segs(&["goal", "writing"])), Some("prose".to_string()));
    assert_eq!(get_nested(&d, &segs(&["name"])), Some("n".to_string()));
}

#[test]
fn remove_missing_key_returns_none() {
    let mut d = doc("name = \"n\"\n");
    let (old, empty) = remove_nested(&mut d, &segs(&["goal", "coding"]));
    assert_eq!(old, None);
    assert!(!empty);
    assert_eq!(d.to_string(), "name = \"n\"\n");
}

#[test]
fn load_document_falls_back_to_empty() {
    assert!(load_document(None).as_table().is_empty());
    assert!(load_document(Some("not = = toml".to_string())).as_table().is_empty());
    let d = load_document(Some("a = \"b\"\n".to_string()));
    assert_eq!(get_nested(&d, &segs(&["a"])), Some("b".to_string()));
}

#[test]
fn merge_servers_creates_table_and_keeps_rest() {
    let mut d = doc("[other]\nx = \"1\"\n");
    let r = merge_mcp_servers(&mut d, vec![("fs".to_string(), server("npx"))]);
    assert_eq!(r, Ok(()));
    assert_eq!(get_nested(&d, &segs(&["mcp_servers", "fs", "command"])), Some("npx".to_string()));
    assert_eq!(get_nested(&d, &segs(&["other", "x"])), Some("1".to_string()));
}

#[test]
fn merge_servers_replaces_same_name() {
    let mut d = doc("[mcp_servers.fs]\ncommand = \"old\"\n\n[mcp_servers.git]\ncommand = \"git\"\n");
    let r = merge_mcp_servers(&mut d, vec![("fs".to_string(), server("new"))]);
    assert_eq!(r, Ok(()));
    assert_eq!(get_nested(&d, &segs(&["mcp_servers", "fs", "command"])), Some("new".to_string()));
    assert_eq!(get_nested(&d, &segs(&["mcp_servers", "git", "command"])), Some("git".to_string()));
}

#[test]
fn merge_servers_refuses_non_table() {
    let mut d = doc("mcp_servers = 3\n");
    let r = merge_mcp_servers(&mut d, vec![("fs".to_string(), server("npx"))]);
    assert_eq!(r, Err("mcp_servers is not a table".to_string()));
    assert_eq!(d.to_string(), "mcp_servers = 3\n");
}

#[test]
fn remove_servers_drops_only_named() {
    let mut d = doc("[mcp_servers.fs]\ncommand = \"npx\"\n\n[mcp_servers.git]\ncommand = \"git\"\n");
    remove_mcp_servers(&mut d, &["fs".to_string(), "absent".to_string()]);
    assert_eq!(get_nested(&d, &segs(&["mcp_servers", "fs", "command"])), None);
    assert_eq!(get_nested(&d, &segs(&["mcp_servers", "git", "command"])), Some("git".to_string()));
}

#[test]
fn remove_servers_without_table_is_noop() {
    let mut d = doc("a = \"b\"\n");
    remove_mcp_servers(&mut d, &["fs".to_string()]);
    assert_eq!(d.to_string(), "a = \"b\"\n");
}

#[test]
fn leaves_are_listed_with_full_keys_in_order() {
    let d = doc("name = \"n\"\nn = 3\ninline = { b = \"c\" }\n\n[goal]\ncoding = \"rust\"\n\n[goal.deep]\nx = \"y\"\n");
    let mut out = vec![("kept".to_string(), "first".to_string())];
    collect_leaves(d.as_table(), "user", &mut out);
    let expected: Vec<(String, String)> = [
        ("kept", "first"),
        ("user.name", "n"),
        ("user.goal.coding", "rust"),
        ("user.goal.deep.x", "y"),
    ]
    .iter()
    .map(|(k, v)| (k.to_string(), v.to_string()))
    .collect();
    assert_eq!(out, expected);
}

#[test]
fn leaves_without_prefix_start_at_the_key() {
    let d = doc("[a]\nb = \"c\"\n");
    let mut out = Vec::new();
    collect_leaves(d.as_table(), "", &mut out);
    assert_eq!(out, vec![("a.b".to_string(), "c".to_string())]);
}
