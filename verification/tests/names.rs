use walrus::config::default_model;
use walrus::fs_memory::{FsMemory, NoEmbedder};
use walrus::hub::parse_package;
use walrus::local::system_memory;
use walrus::mcp::{default_true, Mcp};
use walrus::text::join_strs;

#[test]
fn split_key_needs_two_segments() {
    assert_eq!(FsMemory::split_key("user.name"), Some(("user".to_string(), vec!["name".to_string()])));
    assert_eq!(
        FsMemory::split_key("user.goal.coding"),
        Some(("user".to_string(), vec!["goal".to_string(), "coding".to_string()]))
    );
    assert_eq!(FsMemory::split_key("user"), None);
    assert_eq!(FsMemory::split_key(".name"), None);
    assert_eq!(FsMemory::split_key("user."), None);
    assert_eq!(FsMemory::split_key("user..x"), None);
    assert_eq!(FsMemory::split_key("user.x."), None);
    assert_eq!(FsMemory::split_key(""), None);
}

#[test]
fn split_key_round_trips() {
    for key in ["soul.relationship", "a.b.c.d", "x/y.z"] {
        let (ns, segs) = FsMemory::split_key(key).unwrap();
        assert_eq!(format!("{}.{}", ns, segs.join(".")), key);
    }
}

#[test]
fn file_path_joins_base_and_namespace() {
    let m = FsMemory::at("/tmp/mem".to_string());
    assert_eq!(m.base(), "/tmp/mem");
    assert_eq!(m.file_path("user"), "/tmp/mem/user.toml");
    let m = FsMemory::at("/tmp/mem/".to_string());
    assert_eq!(m.file_path("soul"), "/tmp/mem/soul.toml");
    let m = FsMemory::at(String::new());
    assert_eq!(m.file_path("x"), "x.toml");
    let _ = NoEmbedder;
}

#[test]
fn packages_are_scope_slash_name() {
    assert_eq!(parse_package("acme/tools").ok(), Some(("acme".to_string(), "tools".to_string())));
    assert_eq!(parse_package("acme/tools/extra").ok(), Some(("acme".to_string(), "tools/extra".to_string())));
    let e = parse_package("acme").err().unwrap();
    assert_eq!(e.package, "acme");
    assert_eq!(e.message(), "package must be in `scope/name` format, got: acme");
    assert!(parse_package("/tools").is_err());
    assert!(parse_package("acme/").is_err());
    assert!(parse_package("").is_err());
}

#[test]
fn defaults() {
    assert_eq!(default_model(), "deepseek-chat");
    assert!(default_true());
    let m = Mcp { name: "search".into(), args: None };
    assert_eq!(m.name, "search");
}

#[test]
fn system_memory_is_reported() {
    let _ = system_memory();
}

#[test]
fn join_strs_like_slice_join() {
    let parts = vec!["a".to_string(), "b".to_string(), "c".to_string()];
    assert_eq!(join_strs(&parts, ", "), "a, b, c");
    assert_eq!(join_strs(&parts[..1], ", "), "a");
    assert_eq!(join_strs(&[], ", "), "");
}
