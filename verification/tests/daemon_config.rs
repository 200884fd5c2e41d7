use walrus::config::{fill_defaults, DaemonConfig, KeyedEntry};

fn entry(key: &str, name: &str, settings: u32) -> KeyedEntry<u32> {
    KeyedEntry { key: key.to_string(), name: name.to_string(), settings }
}

fn view(v: &[KeyedEntry<u32>]) -> Vec<(String, String, u32)> {
    v.iter().map(|e| (e.key.clone(), e.name.clone(), e.settings)).collect()
}

#[test]
fn empty_names_take_their_keys() {
    let c = DaemonConfig {
        models: vec![entry("deepseek", "", 1), entry("fast", "gpt-4o-mini", 2)],
        channels: vec![entry("telegram", "", 3)],
        mcp_servers: vec![entry("fs", "", 4), entry("git", "git-server", 5)],
        agents: "agents".to_string(),
    };
    let r = fill_defaults(c);
    assert_eq!(
        view(&r.models),
        vec![
            ("deepseek".to_string(), "deepseek".to_string(), 1),
            ("fast".to_string(), "gpt-4o-mini".to_string(), 2)
        ]
    );
    assert_eq!(view(&r.channels), vec![("telegram".to_string(), "telegram".to_string(), 3)]);
    assert_eq!(
        view(&r.mcp_servers),
        vec![("fs".to_string(), "fs".to_string(), 4), ("git".to_string(), "git-server".to_string(), 5)]
    );
    assert_eq!(r.agents, "agents");
}

#[test]
fn empty_config_stays_empty() {
    let c: DaemonConfig<u32, u32, u32, ()> =
        DaemonConfig { models: Vec::new(), channels: Vec::new(), mcp_servers: Vec::new(), agents: () };
    let r = fill_defaults(c);
    assert!(r.models.is_empty() && r.channels.is_empty() && r.mcp_servers.is_empty());
}
