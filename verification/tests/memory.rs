use walrus::graph::{build_connections_cypher, capped_limit, entity_filter, escape_cypher, escape_cypher_ident, escape_sql, journal_id, key_filter, select_entity, Direction, EntityResult};
use walrus::memory::{journal_time_text, recent_journals, merge_defaults, on_build_agent, shorten_summary, sort_recent_first, with_memory, AgentConfig, JournalResult, MemorySettings};

fn config(prompt: &str) -> AgentConfig {
    AgentConfig {
        name: "walrus".to_string(),
        description: String::new(),
        system_prompt: prompt.to_string(),
        skill_tags: Vec::new(),
    }
}

fn entity(id: &str, key: &str, value: &str) -> EntityResult {
    EntityResult { id: id.into(), entity_type: "identity".into(), key: key.into(), value: value.into() }
}

#[test]
fn escapes_quote_each_dialect() {
    assert_eq!(escape_sql("it's"), "it''s");
    assert_eq!(escape_sql("''"), "''''");
    assert_eq!(escape_cypher(r"a'b\c"), r"a\'b\\c");
    assert_eq!(escape_cypher_ident("we`ird"), "we``ird");
    assert_eq!(escape_sql(""), "");
}

#[test]
fn connections_query_text() {
    let q = build_connections_cypher("e'1", "bot", Some("knows"), Direction::Outgoing, 5);
    assert_eq!(
        q,
        "MATCH (e:entities {id: 'e\\'1'})-[r:relations:`knows`]->(t:entities) WHERE r.agent = 'bot' RETURN r.source, r.relation, r.target LIMIT 5"
    );
    let q = build_connections_cypher("x", "a", None, Direction::Incoming, 500);
    assert_eq!(
        q,
        "MATCH (e:entities)<-[r:relations]-(s:entities {id: 'x'}) WHERE r.agent = 'a' RETURN r.source, r.relation, r.target LIMIT 500"
    );
    let q = build_connections_cypher("x", "a", None, Direction::Both, 0);
    assert!(q.starts_with("MATCH (e:entities)-[r:relations]-(o:entities {id: 'x'})"));
    assert_eq!(capped_limit(500), 100);
    assert_eq!(capped_limit(7), 7);
}

#[test]
fn entity_lookup_prefers_sender_scope() {
    let es = vec![entity("bot:k", "k", "agent"), entity("bot:alice:k", "k", "alice")];
    assert_eq!(select_entity(es, "bot", "").unwrap().value, "agent");
    let es = vec![entity("bot:k", "k", "agent"), entity("bot:alice:k", "k", "alice")];
    assert_eq!(select_entity(es, "bot", "alice").unwrap().value, "alice");
    let es = vec![entity("bot:k", "k", "agent")];
    assert_eq!(select_entity(es, "bot", "bob").unwrap().value, "agent");
    assert!(select_entity(Vec::new(), "bot", "bob").is_none());
}

#[test]
fn with_memory_appends_non_empty_text() {
    assert_eq!(with_memory(config("P"), "M").system_prompt, "P\n\nM");
    assert_eq!(with_memory(config("P"), "").system_prompt, "P");
}

#[test]
fn merged_types_keep_defaults_first() {
    let out = merge_defaults(&["fact", "person"], &["person".to_string(), "pet".to_string(), "pet".to_string()]);
    assert_eq!(out, vec!["fact", "person", "pet"]);
    let s = MemorySettings::from_config(&["pet".to_string()], &[], 0);
    assert!(s.is_valid_entity("pet"));
    assert!(s.is_valid_entity("fact"));
    assert!(!s.is_valid_entity("car"));
    assert_eq!(s.connection_limit, 1);
    let s = MemorySettings::from_config(&[], &[], 1000);
    assert_eq!(s.connection_limit, 100);
    assert_eq!(MemorySettings::from_config(&[], &[], 20).connection_limit, 20);
}

#[test]
fn long_summaries_are_cut_at_500_bytes() {
    let long = "a".repeat(600);
    assert_eq!(shorten_summary(&long), format!("{}...", "a".repeat(500)));
    assert_eq!(shorten_summary("short"), "short");
    let exact = "b".repeat(500);
    assert_eq!(shorten_summary(&exact), exact);
}

#[test]
fn journals_sort_most_recent_first_stably() {
    let js = vec![
        JournalResult { summary: "old".into(), created_at: 1 },
        JournalResult { summary: "new".into(), created_at: 9 },
        JournalResult { summary: "mid".into(), created_at: 5 },
        JournalResult { summary: "new2".into(), created_at: 9 },
    ];
    let sorted: Vec<String> = sort_recent_first(js).into_iter().map(|j| j.summary).collect();
    assert_eq!(sorted, vec!["new", "new2", "mid", "old"]);
}

#[test]
fn memory_blocks_in_prompt() {
    let mut c = config("Base");
    c.description = "helper".to_string();
    let out = on_build_agent(
        c,
        Some(vec![entity("i", "role", "guide")]),
        None,
        Some(vec![JournalResult { summary: "did things".into(), created_at: 0 }]),
        "MEM",
    );
    assert_eq!(
        out.system_prompt,
        "Base\n\n<self>\nname: walrus\ndescription: helper\n</self>\n\n<identity>\n- **role**: guide\n</identity>\n\n<journal>\n- **1970-01-01 00:00**: did things\n</journal>\n\nMEM"
    );
    let out = on_build_agent(config("B"), Some(Vec::new()), Some(Vec::new()), Some(Vec::new()), "M");
    assert_eq!(out.system_prompt, "B\n\n<self>\nname: walrus\n</self>\n\nM");
}

#[test]
fn journal_time_falls_back_to_seconds() {
    let out = on_build_agent(
        config(""),
        None,
        None,
        Some(vec![JournalResult { summary: "s".into(), created_at: i64::MAX as u64 }]),
        "",
    );
    assert!(out.system_prompt.contains(&format!("- **{}**: s\n", i64::MAX)));
}

#[test]
fn tool_descriptions_list_allowed_types() {
    let s = MemorySettings::from_config(&["pet".to_string()], &[], 10);
    assert_eq!(
        s.remember_description(),
        "Store a memory entity. Types: fact, preference, person, event, concept, identity, profile, pet."
    );
    assert_eq!(
        s.relate_description(),
        "Create a directed relation between two entities by key. Relations: knows, prefers, related_to, caused_by, part_of, depends_on, tagged_with."
    );
}

#[test]
fn table_filters_escape_their_values() {
    assert_eq!(entity_filter("o'brien", None), "agent = 'o''brien'");
    assert_eq!(entity_filter("a", Some("fact")), "agent = 'a' AND entity_type = 'fact'");
    assert_eq!(key_filter("a", "k'1"), "agent = 'a' AND key = 'k''1'");
    assert_eq!(journal_id("bot", 1700000000), "bot:1700000000");
}

#[test]
fn journal_time_prefers_minute_text() {
    assert_eq!(journal_time_text(Some("2024-01-02 03:04".to_string()), 1704164640), "2024-01-02 03:04");
    assert_eq!(journal_time_text(None, 1704164640), "1704164640");
    assert_eq!(journal_time_text(None, 0), "0");
}

#[test]
fn entity_lookup_hides_other_users() {
    let es = vec![entity("bot:alice:k", "k", "alice"), entity("bot:k", "k", "agent")];
    assert_eq!(select_entity(es, "bot", "bob").unwrap().value, "agent");
    let es = vec![entity("bot:alice:k", "k", "alice")];
    assert!(select_entity(es, "bot", "bob").is_none());
    let es = vec![entity("bot:alice:k", "k", "alice")];
    assert_eq!(select_entity(es, "bot", "").unwrap().value, "alice");
}

#[test]
fn recent_journals_keep_the_newest() {
    let js = || {
        vec![
            JournalResult { summary: "old".into(), created_at: 1 },
            JournalResult { summary: "new".into(), created_at: 9 },
            JournalResult { summary: "mid".into(), created_at: 5 },
        ]
    };
    let names = |v: Vec<JournalResult>| v.into_iter().map(|j| j.summary).collect::<Vec<String>>();
    assert_eq!(names(recent_journals(js(), 2)), vec!["new", "mid"]);
    assert_eq!(names(recent_journals(js(), 5)), vec!["new", "mid", "old"]);
    assert!(recent_journals(js(), 0).is_empty());
}
