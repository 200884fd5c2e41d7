use walrus::frontmatter::{split_yaml_frontmatter, FrontmatterError};
use walrus::memory::AgentConfig;
use walrus::skills::{parse_u8, skill_from_frontmatter, split_words, Skill, SkillRegistry, SkillTier};

fn skill(name: &str, meta: &[(&str, &str)], body: &str) -> Skill {
    Skill {
        name: name.to_string(),
        description: String::new(),
        license: None,
        compatibility: None,
        metadata: meta.iter().map(|(k, v)| (k.to_string(), v.to_string())).collect(),
        allowed_tools: Vec::new(),
        body: body.to_string(),
    }
}

fn names(found: &[&Skill]) -> Vec<String> {
    found.iter().map(|s| s.name.clone()).collect()
}

fn tags(list: &[&str]) -> Vec<String> {
    list.iter().map(|s| s.to_string()).collect()
}

#[test]
fn tier_ranks_are_ordered() {
    assert_eq!(SkillTier::Bundled.rank(), 0);
    assert_eq!(SkillTier::Managed.rank(), 1);
    assert_eq!(SkillTier::Workspace.rank(), 2);
}

#[test]
fn parse_u8_like_str_parse() {
    assert_eq!(parse_u8("0"), Some(0));
    assert_eq!(parse_u8("42"), Some(42));
    assert_eq!(parse_u8("+7"), Some(7));
    assert_eq!(parse_u8("255"), Some(255));
    assert_eq!(parse_u8("256"), None);
    assert_eq!(parse_u8("1000"), None);
    assert_eq!(parse_u8(""), None);
    assert_eq!(parse_u8("+"), None);
    assert_eq!(parse_u8("-1"), None);
    assert_eq!(parse_u8(" 5"), None);
    assert_eq!(parse_u8("5a"), None);
    assert_eq!(parse_u8("007"), Some(7));
}

#[test]
fn registry_starts_empty() {
    let reg = SkillRegistry::new();
    assert!(reg.is_empty());
    assert_eq!(reg.len(), 0);
    assert!(reg.skills().is_empty());
    let d = SkillRegistry::default();
    assert_eq!(d.len(), 0);
}

#[test]
fn find_by_tags_ranks_tier_then_priority_then_order() {
    let mut reg = SkillRegistry::new();
    reg.add(skill("a", &[("tags", "code, review"), ("priority", "1")], "A"), SkillTier::Bundled);
    reg.add(skill("b", &[("tags", "code"), ("priority", "9")], "B"), SkillTier::Bundled);
    reg.add(skill("c", &[("tags", "review")], "C"), SkillTier::Workspace);
    reg.add(skill("d", &[("tags", "other")], "D"), SkillTier::Workspace);
    reg.add(skill("e", &[("tags", "code"), ("priority", "9")], "E"), SkillTier::Bundled);
    assert_eq!(reg.len(), 5);
    assert!(!reg.is_empty());

    let found = reg.find_by_tags(&tags(&["code", "review"]));
    assert_eq!(names(&found), vec!["c", "b", "e", "a"]);

    let found = reg.find_by_tags(&tags(&["other"]));
    assert_eq!(names(&found), vec!["d"]);

    let found = reg.find_by_tags(&tags(&["missing"]));
    assert!(found.is_empty());

    let found = reg.find_by_tags(&[]);
    assert!(found.is_empty());
}

#[test]
fn tags_are_trimmed_and_empty_ones_dropped() {
    let mut reg = SkillRegistry::new();
    reg.add(skill("a", &[("tags", " , x ,, y ")], ""), SkillTier::Managed);
    assert_eq!(names(&reg.find_by_tags(&tags(&["x"]))), vec!["a"]);
    assert_eq!(names(&reg.find_by_tags(&tags(&["y"]))), vec!["a"]);
    assert!(reg.find_by_tags(&tags(&[""])).is_empty());
    assert!(reg.find_by_tags(&tags(&[" x "])).is_empty());
}

#[test]
fn unreadable_priority_counts_as_zero() {
    let mut reg = SkillRegistry::new();
    reg.add(skill("low", &[("tags", "t"), ("priority", "300")], ""), SkillTier::Bundled);
    reg.add(skill("high", &[("tags", "t"), ("priority", "1")], ""), SkillTier::Bundled);
    assert_eq!(names(&reg.find_by_tags(&tags(&["t"]))), vec!["high", "low"]);
}

#[test]
fn find_by_trigger_is_case_insensitive() {
    let mut reg = SkillRegistry::new();
    reg.add(skill("deploy", &[("triggers", "Deploy, Ship It")], ""), SkillTier::Bundled);
    reg.add(skill("review", &[("triggers", "review")], ""), SkillTier::Managed);
    let found = reg.find_by_trigger("Please SHIP IT and deploy now");
    assert_eq!(names(&found), vec!["deploy"]);
    let found = reg.find_by_trigger("REVIEW then deploy");
    assert_eq!(names(&found), vec!["review", "deploy"]);
    assert!(reg.find_by_trigger("nothing here").is_empty());
}

#[test]
fn skills_lists_in_added_order() {
    let mut reg = SkillRegistry::new();
    reg.add(skill("one", &[], ""), SkillTier::Workspace);
    reg.add(skill("two", &[], ""), SkillTier::Bundled);
    assert_eq!(names(&reg.skills()), vec!["one", "two"]);
}

#[test]
fn on_build_agent_appends_matching_bodies() {
    let mut reg = SkillRegistry::new();
    reg.add(skill("a", &[("tags", "x")], "Body A"), SkillTier::Bundled);
    reg.add(skill("empty", &[("tags", "x")], ""), SkillTier::Workspace);
    reg.add(skill("b", &[("tags", "x")], "Body B"), SkillTier::Workspace);
    reg.add(skill("c", &[("tags", "y")], "Body C"), SkillTier::Workspace);
    let config = AgentConfig {
        name: "agent".to_string(),
        description: "desc".to_string(),
        system_prompt: "Base".to_string(),
        skill_tags: tags(&["x"]),
    };
    let out = reg.on_build_agent(config);
    assert_eq!(out.system_prompt, "Base\n\nBody B\n\nBody A");
    assert_eq!(out.name, "agent");
    assert_eq!(out.description, "desc");
    assert_eq!(out.skill_tags, tags(&["x"]));
}

#[test]
fn split_words_like_split_whitespace() {
    assert_eq!(split_words("  read   write\tbash\n"), vec!["read", "write", "bash"]);
    assert!(split_words("").is_empty());
    assert!(split_words(" \t ").is_empty());
    assert_eq!(split_words("one"), vec!["one"]);
}

#[test]
fn skill_from_frontmatter_splits_allowed_tools() {
    let s = skill_from_frontmatter(
        "n".to_string(),
        "d".to_string(),
        Some("MIT".to_string()),
        None,
        vec![("k".to_string(), "v".to_string())],
        Some("read write".to_string()),
        "body",
    );
    assert_eq!(s.allowed_tools, vec!["read", "write"]);
    assert_eq!(s.body, "body");
    assert_eq!(s.license.as_deref(), Some("MIT"));
    let s = skill_from_frontmatter(String::new(), String::new(), None, None, Vec::new(), None, "");
    assert!(s.allowed_tools.is_empty());
}

#[test]
fn frontmatter_splits_at_closing_line() {
    let content = "\n  ---\nname: x\ndescription: y\n---\n\nThe body\nmore";
    let (front, body) = split_yaml_frontmatter(content).ok().unwrap();
    assert_eq!(front, "name: x\ndescription: y");
    assert_eq!(body, "The body\nmore");
}

#[test]
fn frontmatter_closing_line_may_be_padded() {
    let (front, body) = split_yaml_frontmatter("---\na: 1\n  ---  \nrest").ok().unwrap();
    assert_eq!(front, "a: 1");
    assert_eq!(body, "rest");
}

#[test]
fn frontmatter_with_crlf_lines() {
    let content = "---\r\nname: x\r\n---\r\nbody";
    let (front, body) = split_yaml_frontmatter(content).ok().unwrap();
    assert_eq!(front, "name: x");
    assert_eq!(body, "body");
    let content = "---\r\na: 1\r\nb: 2\r\nc: é\r\n---\r\n\r\nrest\r\n";
    let (front, body) = split_yaml_frontmatter(content).ok().unwrap();
    assert_eq!(front, "a: 1\r\nb: 2\r\nc: é");
    assert_eq!(body, "rest\r\n");
}

#[test]
fn frontmatter_empty_front() {
    let (front, body) = split_yaml_frontmatter("---\n---\nb").ok().unwrap();
    assert_eq!(front, "");
    assert_eq!(body, "b");
}

#[test]
fn frontmatter_missing_opening() {
    let e = split_yaml_frontmatter("name: x\n---\n").err().unwrap();
    assert_eq!(e, FrontmatterError::MissingOpening);
    assert_eq!(e.message(), "missing YAML frontmatter delimiter (---)");
    assert_eq!(split_yaml_frontmatter("--").err(), Some(FrontmatterError::MissingOpening));
}

#[test]
fn frontmatter_missing_closing() {
    let e = split_yaml_frontmatter("---\nname: x\nbody").err().unwrap();
    assert_eq!(e, FrontmatterError::MissingClosing);
    assert_eq!(e.message(), "missing closing YAML frontmatter delimiter (---)");
    assert_eq!(split_yaml_frontmatter("---").err(), Some(FrontmatterError::MissingClosing));
}
