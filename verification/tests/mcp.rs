use walrus::ask_user::{ask_user_reply, not_streaming, AskOutcome};
use walrus::local::{load_outcome, ready_model, LoadState};
use walrus::config::environment_block;
use walrus::mcp::{bridge_missing, call_failed, call_reply, call_target, extract_text, invalid_arguments, McpContent, McpRegistry};

fn names(v: &[&str]) -> Vec<String> {
    v.iter().map(|s| s.to_string()).collect()
}

#[test]
fn registry_routes_calls_to_the_first_owner() {
    let mut reg = McpRegistry::new();
    reg.add_server("fs".into(), names(&["read", "write"]));
    reg.add_server("web".into(), names(&["fetch", "read"]));
    assert_eq!(reg.owner_of("read"), Some(0));
    assert_eq!(reg.owner_of("fetch"), Some(1));
    assert_eq!(reg.owner_of("nope"), None);
    assert_eq!(call_target(&reg, "write").ok(), Some(0));
    assert_eq!(call_target(&reg, "nope").err().unwrap(), "mcp tool 'nope' not available");
}

#[test]
fn removing_a_server_returns_its_tools() {
    let mut reg = McpRegistry::new();
    reg.add_server("fs".into(), names(&["read", "write"]));
    reg.add_server("web".into(), names(&["fetch"]));
    reg.add_server("fs".into(), names(&["stat"]));
    let removed = reg.remove_server("fs");
    assert_eq!(removed, names(&["read", "write", "stat"]));
    let list = reg.list_servers();
    assert_eq!(list, vec![("web".to_string(), names(&["fetch"]))]);
    assert_eq!(reg.owner_of("read"), None);
    assert!(reg.remove_server("missing").is_empty());
}

#[test]
fn tool_results_become_text() {
    let content = vec![McpContent::Text("a".into()), McpContent::Other, McpContent::Text("b".into())];
    assert_eq!(extract_text(&content), "a\nb");
    assert_eq!(extract_text(&[McpContent::Other]), "");
    assert_eq!(call_reply(Some(true), &content), "mcp tool error: a\nb");
    assert_eq!(call_reply(Some(false), &content), "a\nb");
    assert_eq!(call_reply(None, &[]), "");
    assert_eq!(invalid_arguments("eof"), "invalid tool arguments: eof");
    assert_eq!(call_failed("closed"), "mcp call failed: closed");
    assert_eq!(bridge_missing("x"), "mcp not available for x");
}

#[test]
fn environment_block_names_the_os() {
    assert_eq!(environment_block("linux"), "\n\n<environment>\nos: linux\n</environment>");
}

#[test]
fn ask_user_replies() {
    let headers = vec!["Database".to_string(), "Cache".to_string()];
    assert_eq!(ask_user_reply(AskOutcome::Replied("{\"q\":\"A\"}".into()), &headers), "{\"q\":\"A\"}");
    assert_eq!(ask_user_reply(AskOutcome::Closed, &headers), "ask_user cancelled: reply channel closed");
    assert_eq!(
        ask_user_reply(AskOutcome::TimedOut, &headers),
        "ask_user timed out after 300s: no reply received for: Database; Cache"
    );
    assert_eq!(ask_user_reply(AskOutcome::TimedOut, &[]), "ask_user timed out after 300s: no reply received for: ");
    assert_eq!(not_streaming(), "ask_user is only available in streaming mode");
}

#[test]
fn local_model_states() {
    let ready: LoadState<u32> = LoadState::Ready(7);
    assert_eq!(ready_model(&ready, "qwen").ok(), Some(&7));
    assert!(load_outcome(&ready, "qwen").is_ok());
    let loading: LoadState<u32> = LoadState::Loading;
    assert_eq!(ready_model(&loading, "qwen").err().unwrap(), "local model 'qwen' is still loading, please wait...");
    let failed: LoadState<u32> = LoadState::Failed("no disk".into());
    assert_eq!(ready_model(&failed, "qwen").err().unwrap(), "local model 'qwen' failed to load: no disk");
    assert_eq!(load_outcome(&failed, "qwen").err().unwrap(), "local model 'qwen' failed to load: no disk");
}
