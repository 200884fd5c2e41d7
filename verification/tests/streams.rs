use walrus::chunk::{FunctionCall, ToolCall};
use walrus::local::{build_request, BuildStep, EngineChoice, EngineRole, Message, Request, ToolChoice, ToolDef};
use walrus::anthropic::{finish_reason, to_response, AnthropicBlock, AnthropicResponse, AnthropicUsage, BlockDelta, ContentBlock, Event, MessageDeltaBody, MessageDeltaUsage, MessageMeta};
use walrus::chunk::{FinishReason, Role, StreamChunk};
use walrus::filter::{is_partial_prefix, ToolCallFilter};
use walrus::local::{parse_finish_reason, to_response as local_to_response, to_stream_chunk, LocalChoice, LocalChunk, LocalChunkChoice, LocalResponse, LocalToolCall, LocalUsage};
use walrus::sse::{is_blank, split_sse_blocks, sse_data, sse_payloads};

fn content(c: &StreamChunk) -> Option<String> {
    c.choices[0].delta.content.clone()
}

#[test]
fn sse_data_takes_last_data_line() {
    assert_eq!(sse_data("event: x\ndata: {\"a\":1}\n"), Some("{\"a\":1}".to_string()));
    assert_eq!(sse_data("data: one\ndata:  two "), Some("two".to_string()));
    assert_eq!(sse_data("data: [DONE]"), None);
    assert_eq!(sse_data("event: ping"), None);
    assert_eq!(sse_data("data:x"), None);
}

#[test]
fn sse_blocks_split_on_blank_lines() {
    let (blocks, rest) = split_sse_blocks("a\n\nb\n\nc");
    assert_eq!(blocks, vec!["a", "b"]);
    assert_eq!(rest, "c");
    let (blocks, rest) = split_sse_blocks("");
    assert!(blocks.is_empty());
    assert_eq!(rest, "");
    assert!(is_blank(" \n\t"));
    assert!(!is_blank(" x "));
}

#[test]
fn sse_payloads_split_on_data_prefix() {
    let p = sse_payloads("data: {\"x\":1}\n\ndata: [DONE]\n\n");
    assert_eq!(p, vec!["{\"x\":1}"]);
}

#[test]
fn anthropic_events_become_chunks() {
    let c = Event::MessageStart { message: MessageMeta { id: "m1".into(), model: "sonnet-4".into() } }.into_chunk().unwrap();
    assert_eq!(c.meta.id, "m1");
    assert_eq!(c.meta.model, "sonnet-4");
    assert_eq!(c.meta.object, "chat.completion.chunk");
    assert!(c.choices.is_empty());
    let c = Event::ContentBlockDelta { index: 0, delta: BlockDelta::TextDelta { text: "hi".into() } }.into_chunk().unwrap();
    assert_eq!(content(&c).as_deref(), Some("hi"));
    assert!(Event::ContentBlockStart { index: 0, content_block: ContentBlock::Text { text: String::new() } }.into_chunk().is_none());
    let c = Event::ContentBlockStart { index: 2, content_block: ContentBlock::ToolUse { id: "t".into(), name: "search".into() } }.into_chunk().unwrap();
    let calls = c.choices[0].delta.tool_calls.as_ref().unwrap();
    assert_eq!(calls[0].index, 2);
    assert_eq!(calls[0].function.name, "search");
    assert_eq!(calls[0].call_type, "function");
    let c = Event::MessageDelta { delta: MessageDeltaBody { stop_reason: Some("max_tokens".into()) }, usage: MessageDeltaUsage { output_tokens: 12 } }.into_chunk().unwrap();
    assert_eq!(c.choices[0].finish_reason, Some(FinishReason::Length));
    assert_eq!(c.usage.as_ref().unwrap().completion_tokens, 12);
    assert_eq!(c.usage.as_ref().unwrap().total_tokens, 12);
    assert!(Event::Ping.into_chunk().is_none());
    assert!(Event::MessageStop.into_chunk().is_none());
}

#[test]
fn stop_reasons_map_to_finish_reasons() {
    assert_eq!(finish_reason("end_turn"), FinishReason::Stop);
    assert_eq!(finish_reason("tool_use"), FinishReason::ToolCalls);
    assert_eq!(finish_reason("weird"), FinishReason::Stop);
}

#[test]
fn anthropic_response_joins_text_and_collects_tools() {
    let r = to_response(AnthropicResponse {
        id: "id".into(),
        model: "m".into(),
        content: vec![
            AnthropicBlock::Text { text: "a".into() },
            AnthropicBlock::ToolUse { id: "t1".into(), name: "f".into(), input: "{}".into() },
            AnthropicBlock::Text { text: "b".into() },
        ],
        stop_reason: Some("tool_use".into()),
        usage: AnthropicUsage { input_tokens: 3, output_tokens: 4 },
    });
    assert_eq!(r.choices[0].delta.content.as_deref(), Some("a\nb"));
    assert_eq!(r.choices[0].delta.tool_calls.as_ref().unwrap().len(), 1);
    assert_eq!(r.choices[0].finish_reason, Some(FinishReason::ToolCalls));
    assert_eq!(r.usage.total_tokens, 7);
    assert_eq!(r.meta.object, "chat.completion");
}

#[test]
fn partial_prefixes() {
    assert!(is_partial_prefix("Hello <tool", "<tool_call>"));
    assert!(!is_partial_prefix("Hello", "<tool_call>"));
    assert!(!is_partial_prefix("<tool_call>", "<tool_call>"));
}

#[test]
fn filter_passes_plain_text() {
    let mut f = ToolCallFilter::new();
    let s = f.accept(Some("Hello"));
    assert_eq!(content(s.flushed.as_ref().unwrap()).as_deref(), Some("Hello"));
    assert!(!s.pass_through);
    let s = f.accept(None);
    assert!(s.flushed.is_none());
    assert!(s.pass_through);
    let (rest, calls) = f.finish(false);
    assert!(rest.is_none());
    assert!(!calls);
}

#[test]
fn filter_holds_partial_tags_and_suppresses_full_ones() {
    let mut f = ToolCallFilter::new();
    let s = f.accept(Some("Sure <tool"));
    assert!(s.flushed.is_none());
    let s = f.accept(Some("_call>{\"name\""));
    assert!(s.flushed.is_none());
    let s = f.accept(Some("more"));
    assert!(s.flushed.is_none());
    assert!(!s.pass_through);
    let s = f.accept(None);
    assert!(!s.pass_through);
    let (rest, calls) = f.finish(true);
    assert!(rest.is_none());
    assert!(calls);
}

#[test]
fn filter_releases_held_text_at_finish() {
    let mut f = ToolCallFilter::new();
    assert!(f.accept(Some("x [TOOL")).flushed.is_none());
    let (rest, calls) = f.finish(true);
    assert_eq!(content(rest.as_ref().unwrap()).as_deref(), Some("x [TOOL"));
    assert!(!calls);
}

#[test]
fn local_chunks_convert() {
    assert_eq!(parse_finish_reason("stop"), Some(FinishReason::Stop));
    assert_eq!(parse_finish_reason("content_filter"), Some(FinishReason::ContentFilter));
    assert_eq!(parse_finish_reason("other"), None);
    let c = to_stream_chunk(LocalChunk {
        id: "c".into(),
        object: "chat.completion.chunk".into(),
        created: 10,
        model: "m".into(),
        system_fingerprint: "fp".into(),
        choices: vec![LocalChunkChoice {
            index: 1,
            content: Some("hey".into()),
            reasoning_content: None,
            tool_calls: Some(vec![LocalToolCall { id: "t".into(), index: 0, name: "f".into(), arguments: "{}".into() }]),
            finish_reason: Some("tool_calls".into()),
        }],
        usage: Some(LocalUsage { prompt_tokens: 1, completion_tokens: 2, total_tokens: 3 }),
    });
    assert_eq!(c.meta.created, 10);
    assert_eq!(c.meta.system_fingerprint.as_deref(), Some("fp"));
    assert_eq!(c.choices[0].index, 1);
    assert_eq!(c.choices[0].delta.role, Some(Role::Assistant));
    assert_eq!(c.choices[0].finish_reason, Some(FinishReason::ToolCalls));
    let calls = c.choices[0].delta.tool_calls.as_ref().unwrap();
    assert_eq!(calls[0].call_type, "function");
    assert_eq!(calls[0].function.name, "f");
    assert_eq!(c.usage.as_ref().unwrap().total_tokens, 3);
}

#[test]
fn local_request_plan() {
    let msg = |role: Role, content: &str| Message { role, content: content.into(), tool_calls: Vec::new(), tool_call_id: String::new() };
    let call = ToolCall {
        id: "c1".into(),
        index: 3,
        call_type: "function".into(),
        function: FunctionCall { name: "f".into(), arguments: "{}".into() },
    };
    let req = Request {
        messages: vec![
            msg(Role::System, "sys"),
            msg(Role::User, "hi"),
            Message { role: Role::Assistant, content: "".into(), tool_calls: vec![call], tool_call_id: String::new() },
            Message { role: Role::Tool, content: "out".into(), tool_calls: Vec::new(), tool_call_id: "c1".into() },
            msg(Role::Assistant, "done"),
        ],
        tools: Some(vec![ToolDef { name: "f".into(), description: "d".into(), parameters: "{}".into() }]),
        tool_choice: Some(ToolChoice::Required),
        think: true,
    };
    let steps = build_request(req);
    assert_eq!(steps.len(), 8);
    assert!(matches!(steps[0], BuildStep::EnableThinking));
    assert!(matches!(&steps[1], BuildStep::AddMessage { role: EngineRole::System, content } if content == "sys"));
    assert!(matches!(&steps[2], BuildStep::AddMessage { role: EngineRole::User, content } if content == "hi"));
    assert!(matches!(&steps[3], BuildStep::AddMessageWithToolCalls { role: EngineRole::Assistant, tool_calls, .. } if tool_calls[0].index == 3 && tool_calls[0].name == "f"));
    assert!(matches!(&steps[4], BuildStep::AddToolMessage { content, tool_call_id } if content == "out" && tool_call_id == "c1"));
    assert!(matches!(&steps[5], BuildStep::AddMessage { role: EngineRole::Assistant, content } if content == "done"));
    assert!(matches!(&steps[6], BuildStep::SetTools(ts) if ts.len() == 1));
    assert!(matches!(steps[7], BuildStep::SetToolChoice(EngineChoice::Auto)));
    let steps = build_request(Request { messages: Vec::new(), tools: None, tool_choice: Some(ToolChoice::Function("g".into())), think: false });
    assert_eq!(steps.len(), 1);
    assert!(matches!(&steps[0], BuildStep::SetToolChoice(EngineChoice::Tool(n)) if n == "g"));
}

#[test]
fn local_responses_convert() {
    let r = local_to_response(LocalResponse {
        id: "r".into(),
        object: "chat.completion".into(),
        created: 5,
        model: "m".into(),
        system_fingerprint: "fp".into(),
        choices: vec![
            LocalChoice { index: 0, content: Some("a".into()), reasoning_content: Some("think".into()), tool_calls: None, finish_reason: "length".into() },
            LocalChoice { index: 1, content: None, reasoning_content: None, tool_calls: Some(Vec::new()), finish_reason: "weird".into() },
        ],
        usage: LocalUsage { prompt_tokens: 4, completion_tokens: 5, total_tokens: 9 },
    });
    assert_eq!(r.meta.created, 5);
    assert_eq!(r.choices.len(), 2);
    assert_eq!(r.choices[0].finish_reason, Some(FinishReason::Length));
    assert_eq!(r.choices[0].delta.reasoning_content.as_deref(), Some("think"));
    assert_eq!(r.choices[1].finish_reason, None);
    assert!(r.choices[1].delta.tool_calls.as_ref().unwrap().is_empty());
    assert_eq!(r.usage.prompt_tokens, 4);
    assert!(r.usage.completion_tokens_details.is_none());
}

#[test]
fn filter_releases_whole_stream_text_in_order() {
    let parts = [Some("I am <"), Some("b>bold</b"), None, Some("> and <t"), Some("ext"), Some("")];
    let mut f = ToolCallFilter::new();
    let mut out = String::new();
    for p in parts {
        let s = f.accept(p);
        if let Some(c) = s.flushed.as_ref() {
            out.push_str(&content(c).unwrap());
        }
    }
    let (rest, calls) = f.finish(false);
    if let Some(c) = rest.as_ref() {
        out.push_str(&content(c).unwrap());
    }
    assert!(!calls);
    assert_eq!(out, "I am <b>bold</b> and <text");
}
