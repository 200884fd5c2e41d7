//! The Anthropic Messages API: streamed events and complete responses,
//! converted to the provider-neutral completion types.

use vstd::prelude::*;
use crate::chunk::{
    calls_view, chunk_with_delta, delta_empty, empty_delta, empty_meta, meta_empty, one_choice_chunk, text_chunk,
    Choice, ChoiceView, CompletionMeta, CompletionMetaView, CompletionTokensDetails, Delta, DeltaView,
    FinishReason, FunctionCall, Response, ResponseView, Role, FunctionCallView, StreamChunk, StreamChunkView, ToolCall, ToolCallView, Usage,
    UsageView,
};
use crate::text::{opt_view, owned, push_char, push_str, str_eq};

verus! {

/// Initial message metadata.
pub struct MessageMeta {
    pub id: String,
    pub model: String,
}

/// The start of a content block.
pub enum ContentBlock {
    Text { text: String },
    ToolUse { id: String, name: String },
    Thinking { thinking: String },
}

/// Incremental content within a block.
pub enum BlockDelta {
    TextDelta { text: String },
    InputJsonDelta { partial_json: String },
    ThinkingDelta { thinking: String },
}

/// The final delta: the stop reason.
pub struct MessageDeltaBody {
    pub stop_reason: Option<String>,
}

/// The final usage report.
pub struct MessageDeltaUsage {
    pub output_tokens: u32,
}

/// A streamed event of the Anthropic Messages API.
#[allow(inconsistent_fields)]
pub enum Event {
    /// Initial message metadata.
    MessageStart { message: MessageMeta },
    /// Begin a content block.
    ContentBlockStart { index: u32, content_block: ContentBlock },
    /// Incremental content within a block.
    ContentBlockDelta { index: u32, delta: BlockDelta },
    /// End of a content block.
    ContentBlockStop,
    /// Final message delta (stop reason and usage).
    MessageDelta { delta: MessageDeltaBody, usage: MessageDeltaUsage },
    /// End of message.
    MessageStop,
    /// Keep-alive.
    Ping,
    /// Any other event type.
    Unknown,
}

/// The finish reason an Anthropic stop reason maps to.
pub open spec fn finish_reason_of(r: Seq<char>) -> FinishReason {
    if r == "end_turn"@ || r == "stop"@ {
        FinishReason::Stop
    } else if r == "max_tokens"@ {
        FinishReason::Length
    } else if r == "tool_use"@ {
        FinishReason::ToolCalls
    } else {
        FinishReason::Stop
    }
}

/// Map an Anthropic stop reason to a finish reason.
pub fn finish_reason(r: &str) -> (f: FinishReason)
    ensures
        f == finish_reason_of(r@),
{
    if str_eq(r, "end_turn") || str_eq(r, "stop") {
        FinishReason::Stop
    } else if str_eq(r, "max_tokens") {
        FinishReason::Length
    } else if str_eq(r, "tool_use") {
        FinishReason::ToolCalls
    } else {
        FinishReason::Stop
    }
}

/// The finish reason of an optional stop reason.
pub open spec fn opt_finish(r: Option<Seq<char>>) -> Option<FinishReason> {
    match r {
        Some(s) => Some(finish_reason_of(s)),
        None => None,
    }
}

/// A chunk carrying one delta at choice 0.
pub open spec fn delta_chunk(d: DeltaView) -> Option<StreamChunkView> {
    Some(one_choice_chunk(d))
}

/// The chunk an event converts to: `None` for events that produce no output
/// (stops, pings, unknown events, and content blocks that start empty).
pub open spec fn event_chunk(e: Event) -> Option<StreamChunkView> {
    match e {
        Event::MessageStart { message } => Some(StreamChunkView {
            meta: CompletionMetaView {
                id: message.id@,
                object: "chat.completion.chunk"@,
                model: message.model@,
                ..empty_meta()
            },
            choices: Seq::empty(),
            usage: None,
        }),
        Event::ContentBlockStart { index, content_block } => match content_block {
            ContentBlock::Text { text } => if text@.len() == 0 {
                None
            } else {
                delta_chunk(DeltaView { content: Some(text@), ..empty_delta() })
            },
            ContentBlock::Thinking { thinking } => if thinking@.len() == 0 {
                None
            } else {
                delta_chunk(DeltaView { reasoning_content: Some(thinking@), ..empty_delta() })
            },
            ContentBlock::ToolUse { id, name } => delta_chunk(DeltaView {
                tool_calls: Some(seq![ToolCallView {
                    id: id@,
                    index,
                    call_type: "function"@,
                    function: FunctionCallView { name: name@, arguments: Seq::empty() },
                }]),
                ..empty_delta()
            }),
        },
        Event::ContentBlockDelta { index, delta } => match delta {
            BlockDelta::TextDelta { text } => delta_chunk(DeltaView { content: Some(text@), ..empty_delta() }),
            BlockDelta::ThinkingDelta { thinking } =>
                delta_chunk(DeltaView { reasoning_content: Some(thinking@), ..empty_delta() }),
            BlockDelta::InputJsonDelta { partial_json } => delta_chunk(DeltaView {
                tool_calls: Some(seq![ToolCallView {
                    id: Seq::empty(),
                    index,
                    call_type: Seq::empty(),
                    function: FunctionCallView { name: Seq::empty(), arguments: partial_json@ },
                }]),
                ..empty_delta()
            }),
        },
        Event::MessageDelta { delta, usage } => Some(StreamChunkView {
            meta: empty_meta(),
            choices: seq![ChoiceView {
                index: 0,
                delta: empty_delta(),
                finish_reason: opt_finish(opt_view(delta.stop_reason)),
            }],
            usage: Some(UsageView {
                prompt_tokens: 0,
                completion_tokens: usage.output_tokens,
                total_tokens: usage.output_tokens,
                prompt_cache_hit_tokens: None,
                prompt_cache_miss_tokens: None,
                completion_tokens_details: Some(None),
            }),
        }),
        _ => None,
    }
}

/// The view of an optional chunk.
pub open spec fn opt_chunk_view(c: Option<StreamChunk>) -> Option<StreamChunkView> {
    match c {
        Some(x) => Some(x@),
        None => None,
    }
}

fn one_call(call: ToolCall) -> (v: Vec<ToolCall>)
    ensures
        calls_view(v@) == seq![call@],
{
    let v = vec![call];
    assert(calls_view(v@) =~= seq![call@]);
    v
}

impl Event {
    /// Convert this event to a streamed chunk. Returns `None` for events
    /// that produce no output.
    pub fn into_chunk(self) -> (r: Option<StreamChunk>)
        ensures
            opt_chunk_view(r) == event_chunk(self),
    {
        match self {
            Event::MessageStart { message } => {
                let c = StreamChunk {
                    meta: CompletionMeta {
                        id: message.id,
                        object: owned("chat.completion.chunk"),
                        created: 0,
                        model: message.model,
                        system_fingerprint: None,
                    },
                    choices: Vec::new(),
                    usage: None,
                };
                assert(c@.choices =~= Seq::<ChoiceView>::empty());
                Some(c)
            },
            Event::ContentBlockStart { index, content_block } => match content_block {
                ContentBlock::Text { text } => {
                    if text.unicode_len() == 0 {
                        None
                    } else {
                        Some(text_chunk(text))
                    }
                },
                ContentBlock::Thinking { thinking } => {
                    if thinking.unicode_len() == 0 {
                        None
                    } else {
                        Some(chunk_with_delta(Delta { reasoning_content: Some(thinking), ..delta_empty() }))
                    }
                },
                ContentBlock::ToolUse { id, name } => {
                    let call = ToolCall {
                        id,
                        index,
                        call_type: owned("function"),
                        function: FunctionCall { name, arguments: String::new() },
                    };
                    Some(chunk_with_delta(Delta { tool_calls: Some(one_call(call)), ..delta_empty() }))
                },
            },
            Event::ContentBlockDelta { index, delta } => match delta {
                BlockDelta::TextDelta { text } => Some(text_chunk(text)),
                BlockDelta::ThinkingDelta { thinking } => {
                    Some(chunk_with_delta(Delta { reasoning_content: Some(thinking), ..delta_empty() }))
                },
                BlockDelta::InputJsonDelta { partial_json } => {
                    let call = ToolCall {
                        id: String::new(),
                        index,
                        call_type: String::new(),
                        function: FunctionCall { name: String::new(), arguments: partial_json },
                    };
                    Some(chunk_with_delta(Delta { tool_calls: Some(one_call(call)), ..delta_empty() }))
                },
            },
            Event::MessageDelta { delta, usage } => {
                let reason = match &delta.stop_reason {
                    Some(r) => Some(finish_reason(r.as_str())),
                    None => None,
                };
                let c = StreamChunk {
                    meta: meta_empty(),
                    choices: vec![Choice { index: 0, delta: delta_empty(), finish_reason: reason }],
                    usage: Some(Usage {
                        prompt_tokens: 0,
                        completion_tokens: usage.output_tokens,
                        total_tokens: usage.output_tokens,
                        prompt_cache_hit_tokens: None,
                        prompt_cache_miss_tokens: None,
                        completion_tokens_details: Some(CompletionTokensDetails { reasoning_tokens: None }),
                    }),
                };
                assert(c@.choices =~= seq![ChoiceView {
                    index: 0,
                    delta: empty_delta(),
                    finish_reason: opt_finish(opt_view(delta.stop_reason)),
                }]);
                Some(c)
            },
            _ => None,
        }
    }
}


/// A content block of a complete Anthropic response.
pub enum AnthropicBlock {
    /// Text content.
    Text { text: String },
    /// A tool call; `input` is its JSON arguments as text.
    ToolUse { id: String, name: String, input: String },
}

/// Token usage of a complete Anthropic response.
pub struct AnthropicUsage {
    pub input_tokens: u32,
    pub output_tokens: u32,
}

/// A complete (non-streamed) Anthropic response.
pub struct AnthropicResponse {
    pub id: String,
    pub model: String,
    pub content: Vec<AnthropicBlock>,
    pub stop_reason: Option<String>,
    pub usage: AnthropicUsage,
}

/// The text blocks of `blocks`, joined with newlines (a newline is added
/// before a block only when the text so far is non-empty).
pub open spec fn joined_text(blocks: Seq<AnthropicBlock>) -> Seq<char>
    decreases blocks.len(),
{
    if blocks.len() == 0 {
        Seq::empty()
    } else {
        let prev = joined_text(blocks.drop_last());
        match blocks.last() {
            AnthropicBlock::Text { text } => if prev.len() == 0 {
                text@
            } else {
                prev.push('\n') + text@
            },
            _ => prev,
        }
    }
}

/// The tool-use blocks of `blocks` as tool calls, numbered from 0.
pub open spec fn tool_calls_of(blocks: Seq<AnthropicBlock>) -> Seq<ToolCallView>
    decreases blocks.len(),
{
    if blocks.len() == 0 {
        Seq::empty()
    } else {
        let prev = tool_calls_of(blocks.drop_last());
        match blocks.last() {
            AnthropicBlock::ToolUse { id, name, input } => prev.push(ToolCallView {
                id: id@,
                index: prev.len() as u32,
                call_type: "function"@,
                function: FunctionCallView { name: name@, arguments: input@ },
            }),
            _ => prev,
        }
    }
}

/// The unified response for an Anthropic response.
pub open spec fn response_of(raw: AnthropicResponse) -> ResponseView {
    let calls = tool_calls_of(raw.content@);
    ResponseView {
        meta: CompletionMetaView {
            id: raw.id@,
            object: "chat.completion"@,
            model: raw.model@,
            ..empty_meta()
        },
        choices: seq![ChoiceView {
            index: 0,
            delta: DeltaView {
                role: Some(Role::Assistant),
                content: Some(joined_text(raw.content@)),
                reasoning_content: None,
                tool_calls: if calls.len() == 0 { None } else { Some(calls) },
            },
            finish_reason: opt_finish(opt_view(raw.stop_reason)),
        }],
        usage: UsageView {
            prompt_tokens: raw.usage.input_tokens,
            completion_tokens: raw.usage.output_tokens,
            total_tokens: (raw.usage.input_tokens + raw.usage.output_tokens) as u32,
            prompt_cache_hit_tokens: None,
            prompt_cache_miss_tokens: None,
            completion_tokens_details: Some(None),
        },
    }
}

/// Convert a complete Anthropic response to the unified format.
pub fn to_response(raw: AnthropicResponse) -> (r: Response)
    requires
        raw.usage.input_tokens + raw.usage.output_tokens <= u32::MAX,
    ensures
        r@ == response_of(raw),
{
    let mut content = String::new();
    let mut tool_calls: Vec<ToolCall> = Vec::new();
    let mut i: usize = 0;
    while i < raw.content.len()
        invariant
            i <= raw.content@.len(),
            content@ == joined_text(raw.content@.subrange(0, i as int)),
            calls_view(tool_calls@) == tool_calls_of(raw.content@.subrange(0, i as int)),
        decreases raw.content@.len() - i,
    {
        let ghost pre = raw.content@.subrange(0, i + 1);
        proof {
            assert(pre.drop_last() =~= raw.content@.subrange(0, i as int));
            assert(pre.last() == raw.content@[i as int]);
        }
        match &raw.content[i] {
            AnthropicBlock::Text { text } => {
                if content.unicode_len() != 0 {
                    push_char(&mut content, '\n');
                }
                push_str(&mut content, text.as_str());
            },
            AnthropicBlock::ToolUse { id, name, input } => {
                let ghost before = calls_view(tool_calls@);
                let index = tool_calls.len() as u32;
                tool_calls.push(ToolCall {
                    id: id.clone(),
                    index,
                    call_type: owned("function"),
                    function: FunctionCall { name: name.clone(), arguments: input.clone() },
                });
                proof {
                    assert(calls_view(tool_calls@) =~= before.push(tool_calls@.last()@));
                }
            },
        }
        i = i + 1;
    }
    proof {
        assert(raw.content@.subrange(0, i as int) =~= raw.content@);
    }
    let finish = match &raw.stop_reason {
        Some(s) => Some(finish_reason(s.as_str())),
        None => None,
    };
    let calls = if tool_calls.len() == 0 {
        None
    } else {
        Some(tool_calls)
    };
    let r = Response {
        meta: CompletionMeta {
            id: raw.id,
            object: owned("chat.completion"),
            created: 0,
            model: raw.model,
            system_fingerprint: None,
        },
        choices: vec![Choice {
            index: 0,
            delta: Delta {
                role: Some(Role::Assistant),
                content: Some(content),
                reasoning_content: None,
                tool_calls: calls,
            },
            finish_reason: finish,
        }],
        usage: Usage {
            prompt_tokens: raw.usage.input_tokens,
            completion_tokens: raw.usage.output_tokens,
            total_tokens: raw.usage.input_tokens + raw.usage.output_tokens,
            prompt_cache_hit_tokens: None,
            prompt_cache_miss_tokens: None,
            completion_tokens_details: Some(CompletionTokensDetails { reasoning_tokens: None }),
        },
    };
    assert(r@.choices =~= response_of(raw).choices);
    r
}

/// Whether a chunk carries exactly one choice whose delta holds `text` as
/// reasoning and no answer text or tool calls.
pub open spec fn reasoning_only(c: Option<StreamChunkView>, text: Seq<char>) -> bool {
    c matches Some(v) && v.choices.len() == 1 && v.choices[0].delta.reasoning_content == Some(text)
        && v.choices[0].delta.content is None && v.choices[0].delta.tool_calls is None
}

/// Whether a chunk carries exactly one choice whose delta holds `text` as
/// answer text and no reasoning or tool calls.
pub open spec fn answer_only(c: Option<StreamChunkView>, text: Seq<char>) -> bool {
    c matches Some(v) && v.choices.len() == 1 && v.choices[0].delta.content == Some(text)
        && v.choices[0].delta.reasoning_content is None && v.choices[0].delta.tool_calls is None
}

/// Thinking and answer text stay apart: a thinking delta, or a thinking
/// block that starts with text, streams its text as reasoning and never as
/// answer content; a text delta, or a text block that starts with text,
/// streams it as answer content and never as reasoning.
pub proof fn law_thinking_is_reasoning(e: Event)
    ensures
        e matches Event::ContentBlockDelta { delta: BlockDelta::ThinkingDelta { thinking }, .. }
            ==> reasoning_only(event_chunk(e), thinking@),
        e matches Event::ContentBlockStart { content_block: ContentBlock::Thinking { thinking }, .. }
            ==> (thinking@.len() > 0 ==> reasoning_only(event_chunk(e), thinking@)),
        e matches Event::ContentBlockDelta { delta: BlockDelta::TextDelta { text }, .. }
            ==> answer_only(event_chunk(e), text@),
        e matches Event::ContentBlockStart { content_block: ContentBlock::Text { text }, .. }
            ==> (text@.len() > 0 ==> answer_only(event_chunk(e), text@)),
{
}

/// The tool-use blocks of a response, in order.
pub open spec fn tool_use_blocks(blocks: Seq<AnthropicBlock>) -> Seq<AnthropicBlock> {
    blocks.filter(|b: AnthropicBlock| b is ToolUse)
}

/// Every tool-use block becomes a tool call, in order: there are as many
/// calls as tool-use blocks, and the `k`-th call has index `k` and the id,
/// name and input of the `k`-th tool-use block.
proof fn lemma_tool_calls_in_order(blocks: Seq<AnthropicBlock>)
    ensures
        tool_calls_of(blocks).len() == tool_use_blocks(blocks).len(),
        forall|k: int| 0 <= k < tool_calls_of(blocks).len() ==> {
            &&& (#[trigger] tool_calls_of(blocks)[k]).index == k as u32
            &&& (tool_use_blocks(blocks)[k] matches AnthropicBlock::ToolUse { id, name, input }
                && tool_calls_of(blocks)[k].id == id@
                && tool_calls_of(blocks)[k].function.name == name@
                && tool_calls_of(blocks)[k].function.arguments == input@)
        },
    decreases blocks.len(),
{
    reveal_with_fuel(Seq::filter, 1);
    if blocks.len() > 0 {
        lemma_tool_calls_in_order(blocks.drop_last());
        let d = blocks.drop_last();
        assert(tool_use_blocks(blocks) == if blocks.last() is ToolUse {
            tool_use_blocks(d).push(blocks.last())
        } else {
            tool_use_blocks(d)
        });
        let cs = tool_calls_of(blocks);
        let us = tool_use_blocks(blocks);
        assert forall|k: int| 0 <= k < cs.len() implies {
            &&& (#[trigger] cs[k]).index == k as u32
            &&& (us[k] matches AnthropicBlock::ToolUse { id, name, input }
                && cs[k].id == id@ && cs[k].function.name == name@ && cs[k].function.arguments == input@)
        } by {
            if k < tool_calls_of(d).len() {
                assert(cs[k] == tool_calls_of(d)[k]);
                assert(us[k] == tool_use_blocks(d)[k]);
            }
        }
    }
}

/// A complete response keeps every tool call: with no tool-use block it has
/// none; otherwise its choice carries one call per tool-use block, in block
/// order, the `k`-th with index `k` (as a `u32`) and that block's id,
/// name and input.
pub proof fn law_response_keeps_every_tool_call(raw: AnthropicResponse)
    ensures
        ({
            let uses = tool_use_blocks(raw.content@);
            let d = response_of(raw).choices[0].delta;
            &&& response_of(raw).choices.len() == 1
            &&& uses.len() == 0 ==> d.tool_calls is None
            &&& uses.len() > 0 ==> (d.tool_calls matches Some(cs) && cs.len() == uses.len()
                && forall|k: int| 0 <= k < cs.len() ==> {
                    &&& (#[trigger] cs[k]).index == k as u32
                    &&& (uses[k] matches AnthropicBlock::ToolUse { id, name, input }
                        && cs[k].id == id@ && cs[k].function.name == name@ && cs[k].function.arguments == input@)
                })
        }),
{
    lemma_tool_calls_in_order(raw.content@);
}

/// The single tool call of a chunk that carries exactly one choice with one
/// tool call and no text or reasoning, if the chunk is such.
pub open spec fn sole_tool_call(c: Option<StreamChunkView>) -> Option<ToolCallView> {
    match c {
        Some(v) => if v.choices.len() == 1 && v.choices[0].delta.content is None
            && v.choices[0].delta.reasoning_content is None && v.choices[0].delta.tool_calls is Some
            && v.choices[0].delta.tool_calls->0.len() == 1 {
            Some(v.choices[0].delta.tool_calls->0[0])
        } else {
            None
        },
        None => None,
    }
}

/// Tool calls stream under their block's index: a tool-use block start
/// gives one function call with the block's id, name and index and no
/// arguments yet; an input delta gives one call at that index carrying the
/// JSON fragment; neither carries text or reasoning.
pub proof fn law_tool_events_keep_index(e: Event)
    ensures
        e matches Event::ContentBlockStart { index, content_block: ContentBlock::ToolUse { id, name } }
            ==> sole_tool_call(event_chunk(e)) == Some(ToolCallView {
                id: id@,
                index,
                call_type: "function"@,
                function: FunctionCallView { name: name@, arguments: Seq::empty() },
            }),
        e matches Event::ContentBlockDelta { index, delta: BlockDelta::InputJsonDelta { partial_json } }
            ==> sole_tool_call(event_chunk(e)) == Some(ToolCallView {
                id: Seq::empty(),
                index,
                call_type: Seq::empty(),
                function: FunctionCallView { name: Seq::empty(), arguments: partial_json@ },
            }),
{
}

/// The stop reasons that map to something other than a stop differ from
/// those that map to a stop.
proof fn lemma_stop_names_distinct()
    ensures
        "max_tokens"@ != "end_turn"@,
        "max_tokens"@ != "stop"@,
        "tool_use"@ != "end_turn"@,
        "tool_use"@ != "stop"@,
        "tool_use"@ != "max_tokens"@,
{
    reveal_strlit("max_tokens");
    reveal_strlit("tool_use");
    reveal_strlit("end_turn");
    reveal_strlit("stop");
    assert("max_tokens"@.len() != "end_turn"@.len());
    assert("max_tokens"@.len() != "stop"@.len());
    assert("tool_use"@[0] != "end_turn"@[0]);
    assert("tool_use"@.len() != "stop"@.len());
    assert("tool_use"@.len() != "max_tokens"@.len());
}

/// The end of a message reports its stop reason and output tokens: the
/// chunk's one choice has no content and finishes as the stop reason says
/// (`max_tokens` as length, `tool_use` as tool calls, anything else as a
/// stop), and its usage counts the output tokens as completion and total.
pub proof fn law_message_delta_reports_end(e: Event)
    ensures
        e matches Event::MessageDelta { delta, usage } ==> {
            let v = event_chunk(e)->Some_0;
            let f = v.choices[0].finish_reason;
            &&& event_chunk(e) is Some
            &&& v.choices.len() == 1
            &&& v.choices[0].delta.content is None
            &&& v.choices[0].delta.tool_calls is None
            &&& delta.stop_reason is None ==> f is None
            &&& delta.stop_reason is Some ==> {
                let r = delta.stop_reason->0@;
                &&& r == "max_tokens"@ ==> f == Some(FinishReason::Length)
                &&& r == "tool_use"@ ==> f == Some(FinishReason::ToolCalls)
                &&& r != "max_tokens"@ && r != "tool_use"@ ==> f == Some(FinishReason::Stop)
            }
            &&& v.usage is Some
            &&& v.usage->0.prompt_tokens == 0
            &&& v.usage->0.completion_tokens == usage.output_tokens
            &&& v.usage->0.total_tokens == usage.output_tokens
        },
{
    lemma_stop_names_distinct();
}

/// A complete response reports its usage and stop reason faithfully:
/// prompt and completion tokens are the input and output tokens, the total
/// is their sum, and the finish reason follows the stop reason.
pub proof fn law_response_usage_and_finish(raw: AnthropicResponse)
    requires
        raw.usage.input_tokens + raw.usage.output_tokens <= u32::MAX,
    ensures
        ({
            let r = response_of(raw);
            &&& r.usage.prompt_tokens == raw.usage.input_tokens
            &&& r.usage.completion_tokens == raw.usage.output_tokens
            &&& r.usage.total_tokens == raw.usage.input_tokens + raw.usage.output_tokens
            &&& raw.stop_reason is None ==> r.choices[0].finish_reason is None
            &&& (raw.stop_reason is Some && raw.stop_reason->0@ == "tool_use"@)
                ==> r.choices[0].finish_reason == Some(FinishReason::ToolCalls)
            &&& (raw.stop_reason is Some && raw.stop_reason->0@ == "max_tokens"@)
                ==> r.choices[0].finish_reason == Some(FinishReason::Length)
            &&& r.meta.id == raw.id@ && r.meta.model == raw.model@
        }),
{
    lemma_stop_names_distinct();
}

} // verus!
