//! Provider-neutral completion types: responses and streamed chunks.

use vstd::prelude::*;
use crate::text::opt_view;

verus! {

/// Who authored a message.
#[derive(Clone, Copy, Debug, PartialEq, Eq, Structural)]
pub enum Role {
    System,
    User,
    Assistant,
    Tool,
}

/// Why a completion stopped.
#[derive(Clone, Copy, Debug, PartialEq, Eq, Structural)]
pub enum FinishReason {
    Stop,
    Length,
    ContentFilter,
    ToolCalls,
}

/// A function call requested by the model.
pub struct FunctionCall {
    pub name: String,
    pub arguments: String,
}

/// A tool call requested by the model.
pub struct ToolCall {
    pub id: String,
    pub index: u32,
    pub call_type: String,
    pub function: FunctionCall,
}

/// Incremental (or complete) message content.
pub struct Delta {
    pub role: Option<Role>,
    pub content: Option<String>,
    pub reasoning_content: Option<String>,
    pub tool_calls: Option<Vec<ToolCall>>,
}

/// One completion choice.
pub struct Choice {
    pub index: u32,
    pub delta: Delta,
    pub finish_reason: Option<FinishReason>,
}

/// Completion metadata.
pub struct CompletionMeta {
    pub id: String,
    pub object: String,
    pub created: u64,
    pub model: String,
    pub system_fingerprint: Option<String>,
}

/// Details of completion token usage.
pub struct CompletionTokensDetails {
    pub reasoning_tokens: Option<u32>,
}

/// Token usage.
pub struct Usage {
    pub prompt_tokens: u32,
    pub completion_tokens: u32,
    pub total_tokens: u32,
    pub prompt_cache_hit_tokens: Option<u32>,
    pub prompt_cache_miss_tokens: Option<u32>,
    pub completion_tokens_details: Option<CompletionTokensDetails>,
}

/// A streamed completion chunk.
pub struct StreamChunk {
    pub meta: CompletionMeta,
    pub choices: Vec<Choice>,
    pub usage: Option<Usage>,
}

/// A complete (non-streamed) response.
pub struct Response {
    pub meta: CompletionMeta,
    pub choices: Vec<Choice>,
    pub usage: Usage,
}

// ── Views ──────────────────────────────────────────────────────────────

pub struct FunctionCallView {
    pub name: Seq<char>,
    pub arguments: Seq<char>,
}

pub struct ToolCallView {
    pub id: Seq<char>,
    pub index: u32,
    pub call_type: Seq<char>,
    pub function: FunctionCallView,
}

pub struct DeltaView {
    pub role: Option<Role>,
    pub content: Option<Seq<char>>,
    pub reasoning_content: Option<Seq<char>>,
    pub tool_calls: Option<Seq<ToolCallView>>,
}

pub struct ChoiceView {
    pub index: u32,
    pub delta: DeltaView,
    pub finish_reason: Option<FinishReason>,
}

pub struct CompletionMetaView {
    pub id: Seq<char>,
    pub object: Seq<char>,
    pub created: u64,
    pub model: Seq<char>,
    pub system_fingerprint: Option<Seq<char>>,
}

pub struct UsageView {
    pub prompt_tokens: u32,
    pub completion_tokens: u32,
    pub total_tokens: u32,
    pub prompt_cache_hit_tokens: Option<u32>,
    pub prompt_cache_miss_tokens: Option<u32>,
    pub completion_tokens_details: Option<Option<u32>>,
}

pub struct StreamChunkView {
    pub meta: CompletionMetaView,
    pub choices: Seq<ChoiceView>,
    pub usage: Option<UsageView>,
}

pub struct ResponseView {
    pub meta: CompletionMetaView,
    pub choices: Seq<ChoiceView>,
    pub usage: UsageView,
}

impl View for FunctionCall {
    type V = FunctionCallView;

    open spec fn view(&self) -> FunctionCallView {
        FunctionCallView { name: self.name@, arguments: self.arguments@ }
    }
}

impl View for ToolCall {
    type V = ToolCallView;

    open spec fn view(&self) -> ToolCallView {
        ToolCallView { id: self.id@, index: self.index, call_type: self.call_type@, function: self.function@ }
    }
}

/// The views of a list of tool calls.
pub open spec fn calls_view(v: Seq<ToolCall>) -> Seq<ToolCallView> {
    v.map_values(|c: ToolCall| c@)
}

impl View for Delta {
    type V = DeltaView;

    open spec fn view(&self) -> DeltaView {
        DeltaView {
            role: self.role,
            content: opt_view(self.content),
            reasoning_content: opt_view(self.reasoning_content),
            tool_calls: match self.tool_calls {
                Some(v) => Some(calls_view(v@)),
                None => None,
            },
        }
    }
}

impl View for Choice {
    type V = ChoiceView;

    open spec fn view(&self) -> ChoiceView {
        ChoiceView { index: self.index, delta: self.delta@, finish_reason: self.finish_reason }
    }
}

impl View for CompletionMeta {
    type V = CompletionMetaView;

    open spec fn view(&self) -> CompletionMetaView {
        CompletionMetaView {
            id: self.id@,
            object: self.object@,
            created: self.created,
            model: self.model@,
            system_fingerprint: opt_view(self.system_fingerprint),
        }
    }
}

impl View for Usage {
    type V = UsageView;

    open spec fn view(&self) -> UsageView {
        UsageView {
            prompt_tokens: self.prompt_tokens,
            completion_tokens: self.completion_tokens,
            total_tokens: self.total_tokens,
            prompt_cache_hit_tokens: self.prompt_cache_hit_tokens,
            prompt_cache_miss_tokens: self.prompt_cache_miss_tokens,
            completion_tokens_details: match self.completion_tokens_details {
                Some(d) => Some(d.reasoning_tokens),
                None => None,
            },
        }
    }
}

/// The views of a list of choices.
pub open spec fn choices_view(v: Seq<Choice>) -> Seq<ChoiceView> {
    v.map_values(|c: Choice| c@)
}

impl View for StreamChunk {
    type V = StreamChunkView;

    open spec fn view(&self) -> StreamChunkView {
        StreamChunkView {
            meta: self.meta@,
            choices: choices_view(self.choices@),
            usage: match self.usage {
                Some(u) => Some(u@),
                None => None,
            },
        }
    }
}

impl View for Response {
    type V = ResponseView;

    open spec fn view(&self) -> ResponseView {
        ResponseView { meta: self.meta@, choices: choices_view(self.choices@), usage: self.usage@ }
    }
}

// ── Defaults ───────────────────────────────────────────────────────────

/// Metadata with every field empty.
pub open spec fn empty_meta() -> CompletionMetaView {
    CompletionMetaView {
        id: Seq::empty(),
        object: Seq::empty(),
        created: 0,
        model: Seq::empty(),
        system_fingerprint: None,
    }
}

/// A delta with no content.
pub open spec fn empty_delta() -> DeltaView {
    DeltaView { role: None, content: None, reasoning_content: None, tool_calls: None }
}

/// A chunk holding one choice at index 0 with no finish reason.
pub open spec fn one_choice_chunk(delta: DeltaView) -> StreamChunkView {
    StreamChunkView {
        meta: empty_meta(),
        choices: seq![ChoiceView { index: 0, delta, finish_reason: None }],
        usage: None,
    }
}

/// Metadata with every field empty.
pub fn meta_empty() -> (m: CompletionMeta)
    ensures
        m@ == empty_meta(),
{
    CompletionMeta {
        id: String::new(),
        object: String::new(),
        created: 0,
        model: String::new(),
        system_fingerprint: None,
    }
}

/// A delta with no content.
pub fn delta_empty() -> (d: Delta)
    ensures
        d@ == empty_delta(),
{
    Delta { role: None, content: None, reasoning_content: None, tool_calls: None }
}

/// A chunk holding one choice at index 0 with the given delta.
pub fn chunk_with_delta(delta: Delta) -> (c: StreamChunk)
    ensures
        c@ == one_choice_chunk(delta@),
{
    let c = StreamChunk {
        meta: meta_empty(),
        choices: vec![Choice { index: 0, delta, finish_reason: None }],
        usage: None,
    };
    assert(c@.choices =~= seq![ChoiceView { index: 0, delta: delta@, finish_reason: None }]);
    c
}

/// A chunk carrying only text content.
pub fn text_chunk(content: String) -> (c: StreamChunk)
    ensures
        c@ == one_choice_chunk(DeltaView { content: Some(content@), ..empty_delta() }),
{
    chunk_with_delta(Delta { content: Some(content), ..delta_empty() })
}

} // verus!
