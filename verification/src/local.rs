//! Local inference: the host's memory, and the local engine's output in
//! the unified completion format.

use vstd::prelude::*;
use crate::chunk::{
    calls_view, choices_view, Choice, ChoiceView, CompletionMeta, CompletionMetaView, Delta, DeltaView,
    FinishReason, FunctionCall, FunctionCallView, Response, ResponseView, Role, StreamChunk,
    StreamChunkView, ToolCall, ToolCallView, Usage, UsageView,
};
use crate::text::{opt_view, owned, push_str, str_eq};

verus! {

/// Return total system RAM in bytes (0 when the system cannot be read).
///
/// Trusted: calls `sysinfo::System::new_all` and `System::total_memory`.
/// Nothing is claimed of the result, which depends on the machine.
#[verifier::external_body]
pub fn system_memory() -> u64 {
    match sysinfo::System::new_all() {
        Ok(sys) => sys.total_memory(),
        Err(_) => 0,
    }
}

} // verus!

verus! {

// ── Output of the local inference engine ───────────────────────────────

/// A tool call as the local engine reports it.
pub struct LocalToolCall {
    pub id: String,
    pub index: usize,
    pub name: String,
    pub arguments: String,
}

/// Token usage as the local engine reports it.
pub struct LocalUsage {
    pub prompt_tokens: usize,
    pub completion_tokens: usize,
    pub total_tokens: usize,
}

/// One choice of a streamed chunk from the local engine.
pub struct LocalChunkChoice {
    pub index: usize,
    pub content: Option<String>,
    pub reasoning_content: Option<String>,
    pub tool_calls: Option<Vec<LocalToolCall>>,
    pub finish_reason: Option<String>,
}

/// A streamed chunk from the local engine.
pub struct LocalChunk {
    pub id: String,
    pub object: String,
    pub created: u128,
    pub model: String,
    pub system_fingerprint: String,
    pub choices: Vec<LocalChunkChoice>,
    pub usage: Option<LocalUsage>,
}

/// One choice of a complete response from the local engine.
pub struct LocalChoice {
    pub index: usize,
    pub content: Option<String>,
    pub reasoning_content: Option<String>,
    pub tool_calls: Option<Vec<LocalToolCall>>,
    pub finish_reason: String,
}

/// A complete response from the local engine.
pub struct LocalResponse {
    pub id: String,
    pub object: String,
    pub created: u64,
    pub model: String,
    pub system_fingerprint: String,
    pub choices: Vec<LocalChoice>,
    pub usage: LocalUsage,
}

/// The finish reason a name stands for, if any.
pub open spec fn finish_of(r: Seq<char>) -> Option<FinishReason> {
    if r == "stop"@ {
        Some(FinishReason::Stop)
    } else if r == "length"@ {
        Some(FinishReason::Length)
    } else if r == "content_filter"@ {
        Some(FinishReason::ContentFilter)
    } else if r == "tool_calls"@ {
        Some(FinishReason::ToolCalls)
    } else {
        None
    }
}

/// Parse a finish reason name.
pub fn parse_finish_reason(reason: &str) -> (r: Option<FinishReason>)
    ensures
        r == finish_of(reason@),
{
    if str_eq(reason, "stop") {
        Some(FinishReason::Stop)
    } else if str_eq(reason, "length") {
        Some(FinishReason::Length)
    } else if str_eq(reason, "content_filter") {
        Some(FinishReason::ContentFilter)
    } else if str_eq(reason, "tool_calls") {
        Some(FinishReason::ToolCalls)
    } else {
        None
    }
}

/// A local tool call in the unified format (its index cut to 32 bits).
pub open spec fn local_call_view(tc: LocalToolCall) -> ToolCallView {
    ToolCallView {
        id: tc.id@,
        index: tc.index as u32,
        call_type: "function"@,
        function: FunctionCallView { name: tc.name@, arguments: tc.arguments@ },
    }
}

/// Local tool calls in the unified format.
pub open spec fn local_calls_view(v: Option<Vec<LocalToolCall>>) -> Option<Seq<ToolCallView>> {
    match v {
        Some(cs) => Some(cs@.map_values(|c: LocalToolCall| local_call_view(c))),
        None => None,
    }
}

/// Local usage in the unified format (counts cut to 32 bits).
pub open spec fn local_usage_view(u: LocalUsage) -> UsageView {
    UsageView {
        prompt_tokens: u.prompt_tokens as u32,
        completion_tokens: u.completion_tokens as u32,
        total_tokens: u.total_tokens as u32,
        prompt_cache_hit_tokens: None,
        prompt_cache_miss_tokens: None,
        completion_tokens_details: None,
    }
}

/// Convert a local tool call to the unified format.
pub fn convert_tool_call(tc: LocalToolCall) -> (r: ToolCall)
    ensures
        r@ == local_call_view(tc),
{
    ToolCall {
        id: tc.id,
        index: #[verifier::truncate] (tc.index as u32),
        call_type: owned("function"),
        function: FunctionCall { name: tc.name, arguments: tc.arguments },
    }
}

/// Convert local usage to the unified format.
pub fn convert_usage(u: &LocalUsage) -> (r: Usage)
    ensures
        r@ == local_usage_view(*u),
{
    Usage {
        prompt_tokens: #[verifier::truncate] (u.prompt_tokens as u32),
        completion_tokens: #[verifier::truncate] (u.completion_tokens as u32),
        total_tokens: #[verifier::truncate] (u.total_tokens as u32),
        prompt_cache_hit_tokens: None,
        prompt_cache_miss_tokens: None,
        completion_tokens_details: None,
    }
}

fn convert_calls(v: Option<Vec<LocalToolCall>>) -> (r: Option<Vec<ToolCall>>)
    ensures
        match r {
            Some(cs) => local_calls_view(v) == Some(calls_view(cs@)),
            None => local_calls_view(v) is None,
        },
{
    match v {
        None => None,
        Some(cs) => {
            let ghost src = cs@;
            let mut cs = cs;
            let mut out: Vec<ToolCall> = Vec::new();
            let mut taken: usize = 0;
            let n = cs.len();
            while cs.len() > 0
                invariant
                    n == src.len(),
                    taken <= n,
                    cs@ == src.skip(taken as int),
                    calls_view(out@) == src.take(taken as int).map_values(|c: LocalToolCall| local_call_view(c)),
                decreases cs@.len(),
            {
                let c = cs.remove(0);
                let ghost before = calls_view(out@);
                proof {
                    assert(c == src[taken as int]);
                    assert(cs@ =~= src.skip(taken + 1));
                }
                out.push(convert_tool_call(c));
                proof {
                    assert(calls_view(out@) =~= before.push(local_call_view(src[taken as int])));
                    assert(src.take(taken + 1).map_values(|c: LocalToolCall| local_call_view(c))
                        =~= src.take(taken as int).map_values(|c: LocalToolCall| local_call_view(c)).push(local_call_view(src[taken as int])));
                }
                taken = taken + 1;
            }
            proof {
                assert(taken == n);
                assert(src.take(taken as int) =~= src);
            }
            Some(out)
        },
    }
}

/// A streamed local choice in the unified format.
pub open spec fn local_chunk_choice_view(c: LocalChunkChoice) -> ChoiceView {
    ChoiceView {
        index: c.index as u32,
        delta: DeltaView {
            role: Some(Role::Assistant),
            content: opt_view(c.content),
            reasoning_content: opt_view(c.reasoning_content),
            tool_calls: local_calls_view(c.tool_calls),
        },
        finish_reason: match c.finish_reason {
            Some(r) => finish_of(r@),
            None => None,
        },
    }
}

/// A streamed local chunk in the unified format.
pub open spec fn local_chunk_view(c: LocalChunk) -> StreamChunkView {
    StreamChunkView {
        meta: CompletionMetaView {
            id: c.id@,
            object: c.object@,
            created: c.created as u64,
            model: c.model@,
            system_fingerprint: Some(c.system_fingerprint@),
        },
        choices: c.choices@.map_values(|ch: LocalChunkChoice| local_chunk_choice_view(ch)),
        usage: match c.usage {
            Some(u) => Some(local_usage_view(u)),
            None => None,
        },
    }
}

/// Convert a streamed local chunk to the unified format.
pub fn to_stream_chunk(chunk: LocalChunk) -> (r: StreamChunk)
    ensures
        r@ == local_chunk_view(chunk),
{
    let ghost src = chunk.choices@;
    let usage = match &chunk.usage {
        Some(u) => Some(convert_usage(u)),
        None => None,
    };
    let mut cs = chunk.choices;
    let n = cs.len();
    let mut choices: Vec<Choice> = Vec::new();
    let mut taken: usize = 0;
    while cs.len() > 0
        invariant
            n == src.len(),
            taken <= n,
            cs@ == src.skip(taken as int),
            choices_view(choices@) == src.take(taken as int).map_values(|ch: LocalChunkChoice| local_chunk_choice_view(ch)),
        decreases cs@.len(),
    {
        let c = cs.remove(0);
        proof {
            assert(c == src[taken as int]);
            assert(cs@ =~= src.skip(taken + 1));
        }
        let finish = match &c.finish_reason {
            Some(r) => parse_finish_reason(r.as_str()),
            None => None,
        };
        let choice = Choice {
            index: #[verifier::truncate] (c.index as u32),
            delta: Delta {
                role: Some(Role::Assistant),
                content: c.content,
                reasoning_content: c.reasoning_content,
                tool_calls: convert_calls(c.tool_calls),
            },
            finish_reason: finish,
        };
        let ghost before = choices_view(choices@);
        choices.push(choice);
        proof {
            assert(choices_view(choices@) =~= before.push(local_chunk_choice_view(src[taken as int])));
            assert(src.take(taken + 1).map_values(|ch: LocalChunkChoice| local_chunk_choice_view(ch))
                =~= src.take(taken as int).map_values(|ch: LocalChunkChoice| local_chunk_choice_view(ch)).push(local_chunk_choice_view(src[taken as int])));
        }
        taken = taken + 1;
    }
    proof {
        assert(taken == n);
        assert(src.take(taken as int) =~= src);
    }
    StreamChunk {
        meta: CompletionMeta {
            id: chunk.id,
            object: chunk.object,
            created: #[verifier::truncate] (chunk.created as u64),
            model: chunk.model,
            system_fingerprint: Some(chunk.system_fingerprint),
        },
        choices,
        usage,
    }
}

/// A complete local choice in the unified format.
pub open spec fn local_choice_view(c: LocalChoice) -> ChoiceView {
    ChoiceView {
        index: c.index as u32,
        delta: DeltaView {
            role: Some(Role::Assistant),
            content: opt_view(c.content),
            reasoning_content: opt_view(c.reasoning_content),
            tool_calls: local_calls_view(c.tool_calls),
        },
        finish_reason: finish_of(c.finish_reason@),
    }
}

/// A complete local response in the unified format.
pub open spec fn local_response_view(r: LocalResponse) -> ResponseView {
    ResponseView {
        meta: CompletionMetaView {
            id: r.id@,
            object: r.object@,
            created: r.created,
            model: r.model@,
            system_fingerprint: Some(r.system_fingerprint@),
        },
        choices: r.choices@.map_values(|ch: LocalChoice| local_choice_view(ch)),
        usage: local_usage_view(r.usage),
    }
}

/// Convert a complete local response to the unified format.
pub fn to_response(resp: LocalResponse) -> (r: Response)
    ensures
        r@ == local_response_view(resp),
{
    let ghost src = resp.choices@;
    let usage = convert_usage(&resp.usage);
    let mut cs = resp.choices;
    let n = cs.len();
    let mut choices: Vec<Choice> = Vec::new();
    let mut taken: usize = 0;
    while cs.len() > 0
        invariant
            n == src.len(),
            taken <= n,
            cs@ == src.skip(taken as int),
            choices_view(choices@) == src.take(taken as int).map_values(|ch: LocalChoice| local_choice_view(ch)),
        decreases cs@.len(),
    {
        let c = cs.remove(0);
        proof {
            assert(c == src[taken as int]);
            assert(cs@ =~= src.skip(taken + 1));
        }
        let finish = parse_finish_reason(c.finish_reason.as_str());
        let choice = Choice {
            index: #[verifier::truncate] (c.index as u32),
            delta: Delta {
                role: Some(Role::Assistant),
                content: c.content,
                reasoning_content: c.reasoning_content,
                tool_calls: convert_calls(c.tool_calls),
            },
            finish_reason: finish,
        };
        let ghost before = choices_view(choices@);
        choices.push(choice);
        proof {
            assert(choices_view(choices@) =~= before.push(local_choice_view(src[taken as int])));
            assert(src.take(taken + 1).map_values(|ch: LocalChoice| local_choice_view(ch))
                =~= src.take(taken as int).map_values(|ch: LocalChoice| local_choice_view(ch)).push(local_choice_view(src[taken as int])));
        }
        taken = taken + 1;
    }
    proof {
        assert(taken == n);
        assert(src.take(taken as int) =~= src);
    }
    Response {
        meta: CompletionMeta {
            id: resp.id,
            object: resp.object,
            created: resp.created,
            model: resp.model,
            system_fingerprint: Some(resp.system_fingerprint),
        },
        choices,
        usage,
    }
}

} // verus!

verus! {

// ── Requests to the local engine ──────────────────────────────────────

/// A message of a conversation sent for completion.
pub struct Message {
    pub role: Role,
    pub content: String,
    /// Tool calls the assistant made in this message.
    pub tool_calls: Vec<ToolCall>,
    /// The call a tool message answers.
    pub tool_call_id: String,
}

/// A tool offered to the model; `parameters` is its JSON schema as text.
pub struct ToolDef {
    pub name: String,
    pub description: String,
    pub parameters: String,
}

/// How the model may choose tools.
pub enum ToolChoice {
    /// No tool may be called.
    NoTools,
    Auto,
    Required,
    Function(String),
}

/// A completion request.
pub struct Request {
    pub messages: Vec<Message>,
    pub tools: Option<Vec<ToolDef>>,
    pub tool_choice: Option<ToolChoice>,
    /// Whether to enable the model's thinking mode.
    pub think: bool,
}

/// The roles the local engine knows for plain messages.
#[derive(Clone, Copy, Debug, PartialEq, Eq, Structural)]
pub enum EngineRole {
    System,
    User,
    Assistant,
}

/// The local engine's tool choice.
pub enum EngineChoice {
    /// No tool may be called.
    NoTools,
    Auto,
    Tool(String),
}

/// One call on the local engine's request builder.
pub enum BuildStep {
    EnableThinking,
    AddMessage { role: EngineRole, content: String },
    AddMessageWithToolCalls { role: EngineRole, content: String, tool_calls: Vec<LocalToolCall> },
    AddToolMessage { content: String, tool_call_id: String },
    SetTools(Vec<ToolDef>),
    SetToolChoice(EngineChoice),
}

/// The text view of a tool definition.
pub open spec fn tool_def_view(t: ToolDef) -> (Seq<char>, Seq<char>, Seq<char>) {
    (t.name@, t.description@, t.parameters@)
}

/// A local tool call with the text view of its fields.
pub open spec fn engine_call_view(c: LocalToolCall) -> (Seq<char>, usize, Seq<char>, Seq<char>) {
    (c.id@, c.index, c.name@, c.arguments@)
}

/// The builder calls, as plain values.
pub enum StepView {
    EnableThinking,
    AddMessage(EngineRole, Seq<char>),
    AddMessageWithToolCalls(EngineRole, Seq<char>, Seq<(Seq<char>, usize, Seq<char>, Seq<char>)>),
    AddToolMessage(Seq<char>, Seq<char>),
    SetTools(Seq<(Seq<char>, Seq<char>, Seq<char>)>),
    SetNoTool,
    SetAutoTool,
    SetTool(Seq<char>),
}

/// The plain view of a builder call.
pub open spec fn step_view(s: BuildStep) -> StepView {
    match s {
        BuildStep::EnableThinking => StepView::EnableThinking,
        BuildStep::AddMessage { role, content } => StepView::AddMessage(role, content@),
        BuildStep::AddMessageWithToolCalls { role, content, tool_calls } => StepView::AddMessageWithToolCalls(
            role,
            content@,
            tool_calls@.map_values(|c: LocalToolCall| engine_call_view(c)),
        ),
        BuildStep::AddToolMessage { content, tool_call_id } => StepView::AddToolMessage(content@, tool_call_id@),
        BuildStep::SetTools(ts) => StepView::SetTools(ts@.map_values(|t: ToolDef| tool_def_view(t))),
        BuildStep::SetToolChoice(EngineChoice::NoTools) => StepView::SetNoTool,
        BuildStep::SetToolChoice(EngineChoice::Auto) => StepView::SetAutoTool,
        BuildStep::SetToolChoice(EngineChoice::Tool(n)) => StepView::SetTool(n@),
    }
}

/// A unified tool call as the local engine takes it.
pub open spec fn call_for_engine(c: ToolCall) -> (Seq<char>, usize, Seq<char>, Seq<char>) {
    (c.id@, c.index as usize, c.function.name@, c.function.arguments@)
}

/// The builder call that adds message `m`.
pub open spec fn message_step(m: Message) -> StepView {
    match m.role {
        Role::System => StepView::AddMessage(EngineRole::System, m.content@),
        Role::User => StepView::AddMessage(EngineRole::User, m.content@),
        Role::Assistant => if m.tool_calls@.len() == 0 {
            StepView::AddMessage(EngineRole::Assistant, m.content@)
        } else {
            StepView::AddMessageWithToolCalls(
                EngineRole::Assistant,
                m.content@,
                m.tool_calls@.map_values(|c: ToolCall| call_for_engine(c)),
            )
        },
        Role::Tool => StepView::AddToolMessage(m.content@, m.tool_call_id@),
    }
}

/// The builder call for a tool choice: `Required` becomes `Auto`.
pub open spec fn choice_step(c: ToolChoice) -> StepView {
    match c {
        ToolChoice::NoTools => StepView::SetNoTool,
        ToolChoice::Auto => StepView::SetAutoTool,
        ToolChoice::Required => StepView::SetAutoTool,
        ToolChoice::Function(n) => StepView::SetTool(n@),
    }
}

/// The builder calls for a request, in order: thinking, the messages,
/// the tools, the tool choice.
pub open spec fn request_plan(r: Request) -> Seq<StepView> {
    (if r.think { seq![StepView::EnableThinking] } else { Seq::empty() })
        + r.messages@.map_values(|m: Message| message_step(m))
        + match r.tools {
            Some(ts) => seq![StepView::SetTools(ts@.map_values(|t: ToolDef| tool_def_view(t)))],
            None => Seq::empty(),
        }
        + match r.tool_choice {
            Some(c) => seq![choice_step(c)],
            None => Seq::empty(),
        }
}

fn engine_calls(calls: &Vec<ToolCall>) -> (r: Vec<LocalToolCall>)
    ensures
        r@.map_values(|c: LocalToolCall| engine_call_view(c)) == calls@.map_values(|c: ToolCall| call_for_engine(c)),
{
    let mut out: Vec<LocalToolCall> = Vec::new();
    let mut i: usize = 0;
    while i < calls.len()
        invariant
            i <= calls@.len(),
            out@.map_values(|c: LocalToolCall| engine_call_view(c))
                == calls@.take(i as int).map_values(|c: ToolCall| call_for_engine(c)),
        decreases calls@.len() - i,
    {
        let c = &calls[i];
        let lc = LocalToolCall {
            id: c.id.clone(),
            index: c.index as usize,
            name: c.function.name.clone(),
            arguments: c.function.arguments.clone(),
        };
        proof {
            assert(out@.push(lc).map_values(|c: LocalToolCall| engine_call_view(c))
                =~= out@.map_values(|c: LocalToolCall| engine_call_view(c)).push(engine_call_view(lc)));
            assert(calls@.take(i + 1).map_values(|c: ToolCall| call_for_engine(c))
                =~= calls@.take(i as int).map_values(|c: ToolCall| call_for_engine(c)).push(call_for_engine(calls@[i as int])));
        }
        out.push(lc);
        i = i + 1;
    }
    proof {
        assert(calls@.take(i as int) =~= calls@);
    }
    out
}

fn message_to_step(m: Message) -> (r: BuildStep)
    ensures
        step_view(r) == message_step(m),
{
    match m.role {
        Role::System => BuildStep::AddMessage { role: EngineRole::System, content: m.content },
        Role::User => BuildStep::AddMessage { role: EngineRole::User, content: m.content },
        Role::Assistant => {
            if m.tool_calls.len() == 0 {
                BuildStep::AddMessage { role: EngineRole::Assistant, content: m.content }
            } else {
                let tool_calls = engine_calls(&m.tool_calls);
                BuildStep::AddMessageWithToolCalls { role: EngineRole::Assistant, content: m.content, tool_calls }
            }
        },
        Role::Tool => BuildStep::AddToolMessage { content: m.content, tool_call_id: m.tool_call_id },
    }
}

/// The calls to make on the local engine's request builder for `request`
/// (see [`request_plan`]).
pub fn build_request(request: Request) -> (r: Vec<BuildStep>)
    ensures
        r@.map_values(|s: BuildStep| step_view(s)) == request_plan(request),
{
    let ghost req = request;
    let Request { messages, tools, tool_choice, think } = request;
    let mut out: Vec<BuildStep> = Vec::new();
    if think {
        out.push(BuildStep::EnableThinking);
    }
    let ghost head = out@.map_values(|s: BuildStep| step_view(s));
    proof {
        assert(head =~= (if think { seq![StepView::EnableThinking] } else { Seq::<StepView>::empty() }));
    }
    let ghost src = messages@;
    let mut ms = messages;
    let mut taken: usize = 0;
    let n = ms.len();
    while ms.len() > 0
        invariant
            n == src.len(),
            taken <= n,
            ms@ == src.skip(taken as int),
            out@.map_values(|s: BuildStep| step_view(s))
                == head + src.take(taken as int).map_values(|m: Message| message_step(m)),
        decreases ms@.len(),
    {
        let m = ms.remove(0);
        proof {
            assert(m == src[taken as int]);
            assert(ms@ =~= src.skip(taken + 1));
        }
        let step = message_to_step(m);
        let ghost before = out@.map_values(|s: BuildStep| step_view(s));
        out.push(step);
        proof {
            assert(out@.map_values(|s: BuildStep| step_view(s)) =~= before.push(message_step(src[taken as int])));
            assert(src.take(taken + 1).map_values(|m: Message| message_step(m))
                =~= src.take(taken as int).map_values(|m: Message| message_step(m)).push(message_step(src[taken as int])));
        }
        taken = taken + 1;
    }
    proof {
        assert(taken == n);
        assert(src.take(taken as int) =~= src);
    }
    let ghost mid = out@.map_values(|s: BuildStep| step_view(s));
    match tools {
        Some(ts) => {
            out.push(BuildStep::SetTools(ts));
            proof {
                assert(out@.map_values(|s: BuildStep| step_view(s)) =~= mid.push(step_view(out@.last())));
            }
        },
        None => {},
    }
    let ghost after_tools = out@.map_values(|s: BuildStep| step_view(s));
    match tool_choice {
        Some(c) => {
            let choice = match c {
                ToolChoice::NoTools => EngineChoice::NoTools,
                ToolChoice::Auto => EngineChoice::Auto,
                ToolChoice::Required => EngineChoice::Auto,
                ToolChoice::Function(name) => EngineChoice::Tool(name),
            };
            out.push(BuildStep::SetToolChoice(choice));
            proof {
                assert(out@.map_values(|s: BuildStep| step_view(s)) =~= after_tools.push(step_view(out@.last())));
            }
        },
        None => {},
    }
    proof {
        assert(out@.map_values(|s: BuildStep| step_view(s)) =~= request_plan(req));
    }
    out
}

} // verus!

verus! {

// ── Loading state of a local model ─────────────────────────────────────

/// Where loading a local model stands.
pub enum LoadState<M> {
    /// Being downloaded or built.
    Loading,
    /// Ready for inference.
    Ready(M),
    /// Loading failed, for the given reason.
    Failed(String),
}

/// The message for a model that failed to load.
pub open spec fn failed_text(model_id: Seq<char>, e: Seq<char>) -> Seq<char> {
    "local model '"@ + model_id + "' failed to load: "@ + e
}

/// The message for a model still loading.
pub open spec fn loading_text(model_id: Seq<char>) -> Seq<char> {
    "local model '"@ + model_id + "' is still loading, please wait..."@
}

fn failed_message(model_id: &str, e: &str) -> (r: String)
    ensures
        r@ == failed_text(model_id@, e@),
{
    let mut m = owned("local model '");
    push_str(&mut m, model_id);
    push_str(&mut m, "' failed to load: ");
    push_str(&mut m, e);
    m
}

/// The model, if it is ready; else why it cannot be used yet.
pub fn ready_model<'a, M>(state: &'a LoadState<M>, model_id: &str) -> (r: Result<&'a M, String>)
    ensures
        match state {
            LoadState::Ready(m) => r == Ok::<&M, String>(m),
            LoadState::Loading => r is Err && r->Err_0@ == loading_text(model_id@),
            LoadState::Failed(e) => r is Err && r->Err_0@ == failed_text(model_id@, e@),
        },
{
    match state {
        LoadState::Ready(m) => Ok(m),
        LoadState::Loading => {
            let mut msg = owned("local model '");
            push_str(&mut msg, model_id);
            push_str(&mut msg, "' is still loading, please wait...");
            Err(msg)
        },
        LoadState::Failed(e) => Err(failed_message(model_id, e.as_str())),
    }
}

/// How waiting for a model ends once it is no longer loading.
pub fn load_outcome<M>(state: &LoadState<M>, model_id: &str) -> (r: Result<(), String>)
    requires
        !(state is Loading),
    ensures
        match state {
            LoadState::Failed(e) => r is Err && r->Err_0@ == failed_text(model_id@, e@),
            _ => r is Ok,
        },
{
    match state {
        LoadState::Failed(e) => Err(failed_message(model_id, e.as_str())),
        _ => Ok(()),
    }
}

/// The tool choice of a request reaches the engine unchanged in meaning:
/// for any builder calls whose views are the plan of `r` (as
/// `build_request` returns), a request that forbids tools ends by forbidding
/// them, `Auto` and `Required` end by letting the engine choose, a named
/// function ends by naming that function, and a request without a tool
/// choice sets none.
pub proof fn law_tool_choice_respected(r: Request, v: Seq<BuildStep>)
    requires
        v.map_values(|s: BuildStep| step_view(s)) == request_plan(r),
    ensures
        r.tool_choice matches Some(ToolChoice::NoTools)
            ==> v.len() > 0 && v.last() matches BuildStep::SetToolChoice(EngineChoice::NoTools),
        r.tool_choice matches Some(ToolChoice::Auto)
            ==> v.len() > 0 && v.last() matches BuildStep::SetToolChoice(EngineChoice::Auto),
        r.tool_choice matches Some(ToolChoice::Required)
            ==> v.len() > 0 && v.last() matches BuildStep::SetToolChoice(EngineChoice::Auto),
        r.tool_choice matches Some(ToolChoice::Function(f))
            ==> v.len() > 0 && (v.last() matches BuildStep::SetToolChoice(EngineChoice::Tool(g)) && g@ == f@),
        r.tool_choice is None
            ==> forall|k: int| 0 <= k < v.len() ==> !(#[trigger] v[k] is SetToolChoice),
{
    let plan = request_plan(r);
    assert(v.map_values(|s: BuildStep| step_view(s)).len() == v.len());
    if r.tool_choice is Some {
        assert(plan.len() > 0);
        assert(plan.last() == choice_step(r.tool_choice->0));
        assert(step_view(v.last()) == plan[plan.len() - 1]);
    } else {
        let head = (if r.think { seq![StepView::EnableThinking] } else { Seq::empty() })
            + r.messages@.map_values(|m: Message| message_step(m));
        let tools = match r.tools {
            Some(ts) => seq![StepView::SetTools(ts@.map_values(|t: ToolDef| tool_def_view(t)))],
            None => Seq::<StepView>::empty(),
        };
        assert(plan =~= head + tools);
        assert forall|k: int| 0 <= k < v.len() implies !(#[trigger] v[k] is SetToolChoice) by {
            assert(step_view(v[k]) == plan[k]);
            if k < head.len() {
                if r.think && k == 0 {
                } else {
                    let j = if r.think { k - 1 } else { k };
                    assert(plan[k] == message_step(r.messages@[j]));
                }
            }
        }
    }
}

/// Whether the builder call `b` adds the message `m`: system and user
/// messages as plain messages of that role, a tool reply with the call it
/// answers, an assistant message as a plain message when it made no tool
/// calls and otherwise with every one of its calls, in order.
pub open spec fn adds_message(b: BuildStep, m: Message) -> bool {
    match m.role {
        Role::System => b matches BuildStep::AddMessage { role: EngineRole::System, content } && content@ == m.content@,
        Role::User => b matches BuildStep::AddMessage { role: EngineRole::User, content } && content@ == m.content@,
        Role::Tool => b matches BuildStep::AddToolMessage { content, tool_call_id }
            && content@ == m.content@ && tool_call_id@ == m.tool_call_id@,
        Role::Assistant => if m.tool_calls@.len() == 0 {
            b matches BuildStep::AddMessage { role: EngineRole::Assistant, content } && content@ == m.content@
        } else {
            b matches BuildStep::AddMessageWithToolCalls { role: EngineRole::Assistant, content, tool_calls }
                && content@ == m.content@ && tool_calls@.len() == m.tool_calls@.len()
                && forall|k: int| 0 <= k < tool_calls@.len() ==> {
                    &&& (#[trigger] tool_calls@[k]).id@ == m.tool_calls@[k].id@
                    &&& tool_calls@[k].index == m.tool_calls@[k].index as usize
                    &&& tool_calls@[k].name@ == m.tool_calls@[k].function.name@
                    &&& tool_calls@[k].arguments@ == m.tool_calls@[k].function.arguments@
                }
        },
    }
}

/// The request reaches the engine whole and in order: thinking is enabled
/// first exactly when asked for, then every message is added in order, then
/// the tools (if any) are set, then the tool choice (if any); nothing else
/// is called.
pub proof fn law_request_in_order(r: Request, v: Seq<BuildStep>)
    requires
        v.map_values(|s: BuildStep| step_view(s)) == request_plan(r),
    ensures
        ({
            let t: int = if r.think { 1 } else { 0 };
            let n = r.messages@.len() as int;
            let u: int = if r.tools is Some { 1 } else { 0 };
            &&& v.len() == t + n + u + (if r.tool_choice is Some { 1int } else { 0 })
            &&& r.think ==> v[0] is EnableThinking
            &&& forall|k: int| t <= k < v.len() ==> !(#[trigger] v[k] is EnableThinking)
            &&& forall|k: int| 0 <= k < n ==> adds_message(#[trigger] v[t + k], r.messages@[k])
            &&& r.tools is Some ==> (v[t + n] matches BuildStep::SetTools(ts)
                && ts@.map_values(|d: ToolDef| tool_def_view(d)) == r.tools->0@.map_values(|d: ToolDef| tool_def_view(d)))
        }),
{
    let plan = request_plan(r);
    let t: int = if r.think { 1 } else { 0 };
    let n = r.messages@.len() as int;
    let head = if r.think { seq![StepView::EnableThinking] } else { Seq::<StepView>::empty() };
    let ms = r.messages@.map_values(|m: Message| message_step(m));
    let tools = match r.tools {
        Some(ts) => seq![StepView::SetTools(ts@.map_values(|d: ToolDef| tool_def_view(d)))],
        None => Seq::<StepView>::empty(),
    };
    let choice = match r.tool_choice {
        Some(c) => seq![choice_step(c)],
        None => Seq::<StepView>::empty(),
    };
    assert(plan =~= head + ms + tools + choice);
    assert(v.map_values(|s: BuildStep| step_view(s)).len() == v.len());
    assert forall|k: int| 0 <= k < v.len() implies step_view(#[trigger] v[k]) == plan[k] by {
        assert(v.map_values(|s: BuildStep| step_view(s))[k] == step_view(v[k]));
    }
    if r.think {
        assert(step_view(v[0]) == plan[0]);
    }
    assert forall|k: int| t <= k < v.len() implies !(#[trigger] v[k] is EnableThinking) by {
        assert(step_view(v[k]) == plan[k]);
        if k < t + n {
            assert(plan[k] == ms[k - t]);
            assert(ms[k - t] == message_step(r.messages@[k - t]));
        } else if k < t + n + tools.len() {
            assert(plan[k] == tools[k - t - n]);
        } else {
            assert(plan[k] == choice[k - t - n - tools.len()]);
        }
    }
    assert forall|k: int| 0 <= k < n implies adds_message(#[trigger] v[t + k], r.messages@[k]) by {
        let m = r.messages@[k];
        let b = v[t + k];
        assert(step_view(b) == plan[t + k]);
        assert(plan[t + k] == ms[k]);
        assert(ms[k] == message_step(m));
        if m.role is Assistant && m.tool_calls@.len() > 0 {
            match b {
                BuildStep::AddMessageWithToolCalls { role, content, tool_calls } => {
                    let lhs = tool_calls@.map_values(|c: LocalToolCall| engine_call_view(c));
                    let rhs = m.tool_calls@.map_values(|c: ToolCall| call_for_engine(c));
                    assert(lhs == rhs);
                    assert(lhs.len() == tool_calls@.len());
                    assert forall|j: int| 0 <= j < tool_calls@.len() implies {
                        &&& (#[trigger] tool_calls@[j]).id@ == m.tool_calls@[j].id@
                        &&& tool_calls@[j].index == m.tool_calls@[j].index as usize
                        &&& tool_calls@[j].name@ == m.tool_calls@[j].function.name@
                        &&& tool_calls@[j].arguments@ == m.tool_calls@[j].function.arguments@
                    } by {
                        assert(lhs[j] == engine_call_view(tool_calls@[j]));
                        assert(rhs[j] == call_for_engine(m.tool_calls@[j]));
                    }
                },
                _ => {},
            }
        }
    }
    if r.tools is Some {
        assert(step_view(v[t + n]) == plan[t + n]);
        assert(plan[t + n] == tools[0]);
    }
}

} // verus!
