//! Wire protocol messages: requests, responses, streaming events and the
//! conversions between them and the two message enums.

use vstd::prelude::*;
use vstd::std_specs::convert::{FromSpec, FromSpecImpl, TryFromSpec, TryFromSpecImpl};
use std::collections::BTreeMap;
use crate::text::{owned, push_decimal, push_str, decimal};

verus! {

/// Summary of a registered agent.
pub struct AgentSummary {
    /// Agent name.
    pub name: String,
    /// Agent description.
    pub description: String,
}

/// Summary of a connected MCP server.
pub struct McpServerSummary {
    /// Server name.
    pub name: String,
    /// Tool names provided by this server.
    pub tools: Vec<String>,
}

/// Messages sent by the client to the gateway.
pub enum ClientMessage {
    /// Send a message to an agent and receive a complete response.
    Send { agent: String, content: String },
    /// Send a message to an agent and receive a streamed response.
    Stream { agent: String, content: String },
    /// Clear the session history for an agent.
    ClearSession { agent: String },
    /// List all registered agents.
    ListAgents,
    /// Get detailed info for a specific agent.
    AgentInfo { agent: String },
    /// List all memory entries.
    ListMemory,
    /// Get a specific memory entry by key.
    GetMemory { key: String },
    /// Request download of a model's files with progress reporting.
    Download { model: String },
    /// Reload skills from disk.
    ReloadSkills,
    /// Add an MCP server to config and reload.
    McpAdd { name: String, command: String, args: Vec<String>, env: BTreeMap<String, String> },
    /// Remove an MCP server from config and reload.
    McpRemove { name: String },
    /// Reload MCP servers from the config file.
    McpReload,
    /// List connected MCP servers and their tools.
    McpList,
    /// Ping the server (keepalive).
    Ping,
}

/// Messages sent by the gateway to the client.
pub enum ServerMessage {
    /// Complete response from an agent.
    Response { agent: String, content: String },
    /// Session cleared confirmation.
    SessionCleared { agent: String },
    /// List of registered agents.
    AgentList { agents: Vec<AgentSummary> },
    /// Detailed agent information.
    AgentDetail {
        name: String,
        description: String,
        tools: Vec<String>,
        skill_tags: Vec<String>,
        system_prompt: String,
    },
    /// List of memory entries.
    MemoryList { entries: Vec<(String, String)> },
    /// A single memory entry.
    MemoryEntry { key: String, value: Option<String> },
    /// Skills reloaded confirmation.
    SkillsReloaded { count: usize },
    /// MCP server added confirmation.
    McpAdded { name: String, tools: Vec<String> },
    /// MCP server removed confirmation.
    McpRemoved { name: String, tools: Vec<String> },
    /// MCP servers reloaded confirmation.
    McpReloaded { servers: Vec<McpServerSummary> },
    /// List of connected MCP servers.
    McpServerList { servers: Vec<McpServerSummary> },
    /// A streamed response has started.
    StreamStart { agent: String },
    /// A chunk of streamed content.
    StreamChunk { content: String },
    /// A streamed response has ended.
    StreamEnd { agent: String },
    /// A model download has started.
    DownloadStart { model: String },
    /// A file download has started.
    DownloadFileStart { filename: String, size: u64 },
    /// Download progress (bytes in this chunk).
    DownloadProgress { bytes: u64 },
    /// A file download has completed.
    DownloadFileEnd { filename: String },
    /// All downloads are complete.
    DownloadEnd { model: String },
    /// The request failed.
    Error { code: u16, message: String },
    /// Keepalive reply.
    Pong,
}

/// The kind of a server message, without its payload.
#[derive(Clone, Copy, Debug, PartialEq, Eq, Structural)]
pub enum MessageKind {
    Response,
    SessionCleared,
    AgentList,
    AgentDetail,
    MemoryList,
    MemoryEntry,
    SkillsReloaded,
    McpAdded,
    McpRemoved,
    McpReloaded,
    McpServerList,
    StreamStart,
    StreamChunk,
    StreamEnd,
    DownloadStart,
    DownloadFileStart,
    DownloadProgress,
    DownloadFileEnd,
    DownloadEnd,
    Error,
    Pong,
}

/// The kind of `m`.
pub open spec fn kind_of(m: ServerMessage) -> MessageKind {
    match m {
        ServerMessage::Response { .. } => MessageKind::Response,
        ServerMessage::SessionCleared { .. } => MessageKind::SessionCleared,
        ServerMessage::AgentList { .. } => MessageKind::AgentList,
        ServerMessage::AgentDetail { .. } => MessageKind::AgentDetail,
        ServerMessage::MemoryList { .. } => MessageKind::MemoryList,
        ServerMessage::MemoryEntry { .. } => MessageKind::MemoryEntry,
        ServerMessage::SkillsReloaded { .. } => MessageKind::SkillsReloaded,
        ServerMessage::McpAdded { .. } => MessageKind::McpAdded,
        ServerMessage::McpRemoved { .. } => MessageKind::McpRemoved,
        ServerMessage::McpReloaded { .. } => MessageKind::McpReloaded,
        ServerMessage::McpServerList { .. } => MessageKind::McpServerList,
        ServerMessage::StreamStart { .. } => MessageKind::StreamStart,
        ServerMessage::StreamChunk { .. } => MessageKind::StreamChunk,
        ServerMessage::StreamEnd { .. } => MessageKind::StreamEnd,
        ServerMessage::DownloadStart { .. } => MessageKind::DownloadStart,
        ServerMessage::DownloadFileStart { .. } => MessageKind::DownloadFileStart,
        ServerMessage::DownloadProgress { .. } => MessageKind::DownloadProgress,
        ServerMessage::DownloadFileEnd { .. } => MessageKind::DownloadFileEnd,
        ServerMessage::DownloadEnd { .. } => MessageKind::DownloadEnd,
        ServerMessage::Error { .. } => MessageKind::Error,
        ServerMessage::Pong => MessageKind::Pong,
    }
}

/// The name of a message kind.
pub open spec fn kind_name(k: MessageKind) -> Seq<char> {
    match k {
        MessageKind::Response => "Response"@,
        MessageKind::SessionCleared => "SessionCleared"@,
        MessageKind::AgentList => "AgentList"@,
        MessageKind::AgentDetail => "AgentDetail"@,
        MessageKind::MemoryList => "MemoryList"@,
        MessageKind::MemoryEntry => "MemoryEntry"@,
        MessageKind::SkillsReloaded => "SkillsReloaded"@,
        MessageKind::McpAdded => "McpAdded"@,
        MessageKind::McpRemoved => "McpRemoved"@,
        MessageKind::McpReloaded => "McpReloaded"@,
        MessageKind::McpServerList => "McpServerList"@,
        MessageKind::StreamStart => "StreamStart"@,
        MessageKind::StreamChunk => "StreamChunk"@,
        MessageKind::StreamEnd => "StreamEnd"@,
        MessageKind::DownloadStart => "DownloadStart"@,
        MessageKind::DownloadFileStart => "DownloadFileStart"@,
        MessageKind::DownloadProgress => "DownloadProgress"@,
        MessageKind::DownloadFileEnd => "DownloadFileEnd"@,
        MessageKind::DownloadEnd => "DownloadEnd"@,
        MessageKind::Error => "Error"@,
        MessageKind::Pong => "Pong"@,
    }
}

impl ServerMessage {
    /// The kind of this message.
    pub fn kind(&self) -> (k: MessageKind)
        ensures
            k == kind_of(*self),
    {
        match self {
            ServerMessage::Response { .. } => MessageKind::Response,
            ServerMessage::SessionCleared { .. } => MessageKind::SessionCleared,
            ServerMessage::AgentList { .. } => MessageKind::AgentList,
            ServerMessage::AgentDetail { .. } => MessageKind::AgentDetail,
            ServerMessage::MemoryList { .. } => MessageKind::MemoryList,
            ServerMessage::MemoryEntry { .. } => MessageKind::MemoryEntry,
            ServerMessage::SkillsReloaded { .. } => MessageKind::SkillsReloaded,
            ServerMessage::McpAdded { .. } => MessageKind::McpAdded,
            ServerMessage::McpRemoved { .. } => MessageKind::McpRemoved,
            ServerMessage::McpReloaded { .. } => MessageKind::McpReloaded,
            ServerMessage::McpServerList { .. } => MessageKind::McpServerList,
            ServerMessage::StreamStart { .. } => MessageKind::StreamStart,
            ServerMessage::StreamChunk { .. } => MessageKind::StreamChunk,
            ServerMessage::StreamEnd { .. } => MessageKind::StreamEnd,
            ServerMessage::DownloadStart { .. } => MessageKind::DownloadStart,
            ServerMessage::DownloadFileStart { .. } => MessageKind::DownloadFileStart,
            ServerMessage::DownloadProgress { .. } => MessageKind::DownloadProgress,
            ServerMessage::DownloadFileEnd { .. } => MessageKind::DownloadFileEnd,
            ServerMessage::DownloadEnd { .. } => MessageKind::DownloadEnd,
            ServerMessage::Error { .. } => MessageKind::Error,
            ServerMessage::Pong => MessageKind::Pong,
        }
    }
}

impl MessageKind {
    /// The name of this kind (the variant's name).
    pub fn name(&self) -> (s: &'static str)
        ensures
            s@ == kind_name(*self),
    {
        match self {
            MessageKind::Response => "Response",
            MessageKind::SessionCleared => "SessionCleared",
            MessageKind::AgentList => "AgentList",
            MessageKind::AgentDetail => "AgentDetail",
            MessageKind::MemoryList => "MemoryList",
            MessageKind::MemoryEntry => "MemoryEntry",
            MessageKind::SkillsReloaded => "SkillsReloaded",
            MessageKind::McpAdded => "McpAdded",
            MessageKind::McpRemoved => "McpRemoved",
            MessageKind::McpReloaded => "McpReloaded",
            MessageKind::McpServerList => "McpServerList",
            MessageKind::StreamStart => "StreamStart",
            MessageKind::StreamChunk => "StreamChunk",
            MessageKind::StreamEnd => "StreamEnd",
            MessageKind::DownloadStart => "DownloadStart",
            MessageKind::DownloadFileStart => "DownloadFileStart",
            MessageKind::DownloadProgress => "DownloadProgress",
            MessageKind::DownloadFileEnd => "DownloadFileEnd",
            MessageKind::DownloadEnd => "DownloadEnd",
            MessageKind::Error => "Error",
            MessageKind::Pong => "Pong",
        }
    }
}

/// Why a server message was not the reply a client expected.
pub enum ProtocolError {
    /// The server reported an error.
    Server { code: u16, message: String },
    /// The server sent a message of another kind.
    Unexpected(MessageKind),
}

/// The text of an "unexpected response" error about `msg`.
pub open spec fn unexpected_text(msg: Seq<char>) -> Seq<char> {
    "unexpected response: "@ + msg
}

/// The text of a server error.
pub open spec fn server_error_text(code: u16, message: Seq<char>) -> Seq<char> {
    "server error ("@ + decimal(code as nat) + "): "@ + message
}

/// Render an "unexpected response" error about `msg`.
pub fn unexpected(msg: &str) -> (s: String)
    ensures
        s@ == unexpected_text(msg@),
{
    let mut s = owned("unexpected response: ");
    push_str(&mut s, msg);
    s
}

/// The error a client reports for a reply it did not expect: the server's
/// own error if it sent one, else the kind of message it sent.
pub fn error_or_unexpected(msg: ServerMessage) -> (e: ProtocolError)
    ensures
        e == error_of(msg),
{
    match msg {
        ServerMessage::Error { code, message } => ProtocolError::Server { code, message },
        other => ProtocolError::Unexpected(other.kind()),
    }
}

/// The error reported for an unexpected reply `msg`.
pub open spec fn error_of(msg: ServerMessage) -> ProtocolError {
    match msg {
        ServerMessage::Error { code, message } => ProtocolError::Server { code, message },
        other => ProtocolError::Unexpected(kind_of(other)),
    }
}

impl ProtocolError {
    /// The error's text.
    pub fn message(&self) -> (s: String)
        ensures
            s@ == match *self {
                ProtocolError::Server { code, message } => server_error_text(code, message@),
                ProtocolError::Unexpected(k) => unexpected_text(kind_name(k)),
            },
    {
        match self {
            ProtocolError::Server { code, message } => {
                let mut s = owned("server error (");
                push_decimal(&mut s, *code as u64);
                push_str(&mut s, "): ");
                push_str(&mut s, message.as_str());
                s
            },
            ProtocolError::Unexpected(k) => unexpected(k.name()),
        }
    }
}

/// Send a message to an agent and receive a complete response.
pub struct SendRequest {
    /// Target agent identifier.
    pub agent: String,
    /// Message content.
    pub content: String,
}

/// Send a message to an agent and receive a streamed response.
pub struct StreamRequest {
    /// Target agent identifier.
    pub agent: String,
    /// Message content.
    pub content: String,
}

/// Clear the session history for an agent.
pub struct ClearSessionRequest {
    /// Target agent identifier.
    pub agent: String,
}

/// Get detailed info for a specific agent.
pub struct AgentInfoRequest {
    /// Agent name.
    pub agent: String,
}

/// Get a specific memory entry by key.
pub struct GetMemoryRequest {
    /// Memory key.
    pub key: String,
}

/// Request download of a model's files with progress reporting.
pub struct DownloadRequest {
    /// Model identifier.
    pub model: String,
}

/// Add an MCP server to config and reload.
pub struct McpAddRequest {
    /// Server name.
    pub name: String,
    /// Command to spawn.
    pub command: String,
    /// Command arguments.
    pub args: Vec<String>,
    /// Environment variables.
    pub env: BTreeMap<String, String>,
}

/// Remove an MCP server from config and reload.
pub struct McpRemoveRequest {
    /// Server name to remove.
    pub name: String,
}

/// Complete response from an agent.
pub struct SendResponse {
    /// Source agent identifier.
    pub agent: String,
    /// Response content.
    pub content: String,
}

/// Session cleared confirmation.
pub struct SessionCleared {
    /// Agent whose session was cleared.
    pub agent: String,
}

/// List of registered agents.
pub struct AgentList {
    /// Agent summaries.
    pub agents: Vec<AgentSummary>,
}

/// Detailed agent information.
pub struct AgentDetail {
    /// Agent name.
    pub name: String,
    /// Agent description.
    pub description: String,
    /// Registered tool names.
    pub tools: Vec<String>,
    /// Skill tags.
    pub skill_tags: Vec<String>,
    /// System prompt.
    pub system_prompt: String,
}

/// List of memory entries.
pub struct MemoryList {
    /// Key-value pairs.
    pub entries: Vec<(String, String)>,
}

/// A single memory entry.
pub struct MemoryEntry {
    /// Memory key.
    pub key: String,
    /// Memory value (None if not found).
    pub value: Option<String>,
}

/// Skills reloaded confirmation.
pub struct SkillsReloaded {
    /// Number of skills loaded.
    pub count: usize,
}

/// MCP server added confirmation.
pub struct McpAdded {
    /// Server name.
    pub name: String,
    /// Tools provided by this server.
    pub tools: Vec<String>,
}

/// MCP server removed confirmation.
pub struct McpRemoved {
    /// Server name.
    pub name: String,
    /// Tools that were removed.
    pub tools: Vec<String>,
}

/// MCP servers reloaded confirmation.
pub struct McpReloaded {
    /// Connected servers after reload.
    pub servers: Vec<McpServerSummary>,
}

/// List of connected MCP servers.
pub struct McpServerList {
    /// Connected servers.
    pub servers: Vec<McpServerSummary>,
}

impl From<SendRequest> for ClientMessage {
    fn from(r: SendRequest) -> Self {
        ClientMessage::Send { agent: r.agent, content: r.content }
    }
}

impl FromSpecImpl<SendRequest> for ClientMessage {
    open spec fn obeys_from_spec() -> bool {
        true
    }

    open spec fn from_spec(r: SendRequest) -> Self {
        ClientMessage::Send { agent: r.agent, content: r.content }
    }
}

impl From<StreamRequest> for ClientMessage {
    fn from(r: StreamRequest) -> Self {
        ClientMessage::Stream { agent: r.agent, content: r.content }
    }
}

impl FromSpecImpl<StreamRequest> for ClientMessage {
    open spec fn obeys_from_spec() -> bool {
        true
    }

    open spec fn from_spec(r: StreamRequest) -> Self {
        ClientMessage::Stream { agent: r.agent, content: r.content }
    }
}

impl From<ClearSessionRequest> for ClientMessage {
    fn from(r: ClearSessionRequest) -> Self {
        ClientMessage::ClearSession { agent: r.agent }
    }
}

impl FromSpecImpl<ClearSessionRequest> for ClientMessage {
    open spec fn obeys_from_spec() -> bool {
        true
    }

    open spec fn from_spec(r: ClearSessionRequest) -> Self {
        ClientMessage::ClearSession { agent: r.agent }
    }
}

impl From<AgentInfoRequest> for ClientMessage {
    fn from(r: AgentInfoRequest) -> Self {
        ClientMessage::AgentInfo { agent: r.agent }
    }
}

impl FromSpecImpl<AgentInfoRequest> for ClientMessage {
    open spec fn obeys_from_spec() -> bool {
        true
    }

    open spec fn from_spec(r: AgentInfoRequest) -> Self {
        ClientMessage::AgentInfo { agent: r.agent }
    }
}

impl From<GetMemoryRequest> for ClientMessage {
    fn from(r: GetMemoryRequest) -> Self {
        ClientMessage::GetMemory { key: r.key }
    }
}

impl FromSpecImpl<GetMemoryRequest> for ClientMessage {
    open spec fn obeys_from_spec() -> bool {
        true
    }

    open spec fn from_spec(r: GetMemoryRequest) -> Self {
        ClientMessage::GetMemory { key: r.key }
    }
}

impl From<DownloadRequest> for ClientMessage {
    fn from(r: DownloadRequest) -> Self {
        ClientMessage::Download { model: r.model }
    }
}

impl FromSpecImpl<DownloadRequest> for ClientMessage {
    open spec fn obeys_from_spec() -> bool {
        true
    }

    open spec fn from_spec(r: DownloadRequest) -> Self {
        ClientMessage::Download { model: r.model }
    }
}

impl From<McpAddRequest> for ClientMessage {
    fn from(r: McpAddRequest) -> Self {
        ClientMessage::McpAdd { name: r.name, command: r.command, args: r.args, env: r.env }
    }
}

impl FromSpecImpl<McpAddRequest> for ClientMessage {
    open spec fn obeys_from_spec() -> bool {
        true
    }

    open spec fn from_spec(r: McpAddRequest) -> Self {
        ClientMessage::McpAdd { name: r.name, command: r.command, args: r.args, env: r.env }
    }
}

impl From<McpRemoveRequest> for ClientMessage {
    fn from(r: McpRemoveRequest) -> Self {
        ClientMessage::McpRemove { name: r.name }
    }
}

impl FromSpecImpl<McpRemoveRequest> for ClientMessage {
    open spec fn obeys_from_spec() -> bool {
        true
    }

    open spec fn from_spec(r: McpRemoveRequest) -> Self {
        ClientMessage::McpRemove { name: r.name }
    }
}

impl From<SendResponse> for ServerMessage {
    fn from(r: SendResponse) -> Self {
        ServerMessage::Response { agent: r.agent, content: r.content }
    }
}

impl FromSpecImpl<SendResponse> for ServerMessage {
    open spec fn obeys_from_spec() -> bool {
        true
    }

    open spec fn from_spec(r: SendResponse) -> Self {
        ServerMessage::Response { agent: r.agent, content: r.content }
    }
}

impl From<SessionCleared> for ServerMessage {
    fn from(r: SessionCleared) -> Self {
        ServerMessage::SessionCleared { agent: r.agent }
    }
}

impl FromSpecImpl<SessionCleared> for ServerMessage {
    open spec fn obeys_from_spec() -> bool {
        true
    }

    open spec fn from_spec(r: SessionCleared) -> Self {
        ServerMessage::SessionCleared { agent: r.agent }
    }
}

impl From<AgentList> for ServerMessage {
    fn from(r: AgentList) -> Self {
        ServerMessage::AgentList { agents: r.agents }
    }
}

impl FromSpecImpl<AgentList> for ServerMessage {
    open spec fn obeys_from_spec() -> bool {
        true
    }

    open spec fn from_spec(r: AgentList) -> Self {
        ServerMessage::AgentList { agents: r.agents }
    }
}

impl From<AgentDetail> for ServerMessage {
    fn from(r: AgentDetail) -> Self {
        ServerMessage::AgentDetail { name: r.name, description: r.description, tools: r.tools, skill_tags: r.skill_tags, system_prompt: r.system_prompt }
    }
}

impl FromSpecImpl<AgentDetail> for ServerMessage {
    open spec fn obeys_from_spec() -> bool {
        true
    }

    open spec fn from_spec(r: AgentDetail) -> Self {
        ServerMessage::AgentDetail { name: r.name, description: r.description, tools: r.tools, skill_tags: r.skill_tags, system_prompt: r.system_prompt }
    }
}

impl From<MemoryList> for ServerMessage {
    fn from(r: MemoryList) -> Self {
        ServerMessage::MemoryList { entries: r.entries }
    }
}

impl FromSpecImpl<MemoryList> for ServerMessage {
    open spec fn obeys_from_spec() -> bool {
        true
    }

    open spec fn from_spec(r: MemoryList) -> Self {
        ServerMessage::MemoryList { entries: r.entries }
    }
}

impl From<MemoryEntry> for ServerMessage {
    fn from(r: MemoryEntry) -> Self {
        ServerMessage::MemoryEntry { key: r.key, value: r.value }
    }
}

impl FromSpecImpl<MemoryEntry> for ServerMessage {
    open spec fn obeys_from_spec() -> bool {
        true
    }

    open spec fn from_spec(r: MemoryEntry) -> Self {
        ServerMessage::MemoryEntry { key: r.key, value: r.value }
    }
}

impl From<SkillsReloaded> for ServerMessage {
    fn from(r: SkillsReloaded) -> Self {
        ServerMessage::SkillsReloaded { count: r.count }
    }
}

impl FromSpecImpl<SkillsReloaded> for ServerMessage {
    open spec fn obeys_from_spec() -> bool {
        true
    }

    open spec fn from_spec(r: SkillsReloaded) -> Self {
        ServerMessage::SkillsReloaded { count: r.count }
    }
}

impl From<McpAdded> for ServerMessage {
    fn from(r: McpAdded) -> Self {
        ServerMessage::McpAdded { name: r.name, tools: r.tools }
    }
}

impl FromSpecImpl<McpAdded> for ServerMessage {
    open spec fn obeys_from_spec() -> bool {
        true
    }

    open spec fn from_spec(r: McpAdded) -> Self {
        ServerMessage::McpAdded { name: r.name, tools: r.tools }
    }
}

impl From<McpRemoved> for ServerMessage {
    fn from(r: McpRemoved) -> Self {
        ServerMessage::McpRemoved { name: r.name, tools: r.tools }
    }
}

impl FromSpecImpl<McpRemoved> for ServerMessage {
    open spec fn obeys_from_spec() -> bool {
        true
    }

    open spec fn from_spec(r: McpRemoved) -> Self {
        ServerMessage::McpRemoved { name: r.name, tools: r.tools }
    }
}

impl From<McpReloaded> for ServerMessage {
    fn from(r: McpReloaded) -> Self {
        ServerMessage::McpReloaded { servers: r.servers }
    }
}

impl FromSpecImpl<McpReloaded> for ServerMessage {
    open spec fn obeys_from_spec() -> bool {
        true
    }

    open spec fn from_spec(r: McpReloaded) -> Self {
        ServerMessage::McpReloaded { servers: r.servers }
    }
}

impl From<McpServerList> for ServerMessage {
    fn from(r: McpServerList) -> Self {
        ServerMessage::McpServerList { servers: r.servers }
    }
}

impl FromSpecImpl<McpServerList> for ServerMessage {
    open spec fn obeys_from_spec() -> bool {
        true
    }

    open spec fn from_spec(r: McpServerList) -> Self {
        ServerMessage::McpServerList { servers: r.servers }
    }
}

impl TryFrom<ServerMessage> for SendResponse {
    type Error = ProtocolError;

    fn try_from(msg: ServerMessage) -> Result<Self, ProtocolError> {
        match msg {
            ServerMessage::Response { agent, content } => Ok(SendResponse { agent, content }),
            other => Err(error_or_unexpected(other)),
        }
    }
}

impl TryFromSpecImpl<ServerMessage> for SendResponse {
    open spec fn obeys_try_from_spec() -> bool {
        true
    }

    open spec fn try_from_spec(msg: ServerMessage) -> Result<Self, ProtocolError> {
        match msg {
            ServerMessage::Response { agent, content } => Ok(SendResponse { agent, content }),
            other => Err(error_of(other)),
        }
    }
}

impl TryFrom<ServerMessage> for SessionCleared {
    type Error = ProtocolError;

    fn try_from(msg: ServerMessage) -> Result<Self, ProtocolError> {
        match msg {
            ServerMessage::SessionCleared { agent } => Ok(SessionCleared { agent }),
            other => Err(error_or_unexpected(other)),
        }
    }
}

impl TryFromSpecImpl<ServerMessage> for SessionCleared {
    open spec fn obeys_try_from_spec() -> bool {
        true
    }

    open spec fn try_from_spec(msg: ServerMessage) -> Result<Self, ProtocolError> {
        match msg {
            ServerMessage::SessionCleared { agent } => Ok(SessionCleared { agent }),
            other => Err(error_of(other)),
        }
    }
}

impl TryFrom<ServerMessage> for AgentList {
    type Error = ProtocolError;

    fn try_from(msg: ServerMessage) -> Result<Self, ProtocolError> {
        match msg {
            ServerMessage::AgentList { agents } => Ok(AgentList { agents }),
            other => Err(error_or_unexpected(other)),
        }
    }
}

impl TryFromSpecImpl<ServerMessage> for AgentList {
    open spec fn obeys_try_from_spec() -> bool {
        true
    }

    open spec fn try_from_spec(msg: ServerMessage) -> Result<Self, ProtocolError> {
        match msg {
            ServerMessage::AgentList { agents } => Ok(AgentList { agents }),
            other => Err(error_of(other)),
        }
    }
}

impl TryFrom<ServerMessage> for AgentDetail {
    type Error = ProtocolError;

    fn try_from(msg: ServerMessage) -> Result<Self, ProtocolError> {
        match msg {
            ServerMessage::AgentDetail { name, description, tools, skill_tags, system_prompt } => Ok(AgentDetail { name, description, tools, skill_tags, system_prompt }),
            other => Err(error_or_unexpected(other)),
        }
    }
}

impl TryFromSpecImpl<ServerMessage> for AgentDetail {
    open spec fn obeys_try_from_spec() -> bool {
        true
    }

    open spec fn try_from_spec(msg: ServerMessage) -> Result<Self, ProtocolError> {
        match msg {
            ServerMessage::AgentDetail { name, description, tools, skill_tags, system_prompt } => Ok(AgentDetail { name, description, tools, skill_tags, system_prompt }),
            other => Err(error_of(other)),
        }
    }
}

impl TryFrom<ServerMessage> for MemoryList {
    type Error = ProtocolError;

    fn try_from(msg: ServerMessage) -> Result<Self, ProtocolError> {
        match msg {
            ServerMessage::MemoryList { entries } => Ok(MemoryList { entries }),
            other => Err(error_or_unexpected(other)),
        }
    }
}

impl TryFromSpecImpl<ServerMessage> for MemoryList {
    open spec fn obeys_try_from_spec() -> bool {
        true
    }

    open spec fn try_from_spec(msg: ServerMessage) -> Result<Self, ProtocolError> {
        match msg {
            ServerMessage::MemoryList { entries } => Ok(MemoryList { entries }),
            other => Err(error_of(other)),
        }
    }
}

impl TryFrom<ServerMessage> for MemoryEntry {
    type Error = ProtocolError;

    fn try_from(msg: ServerMessage) -> Result<Self, ProtocolError> {
        match msg {
            ServerMessage::MemoryEntry { key, value } => Ok(MemoryEntry { key, value }),
            other => Err(error_or_unexpected(other)),
        }
    }
}

impl TryFromSpecImpl<ServerMessage> for MemoryEntry {
    open spec fn obeys_try_from_spec() -> bool {
        true
    }

    open spec fn try_from_spec(msg: ServerMessage) -> Result<Self, ProtocolError> {
        match msg {
            ServerMessage::MemoryEntry { key, value } => Ok(MemoryEntry { key, value }),
            other => Err(error_of(other)),
        }
    }
}

impl TryFrom<ServerMessage> for SkillsReloaded {
    type Error = ProtocolError;

    fn try_from(msg: ServerMessage) -> Result<Self, ProtocolError> {
        match msg {
            ServerMessage::SkillsReloaded { count } => Ok(SkillsReloaded { count }),
            other => Err(error_or_unexpected(other)),
        }
    }
}

impl TryFromSpecImpl<ServerMessage> for SkillsReloaded {
    open spec fn obeys_try_from_spec() -> bool {
        true
    }

    open spec fn try_from_spec(msg: ServerMessage) -> Result<Self, ProtocolError> {
        match msg {
            ServerMessage::SkillsReloaded { count } => Ok(SkillsReloaded { count }),
            other => Err(error_of(other)),
        }
    }
}

impl TryFrom<ServerMessage> for McpAdded {
    type Error = ProtocolError;

    fn try_from(msg: ServerMessage) -> Result<Self, ProtocolError> {
        match msg {
            ServerMessage::McpAdded { name, tools } => Ok(McpAdded { name, tools }),
            other => Err(error_or_unexpected(other)),
        }
    }
}

impl TryFromSpecImpl<ServerMessage> for McpAdded {
    open spec fn obeys_try_from_spec() -> bool {
        true
    }

    open spec fn try_from_spec(msg: ServerMessage) -> Result<Self, ProtocolError> {
        match msg {
            ServerMessage::McpAdded { name, tools } => Ok(McpAdded { name, tools }),
            other => Err(error_of(other)),
        }
    }
}

impl TryFrom<ServerMessage> for McpRemoved {
    type Error = ProtocolError;

    fn try_from(msg: ServerMessage) -> Result<Self, ProtocolError> {
        match msg {
            ServerMessage::McpRemoved { name, tools } => Ok(McpRemoved { name, tools }),
            other => Err(error_or_unexpected(other)),
        }
    }
}

impl TryFromSpecImpl<ServerMessage> for McpRemoved {
    open spec fn obeys_try_from_spec() -> bool {
        true
    }

    open spec fn try_from_spec(msg: ServerMessage) -> Result<Self, ProtocolError> {
        match msg {
            ServerMessage::McpRemoved { name, tools } => Ok(McpRemoved { name, tools }),
            other => Err(error_of(other)),
        }
    }
}

impl TryFrom<ServerMessage> for McpReloaded {
    type Error = ProtocolError;

    fn try_from(msg: ServerMessage) -> Result<Self, ProtocolError> {
        match msg {
            ServerMessage::McpReloaded { servers } => Ok(McpReloaded { servers }),
            other => Err(error_or_unexpected(other)),
        }
    }
}

impl TryFromSpecImpl<ServerMessage> for McpReloaded {
    open spec fn obeys_try_from_spec() -> bool {
        true
    }

    open spec fn try_from_spec(msg: ServerMessage) -> Result<Self, ProtocolError> {
        match msg {
            ServerMessage::McpReloaded { servers } => Ok(McpReloaded { servers }),
            other => Err(error_of(other)),
        }
    }
}

impl TryFrom<ServerMessage> for McpServerList {
    type Error = ProtocolError;

    fn try_from(msg: ServerMessage) -> Result<Self, ProtocolError> {
        match msg {
            ServerMessage::McpServerList { servers } => Ok(McpServerList { servers }),
            other => Err(error_or_unexpected(other)),
        }
    }
}

impl TryFromSpecImpl<ServerMessage> for McpServerList {
    open spec fn obeys_try_from_spec() -> bool {
        true
    }

    open spec fn try_from_spec(msg: ServerMessage) -> Result<Self, ProtocolError> {
        match msg {
            ServerMessage::McpServerList { servers } => Ok(McpServerList { servers }),
            other => Err(error_of(other)),
        }
    }
}

/// Events emitted during a streamed agent response.
pub enum StreamEvent {
    /// Stream has started.
    Start { agent: String },
    /// A chunk of streamed content.
    Chunk { content: String },
    /// Stream has ended.
    End { agent: String },
}

/// Events emitted during a model download.
pub enum DownloadEvent {
    /// Download has started.
    Start { model: String },
    /// A file download has started.
    FileStart { filename: String, size: u64 },
    /// Download progress for the current file (delta, not cumulative).
    Progress { bytes: u64 },
    /// A file download has completed.
    FileEnd { filename: String },
    /// All downloads complete.
    End { model: String },
}

/// How a model download's background work ended.
pub enum DownloadOutcome {
    /// Every file arrived.
    Done,
    /// The download reported an error.
    Failed(String),
    /// The task running the download died (its join error, as text).
    Panicked(String),
}

/// The last item of a download's event stream: `End` for the model when the
/// download succeeded, otherwise the error that ends the stream.
pub fn download_end(model: String, outcome: DownloadOutcome) -> (r: Result<DownloadEvent, String>)
    ensures
        match outcome {
            DownloadOutcome::Done => r matches Ok(DownloadEvent::End { model: m }) && m@ == model@,
            DownloadOutcome::Failed(e) => r matches Err(msg) && msg@ == "download failed: "@ + e@,
            DownloadOutcome::Panicked(e) => r matches Err(msg) && msg@ == "download task panicked: "@ + e@,
        },
{
    match outcome {
        DownloadOutcome::Done => Ok(DownloadEvent::End { model }),
        DownloadOutcome::Failed(e) => {
            let mut msg = owned("download failed: ");
            push_str(&mut msg, e.as_str());
            Err(msg)
        },
        DownloadOutcome::Panicked(e) => {
            let mut msg = owned("download task panicked: ");
            push_str(&mut msg, e.as_str());
            Err(msg)
        },
    }
}

impl From<StreamEvent> for ServerMessage {
    fn from(e: StreamEvent) -> Self {
        match e {
            StreamEvent::Start { agent } => ServerMessage::StreamStart { agent },
            StreamEvent::Chunk { content } => ServerMessage::StreamChunk { content },
            StreamEvent::End { agent } => ServerMessage::StreamEnd { agent },
        }
    }
}

impl FromSpecImpl<StreamEvent> for ServerMessage {
    open spec fn obeys_from_spec() -> bool {
        true
    }

    open spec fn from_spec(e: StreamEvent) -> Self {
        match e {
            StreamEvent::Start { agent } => ServerMessage::StreamStart { agent },
            StreamEvent::Chunk { content } => ServerMessage::StreamChunk { content },
            StreamEvent::End { agent } => ServerMessage::StreamEnd { agent },
        }
    }
}

impl From<DownloadEvent> for ServerMessage {
    fn from(e: DownloadEvent) -> Self {
        match e {
            DownloadEvent::Start { model } => ServerMessage::DownloadStart { model },
            DownloadEvent::FileStart { filename, size } => ServerMessage::DownloadFileStart { filename, size },
            DownloadEvent::Progress { bytes } => ServerMessage::DownloadProgress { bytes },
            DownloadEvent::FileEnd { filename } => ServerMessage::DownloadFileEnd { filename },
            DownloadEvent::End { model } => ServerMessage::DownloadEnd { model },
        }
    }
}

impl FromSpecImpl<DownloadEvent> for ServerMessage {
    open spec fn obeys_from_spec() -> bool {
        true
    }

    open spec fn from_spec(e: DownloadEvent) -> Self {
        match e {
            DownloadEvent::Start { model } => ServerMessage::DownloadStart { model },
            DownloadEvent::FileStart { filename, size } => ServerMessage::DownloadFileStart { filename, size },
            DownloadEvent::Progress { bytes } => ServerMessage::DownloadProgress { bytes },
            DownloadEvent::FileEnd { filename } => ServerMessage::DownloadFileEnd { filename },
            DownloadEvent::End { model } => ServerMessage::DownloadEnd { model },
        }
    }
}

impl TryFrom<ServerMessage> for StreamEvent {
    type Error = ProtocolError;

    fn try_from(msg: ServerMessage) -> Result<Self, ProtocolError> {
        match msg {
            ServerMessage::StreamStart { agent } => Ok(StreamEvent::Start { agent }),
            ServerMessage::StreamChunk { content } => Ok(StreamEvent::Chunk { content }),
            ServerMessage::StreamEnd { agent } => Ok(StreamEvent::End { agent }),
            other => Err(error_or_unexpected(other)),
        }
    }
}

impl TryFromSpecImpl<ServerMessage> for StreamEvent {
    open spec fn obeys_try_from_spec() -> bool {
        true
    }

    open spec fn try_from_spec(msg: ServerMessage) -> Result<Self, ProtocolError> {
        match msg {
            ServerMessage::StreamStart { agent } => Ok(StreamEvent::Start { agent }),
            ServerMessage::StreamChunk { content } => Ok(StreamEvent::Chunk { content }),
            ServerMessage::StreamEnd { agent } => Ok(StreamEvent::End { agent }),
            other => Err(error_of(other)),
        }
    }
}

impl TryFrom<ServerMessage> for DownloadEvent {
    type Error = ProtocolError;

    fn try_from(msg: ServerMessage) -> Result<Self, ProtocolError> {
        match msg {
            ServerMessage::DownloadStart { model } => Ok(DownloadEvent::Start { model }),
            ServerMessage::DownloadFileStart { filename, size } => Ok(DownloadEvent::FileStart { filename, size }),
            ServerMessage::DownloadProgress { bytes } => Ok(DownloadEvent::Progress { bytes }),
            ServerMessage::DownloadFileEnd { filename } => Ok(DownloadEvent::FileEnd { filename }),
            ServerMessage::DownloadEnd { model } => Ok(DownloadEvent::End { model }),
            other => Err(error_or_unexpected(other)),
        }
    }
}

impl TryFromSpecImpl<ServerMessage> for DownloadEvent {
    open spec fn obeys_try_from_spec() -> bool {
        true
    }

    open spec fn try_from_spec(msg: ServerMessage) -> Result<Self, ProtocolError> {
        match msg {
            ServerMessage::DownloadStart { model } => Ok(DownloadEvent::Start { model }),
            ServerMessage::DownloadFileStart { filename, size } => Ok(DownloadEvent::FileStart { filename, size }),
            ServerMessage::DownloadProgress { bytes } => Ok(DownloadEvent::Progress { bytes }),
            ServerMessage::DownloadFileEnd { filename } => Ok(DownloadEvent::FileEnd { filename }),
            ServerMessage::DownloadEnd { model } => Ok(DownloadEvent::End { model }),
            other => Err(error_of(other)),
        }
    }
}

// ── Server-side routing ────────────────────────────────────────────────

/// The handler a client message is routed to, with its typed request.
pub enum Route {
    Send(SendRequest),
    Stream(StreamRequest),
    ClearSession(ClearSessionRequest),
    ListAgents,
    AgentInfo(AgentInfoRequest),
    ListMemory,
    GetMemory(GetMemoryRequest),
    Download(DownloadRequest),
    ReloadSkills,
    McpAdd(McpAddRequest),
    McpRemove(McpRemoveRequest),
    McpReload,
    McpList,
    Ping,
}

/// The route of a client message.
pub open spec fn route_of(m: ClientMessage) -> Route {
    match m {
        ClientMessage::Send { agent, content } => Route::Send(SendRequest { agent, content }),
        ClientMessage::Stream { agent, content } => Route::Stream(StreamRequest { agent, content }),
        ClientMessage::ClearSession { agent } => Route::ClearSession(ClearSessionRequest { agent }),
        ClientMessage::ListAgents => Route::ListAgents,
        ClientMessage::AgentInfo { agent } => Route::AgentInfo(AgentInfoRequest { agent }),
        ClientMessage::ListMemory => Route::ListMemory,
        ClientMessage::GetMemory { key } => Route::GetMemory(GetMemoryRequest { key }),
        ClientMessage::Download { model } => Route::Download(DownloadRequest { model }),
        ClientMessage::ReloadSkills => Route::ReloadSkills,
        ClientMessage::McpAdd { name, command, args, env } =>
            Route::McpAdd(McpAddRequest { name, command, args, env }),
        ClientMessage::McpRemove { name } => Route::McpRemove(McpRemoveRequest { name }),
        ClientMessage::McpReload => Route::McpReload,
        ClientMessage::McpList => Route::McpList,
        ClientMessage::Ping => Route::Ping,
    }
}

/// The client message a route answers.
pub open spec fn message_of(r: Route) -> ClientMessage {
    match r {
        Route::Send(q) => <ClientMessage as FromSpec<SendRequest>>::from_spec(q),
        Route::Stream(q) => <ClientMessage as FromSpec<StreamRequest>>::from_spec(q),
        Route::ClearSession(q) => <ClientMessage as FromSpec<ClearSessionRequest>>::from_spec(q),
        Route::ListAgents => ClientMessage::ListAgents,
        Route::AgentInfo(q) => <ClientMessage as FromSpec<AgentInfoRequest>>::from_spec(q),
        Route::ListMemory => ClientMessage::ListMemory,
        Route::GetMemory(q) => <ClientMessage as FromSpec<GetMemoryRequest>>::from_spec(q),
        Route::Download(q) => <ClientMessage as FromSpec<DownloadRequest>>::from_spec(q),
        Route::ReloadSkills => ClientMessage::ReloadSkills,
        Route::McpAdd(q) => <ClientMessage as FromSpec<McpAddRequest>>::from_spec(q),
        Route::McpRemove(q) => <ClientMessage as FromSpec<McpRemoveRequest>>::from_spec(q),
        Route::McpReload => ClientMessage::McpReload,
        Route::McpList => ClientMessage::McpList,
        Route::Ping => ClientMessage::Ping,
    }
}

/// Route a client message to the handler for its kind, with its typed request.
pub fn route(msg: ClientMessage) -> (r: Route)
    ensures
        r == route_of(msg),
{
    match msg {
        ClientMessage::Send { agent, content } => Route::Send(SendRequest { agent, content }),
        ClientMessage::Stream { agent, content } => Route::Stream(StreamRequest { agent, content }),
        ClientMessage::ClearSession { agent } => Route::ClearSession(ClearSessionRequest { agent }),
        ClientMessage::ListAgents => Route::ListAgents,
        ClientMessage::AgentInfo { agent } => Route::AgentInfo(AgentInfoRequest { agent }),
        ClientMessage::ListMemory => Route::ListMemory,
        ClientMessage::GetMemory { key } => Route::GetMemory(GetMemoryRequest { key }),
        ClientMessage::Download { model } => Route::Download(DownloadRequest { model }),
        ClientMessage::ReloadSkills => Route::ReloadSkills,
        ClientMessage::McpAdd { name, command, args, env } =>
            Route::McpAdd(McpAddRequest { name, command, args, env }),
        ClientMessage::McpRemove { name } => Route::McpRemove(McpRemoveRequest { name }),
        ClientMessage::McpReload => Route::McpReload,
        ClientMessage::McpList => Route::McpList,
        ClientMessage::Ping => Route::Ping,
    }
}

/// The status code of every error a handler reports.
pub open spec fn handler_error_code() -> u16 {
    500
}

/// Convert a handler's result into the message sent back: the response on
/// success, an error with code 500 and the handler's message otherwise.
pub fn result_to_msg<T>(result: Result<T, String>) -> (m: ServerMessage)
    where
        ServerMessage: From<T>,
    ensures
        match result {
            Ok(v) => <ServerMessage as FromSpec<T>>::obeys_from_spec()
                ==> m == <ServerMessage as FromSpec<T>>::from_spec(v),
            Err(e) => m == (ServerMessage::Error { code: handler_error_code(), message: e }),
        },
{
    match result {
        Ok(v) => ServerMessage::from(v),
        Err(e) => ServerMessage::Error { code: 500, message: e },
    }
}

/// The reply to a ping: `Pong`, or the handler's error with code 500.
pub fn ping_reply(result: Result<(), String>) -> (m: ServerMessage)
    ensures
        match result {
            Ok(_) => m == ServerMessage::Pong,
            Err(e) => m == (ServerMessage::Error { code: handler_error_code(), message: e }),
        },
{
    match result {
        Ok(()) => ServerMessage::Pong,
        Err(e) => ServerMessage::Error { code: 500, message: e },
    }
}

/// A client's outcome for a ping reply.
pub fn ping_result(msg: ServerMessage) -> (r: Result<(), ProtocolError>)
    ensures
        r == match msg {
            ServerMessage::Pong => Ok(()),
            other => Err(error_of(other)),
        },
{
    match msg {
        ServerMessage::Pong => Ok(()),
        other => Err(error_or_unexpected(other)),
    }
}

/// Routing is a bijection between client messages and typed requests: every
/// message is rebuilt from its route, and every route from its message.
pub proof fn law_route_roundtrip(m: ClientMessage, r: Route)
    ensures
        message_of(route_of(m)) == m,
        route_of(message_of(r)) == r,
{
}

/// Every response and event converted into a server message converts back
/// to itself.
pub proof fn law_reply_roundtrip()
    ensures
        forall|r: SendResponse| #[trigger] <SendResponse as TryFromSpec<ServerMessage>>::try_from_spec(<ServerMessage as FromSpec<SendResponse>>::from_spec(r)) == Ok::<SendResponse, ProtocolError>(r),
        forall|r: SessionCleared| #[trigger] <SessionCleared as TryFromSpec<ServerMessage>>::try_from_spec(<ServerMessage as FromSpec<SessionCleared>>::from_spec(r)) == Ok::<SessionCleared, ProtocolError>(r),
        forall|r: AgentList| #[trigger] <AgentList as TryFromSpec<ServerMessage>>::try_from_spec(<ServerMessage as FromSpec<AgentList>>::from_spec(r)) == Ok::<AgentList, ProtocolError>(r),
        forall|r: AgentDetail| #[trigger] <AgentDetail as TryFromSpec<ServerMessage>>::try_from_spec(<ServerMessage as FromSpec<AgentDetail>>::from_spec(r)) == Ok::<AgentDetail, ProtocolError>(r),
        forall|r: MemoryList| #[trigger] <MemoryList as TryFromSpec<ServerMessage>>::try_from_spec(<ServerMessage as FromSpec<MemoryList>>::from_spec(r)) == Ok::<MemoryList, ProtocolError>(r),
        forall|r: MemoryEntry| #[trigger] <MemoryEntry as TryFromSpec<ServerMessage>>::try_from_spec(<ServerMessage as FromSpec<MemoryEntry>>::from_spec(r)) == Ok::<MemoryEntry, ProtocolError>(r),
        forall|r: SkillsReloaded| #[trigger] <SkillsReloaded as TryFromSpec<ServerMessage>>::try_from_spec(<ServerMessage as FromSpec<SkillsReloaded>>::from_spec(r)) == Ok::<SkillsReloaded, ProtocolError>(r),
        forall|r: McpAdded| #[trigger] <McpAdded as TryFromSpec<ServerMessage>>::try_from_spec(<ServerMessage as FromSpec<McpAdded>>::from_spec(r)) == Ok::<McpAdded, ProtocolError>(r),
        forall|r: McpRemoved| #[trigger] <McpRemoved as TryFromSpec<ServerMessage>>::try_from_spec(<ServerMessage as FromSpec<McpRemoved>>::from_spec(r)) == Ok::<McpRemoved, ProtocolError>(r),
        forall|r: McpReloaded| #[trigger] <McpReloaded as TryFromSpec<ServerMessage>>::try_from_spec(<ServerMessage as FromSpec<McpReloaded>>::from_spec(r)) == Ok::<McpReloaded, ProtocolError>(r),
        forall|r: McpServerList| #[trigger] <McpServerList as TryFromSpec<ServerMessage>>::try_from_spec(<ServerMessage as FromSpec<McpServerList>>::from_spec(r)) == Ok::<McpServerList, ProtocolError>(r),
        forall|r: StreamEvent| #[trigger] <StreamEvent as TryFromSpec<ServerMessage>>::try_from_spec(<ServerMessage as FromSpec<StreamEvent>>::from_spec(r)) == Ok::<StreamEvent, ProtocolError>(r),
        forall|r: DownloadEvent| #[trigger] <DownloadEvent as TryFromSpec<ServerMessage>>::try_from_spec(<ServerMessage as FromSpec<DownloadEvent>>::from_spec(r)) == Ok::<DownloadEvent, ProtocolError>(r),
{
}

} // verus!
