//! MCP servers: configuration defaults, the registry of connected servers
//! and their tools, tool-call routing and replies.

use vstd::prelude::*;
use crate::text::{owned, push_str, str_eq, views};

verus! {

/// Arguments of the `mcp` tool.
pub struct Mcp {
    /// Tool name to call. If no exact match, returns fuzzy matches.
    /// Leave empty to list all available MCP tools.
    pub name: String,
    /// JSON-encoded arguments string (only used when calling a tool).
    pub args: Option<String>,
}

/// The default of a server's `auto_restart` setting: on.
pub fn default_true() -> (r: bool)
    ensures
        r,
{
    true
}

} // verus!

verus! {

// ── Connected servers and their tools ──────────────────────────────────

/// A connected server and the tools it registered.
pub struct ServerTools {
    pub name: String,
    pub tools: Vec<String>,
}

/// The text view of a server entry.
pub open spec fn server_view(s: ServerTools) -> (Seq<char>, Seq<Seq<char>>) {
    (s.name@, views(s.tools@))
}

/// The servers of `s` other than those named `name`, in order.
pub open spec fn kept_servers(s: Seq<(Seq<char>, Seq<Seq<char>>)>, name: Seq<char>) -> Seq<(Seq<char>, Seq<Seq<char>>)>
    decreases s.len(),
{
    if s.len() == 0 {
        Seq::empty()
    } else if s.last().0 == name {
        kept_servers(s.drop_last(), name)
    } else {
        kept_servers(s.drop_last(), name).push(s.last())
    }
}

/// The tools of the servers of `s` named `name`, in order.
pub open spec fn tools_named(s: Seq<(Seq<char>, Seq<Seq<char>>)>, name: Seq<char>) -> Seq<Seq<char>>
    decreases s.len(),
{
    if s.len() == 0 {
        Seq::empty()
    } else if s.last().0 == name {
        tools_named(s.drop_last(), name) + s.last().1
    } else {
        tools_named(s.drop_last(), name)
    }
}

/// After removing the servers named `name`, none of that name is left,
/// and every other server is kept.
pub proof fn law_removed_server_gone(s: Seq<(Seq<char>, Seq<Seq<char>>)>, name: Seq<char>)
    ensures
        forall|i: int| 0 <= i < kept_servers(s, name).len() ==> (#[trigger] kept_servers(s, name)[i]).0 != name,
        forall|i: int| 0 <= i < s.len() && s[i].0 != name ==> kept_servers(s, name).contains(#[trigger] s[i]),
    decreases s.len(),
{
    if s.len() > 0 {
        let p = s.drop_last();
        law_removed_server_gone(p, name);
        assert forall|i: int| 0 <= i < s.len() && s[i].0 != name implies kept_servers(s, name).contains(#[trigger] s[i]) by {
            if i < s.len() - 1 {
                assert(p[i] == s[i]);
                assert(kept_servers(p, name).contains(p[i]));
                let j = choose|j: int| 0 <= j < kept_servers(p, name).len() && kept_servers(p, name)[j] == p[i];
                if s.last().0 != name {
                    assert(kept_servers(s, name)[j] == s[i]);
                }
            } else {
                assert(kept_servers(s, name).last() == s[i]);
            }
        }
    }
}

/// The first server of `s` that registered tool `tool`, if any.
pub open spec fn owner(s: Seq<(Seq<char>, Seq<Seq<char>>)>, tool: Seq<char>) -> Option<int> {
    if exists|i: int| 0 <= i < s.len() && s[i].1.contains(tool) {
        Some(choose|i: int| 0 <= i < s.len() && s[i].1.contains(tool)
            && forall|j: int| 0 <= j < i ==> !s[j].1.contains(tool))
    } else {
        None
    }
}

/// The connected MCP servers, in the order they connected, with the names
/// of their tools.
pub struct McpRegistry {
    servers: Vec<ServerTools>,
}

impl View for McpRegistry {
    type V = Seq<(Seq<char>, Seq<Seq<char>>)>;

    closed spec fn view(&self) -> Seq<(Seq<char>, Seq<Seq<char>>)> {
        self.servers@.map_values(|s: ServerTools| server_view(s))
    }
}

fn copy_names(v: &Vec<String>) -> (r: Vec<String>)
    ensures
        views(r@) == views(v@),
{
    let mut out: Vec<String> = Vec::new();
    let mut i: usize = 0;
    while i < v.len()
        invariant
            i <= v@.len(),
            views(out@) == views(v@).take(i as int),
        decreases v@.len() - i,
    {
        let s = v[i].clone();
        proof {
            assert(views(out@.push(s)) =~= views(out@).push(s@));
            assert(views(v@).take(i + 1) =~= views(v@).take(i as int).push(v@[i as int]@));
        }
        out.push(s);
        i = i + 1;
    }
    proof {
        assert(views(v@).take(i as int) =~= views(v@));
    }
    out
}

impl McpRegistry {
    /// No servers.
    pub fn new() -> (r: Self)
        ensures
            r@ == Seq::<(Seq<char>, Seq<Seq<char>>)>::empty(),
    {
        let r = McpRegistry { servers: Vec::new() };
        proof {
            assert(r@ =~= Seq::<(Seq<char>, Seq<Seq<char>>)>::empty());
        }
        r
    }

    /// Record a newly connected server and its tools.
    pub fn add_server(&mut self, name: String, tools: Vec<String>)
        ensures
            final(self)@ == old(self)@.push((name@, views(tools@))),
    {
        let s = ServerTools { name, tools };
        self.servers.push(s);
        proof {
            assert(self@ =~= old(self)@.push(server_view(s)));
        }
    }

    /// Remove the servers named `name`, returning the names of their tools.
    pub fn remove_server(&mut self, name: &str) -> (r: Vec<String>)
        ensures
            final(self)@ == kept_servers(old(self)@, name@),
            views(r@) == tools_named(old(self)@, name@),
    {
        let ghost orig = self@;
        let mut old_servers: Vec<ServerTools> = Vec::new();
        std::mem::swap(&mut old_servers, &mut self.servers);
        let ghost src = old_servers@;
        proof {
            assert(orig == src.map_values(|s: ServerTools| server_view(s)));
        }
        let mut removed: Vec<String> = Vec::new();
        let mut i: usize = 0;
        let n = old_servers.len();
        proof {
            assert(orig.take(0) =~= Seq::<(Seq<char>, Seq<Seq<char>>)>::empty());
            assert(self@ =~= Seq::<(Seq<char>, Seq<Seq<char>>)>::empty());
            assert(views(removed@) =~= Seq::<Seq<char>>::empty());
        }
        while old_servers.len() > 0
            invariant
                n == src.len(),
                i <= n,
                old_servers@ == src.skip(i as int),
                orig == src.map_values(|s: ServerTools| server_view(s)),
                self@ == kept_servers(orig.take(i as int), name@),
                views(removed@) == tools_named(orig.take(i as int), name@),
            decreases old_servers@.len(),
        {
            let s = old_servers.remove(0);
            proof {
                assert(s == src[i as int]);
                assert(old_servers@ =~= src.skip(i + 1));
                assert(orig.take(i + 1).drop_last() =~= orig.take(i as int));
                assert(orig.take(i + 1).last() == server_view(s));
            }
            if str_eq(s.name.as_str(), name) {
                let ghost before = views(removed@);
                let mut k: usize = 0;
                while k < s.tools.len()
                    invariant
                        k <= s.tools@.len(),
                        views(removed@) == before + views(s.tools@).take(k as int),
                    decreases s.tools@.len() - k,
                {
                    let t = s.tools[k].clone();
                    proof {
                        assert(views(removed@.push(t)) =~= views(removed@).push(t@));
                        assert(views(s.tools@).take(k + 1) =~= views(s.tools@).take(k as int).push(s.tools@[k as int]@));
                    }
                    removed.push(t);
                    k = k + 1;
                }
                proof {
                    assert(views(s.tools@).take(k as int) =~= views(s.tools@));
                }
            } else {
                let ghost before = self@;
                self.servers.push(s);
                proof {
                    assert(self@ =~= before.push(server_view(s)));
                }
            }
            i = i + 1;
        }
        proof {
            assert(orig.take(i as int) =~= orig);
        }
        removed
    }

    /// All connected servers with the names of their tools.
    pub fn list_servers(&self) -> (r: Vec<(String, Vec<String>)>)
        ensures
            r@.len() == self@.len(),
            forall|k: int| 0 <= k < r@.len() ==> (#[trigger] r@[k]).0@ == self@[k].0 && views(r@[k].1@) == self@[k].1,
    {
        let mut out: Vec<(String, Vec<String>)> = Vec::new();
        let mut i: usize = 0;
        while i < self.servers.len()
            invariant
                i <= self.servers@.len(),
                out@.len() == i,
                forall|k: int| 0 <= k < i ==> (#[trigger] out@[k]).0@ == self@[k].0 && views(out@[k].1@) == self@[k].1,
            decreases self.servers@.len() - i,
        {
            let s = &self.servers[i];
            let entry = (s.name.clone(), copy_names(&s.tools));
            proof {
                assert(self@[i as int] == server_view(self.servers@[i as int]));
            }
            out.push(entry);
            i = i + 1;
        }
        out
    }

    /// The first server that registered tool `tool`, if any.
    pub fn owner_of(&self, tool: &str) -> (r: Option<usize>)
        ensures
            match r {
                Some(i) => owner(self@, tool@) == Some(i as int),
                None => owner(self@, tool@) is None,
            },
    {
        let mut i: usize = 0;
        while i < self.servers.len()
            invariant
                i <= self.servers@.len(),
                forall|j: int| 0 <= j < i ==> !(#[trigger] self@[j]).1.contains(tool@),
            decreases self.servers@.len() - i,
        {
            proof {
                assert(self@[i as int] == server_view(self.servers@[i as int]));
            }
            if has_name(&self.servers[i].tools, tool) {
                proof {
                    assert(self@[i as int].1.contains(tool@));
                    let c = choose|c: int| 0 <= c < self@.len() && self@[c].1.contains(tool@)
                        && forall|j: int| 0 <= j < c ==> !self@[j].1.contains(tool@);
                    assert(c == i) by {
                        if c < i {
                            assert(!self@[c].1.contains(tool@));
                        }
                        if c > i {
                            assert(!self@[i as int].1.contains(tool@));
                        }
                    }
                }
                return Some(i);
            }
            i = i + 1;
        }
        None
    }
}

/// Whether `names` holds `name`.
fn has_name(names: &Vec<String>, name: &str) -> (r: bool)
    ensures
        r == views(names@).contains(name@),
{
    let mut k: usize = 0;
    while k < names.len()
        invariant
            k <= names@.len(),
            forall|m: int| 0 <= m < k ==> views(names@)[m] != name@,
        decreases names@.len() - k,
    {
        if str_eq(names[k].as_str(), name) {
            proof {
                assert(views(names@)[k as int] == name@);
            }
            return true;
        }
        k = k + 1;
    }
    false
}

/// Without text items there is no text.
proof fn lemma_no_text(content: Seq<McpContent>)
    requires
        !has_text(content),
    ensures
        text_of(content) == Seq::<char>::empty(),
    decreases content.len(),
{
    if content.len() > 0 {
        assert(!has_text(content.drop_last())) by {
            if has_text(content.drop_last()) {
                let j = choose|j: int| 0 <= j < content.drop_last().len() && content.drop_last()[j] is Text;
                assert(content[j] is Text);
            }
        }
        lemma_no_text(content.drop_last());
        assert(!(content[content.len() - 1] is Text));
    }
}

// ── Tool call replies ──────────────────────────────────────────────────

/// One content item of a tool result.
pub enum McpContent {
    /// Text content.
    Text(String),
    /// Any other content (images, resources).
    Other,
}

/// The text items of `content`, joined with newlines.
pub open spec fn text_of(content: Seq<McpContent>) -> Seq<char>
    decreases content.len(),
{
    if content.len() == 0 {
        Seq::empty()
    } else {
        let prev = text_of(content.drop_last());
        match content.last() {
            McpContent::Text(t) => if has_text(content.drop_last()) { prev + "\n"@ + t@ } else { t@ },
            McpContent::Other => prev,
        }
    }
}

/// Whether `content` holds a text item.
pub open spec fn has_text(content: Seq<McpContent>) -> bool {
    exists|i: int| 0 <= i < content.len() && content[i] is Text
}

/// Extract the text content of a tool result, one item per line.
pub fn extract_text(content: &[McpContent]) -> (r: String)
    ensures
        r@ == text_of(content@),
{
    let mut out = String::new();
    let mut any = false;
    let mut i: usize = 0;
    proof {
        reveal_strlit("\n");
    }
    while i < content.len()
        invariant
            i <= content@.len(),
            out@ == text_of(content@.take(i as int)),
            any == has_text(content@.take(i as int)),
        decreases content@.len() - i,
    {
        let ghost pre = content@.take(i + 1);
        proof {
            assert(pre.drop_last() =~= content@.take(i as int));
            assert(pre.last() == content@[i as int]);
        }
        match &content[i] {
            McpContent::Text(t) => {
                proof {
                    if !any {
                        lemma_no_text(content@.take(i as int));
                    }
                }
                if any {
                    push_str(&mut out, "\n");
                }
                push_str(&mut out, t.as_str());
                proof {
                    assert(pre[i as int] is Text);
                }
                any = true;
            },
            McpContent::Other => {
                proof {
                    assert(has_text(pre) == has_text(content@.take(i as int))) by {
                        if has_text(pre) {
                            let j = choose|j: int| 0 <= j < pre.len() && pre[j] is Text;
                            assert(j < i);
                            assert(content@.take(i as int)[j] is Text);
                        }
                        if has_text(content@.take(i as int)) {
                            let j = choose|j: int| 0 <= j < i && content@.take(i as int)[j] is Text;
                            assert(pre[j] is Text);
                        }
                    }
                }
            },
        }
        i = i + 1;
    }
    proof {
        assert(content@.take(i as int) =~= content@);
    }
    out
}

/// The reply to a completed tool call: its text, marked when the server
/// flagged the result as an error.
pub fn call_reply(is_error: Option<bool>, content: &[McpContent]) -> (r: String)
    ensures
        r@ == if is_error == Some(true) { "mcp tool error: "@ + text_of(content@) } else { text_of(content@) },
{
    let text = extract_text(content);
    match is_error {
        Some(true) => {
            let mut r = owned("mcp tool error: ");
            push_str(&mut r, text.as_str());
            r
        },
        _ => text,
    }
}

/// The reply when no connected server has tool `name`.
pub fn not_available(name: &str) -> (r: String)
    ensures
        r@ == "mcp tool '"@ + name@ + "' not available"@,
{
    let mut r = owned("mcp tool '");
    push_str(&mut r, name);
    push_str(&mut r, "' not available");
    r
}

/// The reply when a tool call's arguments are not a JSON object.
pub fn invalid_arguments(error: &str) -> (r: String)
    ensures
        r@ == "invalid tool arguments: "@ + error@,
{
    let mut r = owned("invalid tool arguments: ");
    push_str(&mut r, error);
    r
}

/// The reply when a tool call could not be made.
pub fn call_failed(error: &str) -> (r: String)
    ensures
        r@ == "mcp call failed: "@ + error@,
{
    let mut r = owned("mcp call failed: ");
    push_str(&mut r, error);
    r
}

/// The reply to a tool call when no MCP bridge is available.
pub fn bridge_missing(method: &str) -> (r: String)
    ensures
        r@ == "mcp not available for "@ + method@,
{
    let mut r = owned("mcp not available for ");
    push_str(&mut r, method);
    r
}

/// Where a tool call goes: the index of the server that owns the tool, or
/// the reply that it is not available.
pub fn call_target(reg: &McpRegistry, name: &str) -> (r: Result<usize, String>)
    ensures
        match r {
            Ok(i) => owner(reg@, name@) == Some(i as int),
            Err(msg) => owner(reg@, name@) is None && msg@ == "mcp tool '"@ + name@ + "' not available"@,
        },
{
    match reg.owner_of(name) {
        Some(i) => Ok(i),
        None => Err(not_available(name)),
    }
}

} // verus!
