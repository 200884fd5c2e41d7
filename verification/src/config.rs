//! Configuration defaults.

use vstd::prelude::*;

verus! {

/// The model name used when none is configured.
pub open spec fn spec_default_model() -> Seq<char> {
    "deepseek-chat"@
}

/// Default model name when none is configured.
pub fn default_model() -> (name: &'static str)
    ensures
        name@ == spec_default_model(),
{
    "deepseek-chat"
}

} // verus!

verus! {

/// The environment block of an agent's system prompt, naming the
/// operating system the daemon runs on.
pub fn environment_block(os: &str) -> (r: String)
    ensures
        r@ == "\n\n<environment>\nos: "@ + os@ + "\n</environment>"@,
{
    let mut buf = crate::text::owned("\n\n<environment>\nos: ");
    crate::text::push_str(&mut buf, os);
    crate::text::push_str(&mut buf, "\n</environment>");
    proof {
        assert(buf@ =~= "\n\n<environment>\nos: "@ + os@ + "\n</environment>"@);
    }
    buf
}

} // verus!

verus! {

/// One configured item, listed under a user-chosen key: the name field that
/// defaults to the key (a provider's `model`, a channel's `platform`, an MCP
/// server's `name`), and the rest of its settings.
pub struct KeyedEntry<T> {
    pub key: String,
    pub name: String,
    pub settings: T,
}

/// The daemon's configuration: providers, channels and MCP servers in the
/// order of their keys, and the agent settings.
pub struct DaemonConfig<P, C, S, A> {
    pub models: Vec<KeyedEntry<P>>,
    pub channels: Vec<KeyedEntry<C>>,
    pub mcp_servers: Vec<KeyedEntry<S>>,
    pub agents: A,
}

/// The name an entry ends up with: its own, or its key where it has none.
pub open spec fn name_or_key<T>(e: KeyedEntry<T>) -> Seq<char> {
    if e.name@.len() == 0 {
        e.key@
    } else {
        e.name@
    }
}

/// `r` is `v` with every empty name filled from its key, and nothing else
/// changed.
pub open spec fn names_filled<T>(v: Seq<KeyedEntry<T>>, r: Seq<KeyedEntry<T>>) -> bool {
    &&& r.len() == v.len()
    &&& forall|i: int| 0 <= i < v.len() ==> {
        &&& (#[trigger] r[i]).key@ == v[i].key@
        &&& r[i].name@ == name_or_key(v[i])
        &&& r[i].settings == v[i].settings
    }
}

/// Fills each empty name of `v` from its key, keeping the order.
fn fill_names<T>(v: Vec<KeyedEntry<T>>) -> (r: Vec<KeyedEntry<T>>)
    ensures
        names_filled(v@, r@),
{
    let ghost orig = v@;
    let mut rest = v;
    let mut out: Vec<KeyedEntry<T>> = Vec::new();
    while rest.len() > 0
        invariant
            out@.len() + rest@.len() == orig.len(),
            rest@ == orig.skip(out@.len() as int),
            names_filled(orig.take(out@.len() as int), out@),
        decreases rest@.len(),
    {
        let ghost n = out@.len() as int;
        let e = rest.remove(0);
        assert(e == orig[n]);
        let name = if e.name.unicode_len() == 0 {
            crate::text::owned(e.key.as_str())
        } else {
            e.name
        };
        out.push(KeyedEntry { key: e.key, name, settings: e.settings });
        assert(rest@ =~= orig.skip(n + 1));
        assert(orig.take(n + 1).drop_last() =~= orig.take(n));
        assert forall|i: int| 0 <= i < n + 1 implies {
            &&& (#[trigger] out@[i]).key@ == orig.take(n + 1)[i].key@
            &&& out@[i].name@ == name_or_key(orig.take(n + 1)[i])
            &&& out@[i].settings == orig.take(n + 1)[i].settings
        } by {
            if i < n {
                assert(orig.take(n + 1)[i] == orig.take(n)[i]);
            }
        }
    }
    assert(orig.take(out@.len() as int) =~= orig);
    out
}

/// The configuration as the daemon uses it: a provider without a `model`,
/// a channel without a `platform` and an MCP server without a `name` take
/// their key; keys, order and every other setting stay as they are.
pub fn fill_defaults<P, C, S, A>(c: DaemonConfig<P, C, S, A>) -> (r: DaemonConfig<P, C, S, A>)
    ensures
        names_filled(c.models@, r.models@),
        names_filled(c.channels@, r.channels@),
        names_filled(c.mcp_servers@, r.mcp_servers@),
        r.agents == c.agents,
{
    DaemonConfig {
        models: fill_names(c.models),
        channels: fill_names(c.channels),
        mcp_servers: fill_names(c.mcp_servers),
        agents: c.agents,
    }
}

} // verus!
