//! Memory-backed prompt enrichment: the blocks injected into an agent's
//! system prompt, the allowed entity and relation types, and journal order.

use vstd::prelude::*;
use crate::bytes::{boundary_at, byte_len, byte_prefix, lemma_prefix_bytes, lemma_prefix_monotonic, width};
use crate::graph::EntityResult;
use crate::text::{decimal, from_chars_range, join_strs, joined, opt_view, owned, push_decimal, push_str, str_eq, to_chars, views};

verus! {

/// The parts of an agent's configuration that hooks enrich.
pub struct AgentConfig {
    /// Agent name.
    pub name: String,
    /// Agent description.
    pub description: String,
    /// System prompt.
    pub system_prompt: String,
    /// Tags selecting the agent's skills.
    pub skill_tags: Vec<String>,
}

/// Apply compiled memory to an agent config: a non-empty `compiled` text is
/// appended to the system prompt after a blank line.
pub fn with_memory(config: AgentConfig, compiled: &str) -> (r: AgentConfig)
    ensures
        r.name == config.name,
        r.description == config.description,
        r.skill_tags == config.skill_tags,
        r.system_prompt@ == if compiled@.len() == 0 {
            config.system_prompt@
        } else {
            config.system_prompt@ + "\n\n"@ + compiled@
        },
{
    let mut config = config;
    if compiled.unicode_len() != 0 {
        push_str(&mut config.system_prompt, "\n\n");
        push_str(&mut config.system_prompt, compiled);
    }
    config
}

// ── Allowed types ──────────────────────────────────────────────────────

/// `defaults` followed by each of `extras` not already present.
pub open spec fn merged(defaults: Seq<Seq<char>>, extras: Seq<Seq<char>>) -> Seq<Seq<char>>
    decreases extras.len(),
{
    if extras.len() == 0 {
        defaults
    } else {
        let m = merged(defaults, extras.drop_last());
        if m.contains(extras.last()) {
            m
        } else {
            m.push(extras.last())
        }
    }
}

fn contains_str(v: &Vec<String>, s: &str) -> (r: bool)
    ensures
        r == views(v@).contains(s@),
{
    let mut i: usize = 0;
    while i < v.len()
        invariant
            i <= v@.len(),
            forall|j: int| 0 <= j < i ==> v@[j]@ != s@,
        decreases v@.len() - i,
    {
        if str_eq(v[i].as_str(), s) {
            assert(views(v@)[i as int] == s@);
            return true;
        }
        i = i + 1;
    }
    assert forall|j: int| 0 <= j < views(v@).len() implies views(v@)[j] != s@ by {}
    false
}

/// Merge extra types into the defaults, keeping order and skipping duplicates.
pub fn merge_defaults(defaults: &[&str], extras: &[String]) -> (r: Vec<String>)
    ensures
        views(r@) == merged(defaults@.map_values(|s: &str| s@), extras@.map_values(|s: String| s@)),
{
    let mut out: Vec<String> = Vec::new();
    let mut i: usize = 0;
    while i < defaults.len()
        invariant
            i <= defaults@.len(),
            views(out@) == defaults@.map_values(|s: &str| s@).take(i as int),
        decreases defaults@.len() - i,
    {
        let ghost before = views(out@);
        out.push(owned(defaults[i]));
        proof {
            assert(views(out@) =~= before.push(defaults@[i as int]@));
            assert(defaults@.map_values(|s: &str| s@).take(i + 1)
                =~= defaults@.map_values(|s: &str| s@).take(i as int).push(defaults@[i as int]@));
        }
        i = i + 1;
    }
    let ghost d = defaults@.map_values(|s: &str| s@);
    let ghost e = extras@.map_values(|s: String| s@);
    proof {
        assert(d.take(defaults@.len() as int) =~= d);
    }
    let mut k: usize = 0;
    while k < extras.len()
        invariant
            k <= extras@.len(),
            d == defaults@.map_values(|s: &str| s@),
            e == extras@.map_values(|s: String| s@),
            views(out@) == merged(d, e.take(k as int)),
        decreases extras@.len() - k,
    {
        proof {
            assert(e.take(k + 1).drop_last() =~= e.take(k as int));
            assert(e.take(k + 1).last() == extras@[k as int]@);
        }
        if !contains_str(&out, extras[k].as_str()) {
            let ghost before = views(out@);
            out.push(extras[k].clone());
            proof {
                assert(views(out@) =~= before.push(extras@[k as int]@));
            }
        }
        k = k + 1;
    }
    proof {
        assert(e.take(extras@.len() as int) =~= e);
    }
    out
}

/// Default entity types.
pub open spec fn default_entities() -> Seq<Seq<char>> {
    seq!["fact"@, "preference"@, "person"@, "event"@, "concept"@, "identity"@, "profile"@]
}

/// Default relation types.
pub open spec fn default_relations() -> Seq<Seq<char>> {
    seq!["knows"@, "prefers"@, "related_to"@, "caused_by"@, "part_of"@, "depends_on"@, "tagged_with"@]
}

/// The settings of a memory hook derived from its configuration.
pub struct MemorySettings {
    /// Entity types agents may store.
    pub allowed_entities: Vec<String>,
    /// Relation types agents may create.
    pub allowed_relations: Vec<String>,
    /// How many connections a query returns (1 to 100).
    pub connection_limit: usize,
}

impl MemorySettings {
    /// Settings from the configured extra types and connection limit: the
    /// defaults extended by the extras, and the limit clamped to 1..=100.
    pub fn from_config(entities: &[String], relations: &[String], connections: usize) -> (r: Self)
        ensures
            views(r.allowed_entities@) == merged(default_entities(), entities@.map_values(|s: String| s@)),
            views(r.allowed_relations@) == merged(default_relations(), relations@.map_values(|s: String| s@)),
            r.connection_limit == if connections < 1 { 1 } else if connections > 100 { 100 } else { connections },
    {
        let de = ["fact", "preference", "person", "event", "concept", "identity", "profile"];
        let dr = ["knows", "prefers", "related_to", "caused_by", "part_of", "depends_on", "tagged_with"];
        assert(de@.map_values(|s: &str| s@) =~= default_entities());
        assert(dr@.map_values(|s: &str| s@) =~= default_relations());
        let allowed_entities = merge_defaults(de.as_slice(), entities);
        let allowed_relations = merge_defaults(dr.as_slice(), relations);
        let connection_limit = if connections < 1 {
            1
        } else if connections > 100 {
            100
        } else {
            connections
        };
        MemorySettings { allowed_entities, allowed_relations, connection_limit }
    }

    /// Whether `entity_type` is allowed.
    pub fn is_valid_entity(&self, entity_type: &str) -> (r: bool)
        ensures
            r == views(self.allowed_entities@).contains(entity_type@),
    {
        contains_str(&self.allowed_entities, entity_type)
    }

    /// Whether `relation` is allowed.
    pub fn is_valid_relation(&self, relation: &str) -> (r: bool)
        ensures
            r == views(self.allowed_relations@).contains(relation@),
    {
        contains_str(&self.allowed_relations, relation)
    }

    /// The description of the `remember` tool, listing the entity types.
    pub fn remember_description(&self) -> (r: String)
        ensures
            r@ == "Store a memory entity. Types: "@ + joined(views(self.allowed_entities@), ", "@) + "."@,
    {
        let mut r = owned("Store a memory entity. Types: ");
        let list = join_strs(self.allowed_entities.as_slice(), ", ");
        push_str(&mut r, list.as_str());
        push_str(&mut r, ".");
        r
    }

    /// The description of the `relate` tool, listing the relation types.
    pub fn relate_description(&self) -> (r: String)
        ensures
            r@ == "Create a directed relation between two entities by key. Relations: "@
                + joined(views(self.allowed_relations@), ", "@) + "."@,
    {
        let mut r = owned("Create a directed relation between two entities by key. Relations: ");
        let list = join_strs(self.allowed_relations.as_slice(), ", ");
        push_str(&mut r, list.as_str());
        push_str(&mut r, ".");
        r
    }
}

/// The longest a journal summary shown in a prompt may be, in bytes.
pub open spec fn summary_limit() -> nat {
    500
}

/// A journal summary as shown in a prompt: cut to its first 500 bytes,
/// with "..." appended, when longer.
pub open spec fn shown_summary(s: Seq<char>) -> Seq<char> {
    if byte_len(s) > summary_limit() {
        byte_prefix(s, summary_limit()) + "..."@
    } else {
        s
    }
}

/// The summary to show for `s` (see [`shown_summary`]).
pub fn shorten_summary(s: &str) -> (r: String)
    requires
        byte_len(s@) > summary_limit() ==> boundary_at(s@, summary_limit()),
    ensures
        r@ == shown_summary(s@),
{
    let v = to_chars(s);
    let mut bytes: usize = 0;
    let mut k: usize = 0;
    proof {
        assert(v@.take(0) =~= Seq::<char>::empty());
    }
    while k < v.len() && bytes <= 500
        invariant
            k <= v@.len(),
            bytes == byte_len(v@.take(k as int)),
            bytes <= 504,
        decreases v@.len() - k,
    {
        proof {
            lemma_prefix_bytes(v@, k as int);
        }
        bytes = bytes + width(v[k]);
        k = k + 1;
    }
    if bytes <= 500 {
        proof {
            assert(v@.take(k as int) =~= v@);
        }
        return owned(s);
    }
    // The whole text is longer than the limit: find where its first 500 bytes end.
    let mut b: usize = 0;
    let mut j: usize = 0;
    let ghost k0 = choose|m: int| 0 <= m <= v@.len() && byte_len(v@.take(m)) == 500;
    proof {
        lemma_prefix_monotonic(v@, k as int, v@.len() as int);
        assert(v@.take(v@.len() as int) =~= v@);
        assert(v@.take(0) =~= Seq::<char>::empty());
    }
    while b < 500
        invariant
            j <= v@.len(),
            b == byte_len(v@.take(j as int)),
            b <= 500,
            0 <= k0 <= v@.len(),
            byte_len(v@.take(k0)) == 500,
            j <= k0,
        decreases 500 - b,
    {
        proof {
            if j == k0 {
                assert(false);
            }
            lemma_prefix_bytes(v@, j as int);
            lemma_prefix_monotonic(v@, j + 1, k0);
        }
        b = b + width(v[j]);
        j = j + 1;
    }
    proof {
        if j < k0 {
            lemma_prefix_monotonic(v@, j as int, k0);
        }
        assert(j == k0);
    }
    let mut r = from_chars_range(v.as_slice(), 0, j);
    push_str(&mut r, "...");
    proof {
        assert(v@.subrange(0, j as int) =~= v@.take(j as int));
    }
    r
}


// ── Prompt enrichment ──────────────────────────────────────────────────

/// A journal entry returned from a query.
pub struct JournalResult {
    /// Compaction summary.
    pub summary: String,
    /// Creation time, in seconds since the Unix epoch.
    pub created_at: u64,
}

/// The UTC minute (`%Y-%m-%d %H:%M`) of the Unix time `secs`, as chrono
/// renders it; `None` where chrono has no such date.
pub uninterp spec fn minute_text(secs: i64) -> Option<Seq<char>>;

/// Render a Unix time as `YYYY-MM-DD HH:MM` in UTC
/// (`chrono::DateTime::from_timestamp` and `format`).
///
/// Trusted: the result is named [`minute_text`] of the argument; chrono
/// returns `None` for times outside its range. What the text holds is not
/// stated here.
#[verifier::external_body]
fn format_minute(secs: i64) -> (r: Option<String>)
    ensures
        opt_view(r) == minute_text(secs),
{
    match chrono::DateTime::from_timestamp(secs, 0) {
        Some(dt) => Some(dt.format("%Y-%m-%d %H:%M").to_string()),
        None => None,
    }
}

/// How a journal's time is shown, given chrono's rendering `minute` of
/// it: that text, or the raw seconds when chrono has no such date.
pub fn journal_time_text(minute: Option<String>, created_at: u64) -> (r: String)
    ensures
        r@ == match opt_view(minute) {
            Some(t) => t,
            None => decimal(created_at as nat),
        },
{
    match minute {
        Some(t) => t,
        None => {
            let mut d = String::new();
            push_decimal(&mut d, created_at);
            d
        },
    }
}

/// How a journal's time is shown: its UTC minute, or the raw seconds when
/// chrono has no such date.
pub open spec fn journal_time(created_at: u64) -> Seq<char> {
    match minute_text(created_at as i64) {
        Some(t) => t,
        None => decimal(created_at as nat),
    }
}

/// The lines listing entities: `- **key**: value`.
pub open spec fn entity_lines(es: Seq<EntityResult>) -> Seq<char>
    decreases es.len(),
{
    if es.len() == 0 {
        Seq::empty()
    } else {
        entity_lines(es.drop_last()) + "- **"@ + es.last().key@ + "**: "@ + es.last().value@ + "\n"@
    }
}

/// The tagged block of entities, empty when the query failed or found none.
pub open spec fn entity_block(tag: Seq<char>, es: Option<Seq<EntityResult>>) -> Seq<char> {
    match es {
        Some(v) => if v.len() == 0 {
            Seq::empty()
        } else {
            "\n\n<"@ + tag + ">\n"@ + entity_lines(v) + "</"@ + tag + ">"@
        },
        None => Seq::empty(),
    }
}

/// The lines listing journals: `- **time**: summary`.
pub open spec fn journal_lines(js: Seq<JournalResult>) -> Seq<char>
    decreases js.len(),
{
    if js.len() == 0 {
        Seq::empty()
    } else {
        journal_lines(js.drop_last()) + "- **"@ + journal_time(js.last().created_at) + "**: "@
            + shown_summary(js.last().summary@) + "\n"@
    }
}

/// The journal block, empty when the query failed or found none.
pub open spec fn journal_block(js: Option<Seq<JournalResult>>) -> Seq<char> {
    match js {
        Some(v) => if v.len() == 0 {
            Seq::empty()
        } else {
            "\n\n<journal>\n"@ + journal_lines(v) + "</journal>"@
        },
        None => Seq::empty(),
    }
}

/// The agent's static identity block.
pub open spec fn self_block(name: Seq<char>, description: Seq<char>) -> Seq<char> {
    "\n\n<self>\nname: "@ + name + "\n"@
        + (if description.len() == 0 { Seq::empty() } else { "description: "@ + description + "\n"@ })
        + "</self>"@
}

/// The system prompt a memory-enriched agent receives.
pub open spec fn enriched_prompt(
    config: AgentConfig,
    identities: Option<Seq<EntityResult>>,
    profiles: Option<Seq<EntityResult>>,
    journals: Option<Seq<JournalResult>>,
    memory_prompt: Seq<char>,
) -> Seq<char> {
    config.system_prompt@ + self_block(config.name@, config.description@)
        + entity_block("identity"@, identities) + entity_block("profile"@, profiles)
        + journal_block(journals) + "\n\n"@ + memory_prompt
}

/// A journal's summary, if too long, can be cut at its 500th byte.
pub open spec fn summary_cuttable(j: JournalResult) -> bool {
    byte_len(j.summary@) > summary_limit() ==> boundary_at(j.summary@, summary_limit())
}

/// Every shown journal summary can be cut at its 500th byte.
pub open spec fn journals_cuttable(js: Seq<JournalResult>) -> bool {
    forall|i: int| 0 <= i < js.len() ==> summary_cuttable(#[trigger] js[i])
}

fn push_entity_block(out: &mut String, tag: &str, es: &Option<Vec<EntityResult>>)
    ensures
        final(out)@ == old(out)@ + entity_block(tag@, match es { Some(v) => Some(v@), None => None }),
{
    if let Some(v) = es {
        if v.len() > 0 {
            push_str(out, "\n\n<");
            push_str(out, tag);
            push_str(out, ">\n");
            let ghost start = out@;
            let mut i: usize = 0;
            while i < v.len()
                invariant
                    i <= v@.len(),
                    out@ == start + entity_lines(v@.take(i as int)),
                decreases v@.len() - i,
            {
                proof {
                    assert(v@.take(i + 1).drop_last() =~= v@.take(i as int));
                }
                push_str(out, "- **");
                push_str(out, v[i].key.as_str());
                push_str(out, "**: ");
                push_str(out, v[i].value.as_str());
                push_str(out, "\n");
                i = i + 1;
            }
            push_str(out, "</");
            push_str(out, tag);
            push_str(out, ">");
            proof {
                assert(v@.take(v@.len() as int) =~= v@);
            }
        }
    }
}

fn push_self_block(out: &mut String, name: &str, description: &str)
    ensures
        final(out)@ == old(out)@ + self_block(name@, description@),
{
    push_str(out, "\n\n<self>\nname: ");
    push_str(out, name);
    push_str(out, "\n");
    if description.unicode_len() != 0 {
        push_str(out, "description: ");
        push_str(out, description);
        push_str(out, "\n");
    }
    push_str(out, "</self>");
}

fn push_journal_block(out: &mut String, journals: &Option<Vec<JournalResult>>)
    requires
        match journals { Some(v) => journals_cuttable(v@), None => true },
    ensures
        final(out)@ == old(out)@ + journal_block(match journals { Some(v) => Some(v@), None => None }),
{
    let extra = out;
    if let Some(v) = &journals {
        if v.len() > 0 {
            push_str(extra, "\n\n<journal>\n");
            let ghost start = extra@;
            let mut i: usize = 0;
            while i < v.len()
                invariant
                    i <= v@.len(),
                    journals_cuttable(v@),
                    extra@ == start + journal_lines(v@.take(i as int)),
                decreases v@.len() - i,
            {
                proof {
                    assert(v@.take(i + 1).drop_last() =~= v@.take(i as int));
                    assert(v@.take(i + 1).last() == v@[i as int]);
                }
                let j = &v[i];
                let ts = journal_time_text(format_minute(#[verifier::truncate] (j.created_at as i64)), j.created_at);
                assert(summary_cuttable(v@[i as int]));
                let shown = shorten_summary(j.summary.as_str());
                push_str(extra, "- **");
                push_str(extra, ts.as_str());
                push_str(extra, "**: ");
                push_str(extra, shown.as_str());
                push_str(extra, "\n");
                i = i + 1;
            }
            push_str(extra, "</journal>");
            proof {
                assert(v@.take(v@.len() as int) =~= v@);
            }
        }
    }
}

/// Enrich an agent's system prompt with what memory holds about it: its
/// identity, the identity and profile entities and recent journals found
/// (`None` where a query failed), then the memory instructions.
pub fn on_build_agent(
    config: AgentConfig,
    identities: Option<Vec<EntityResult>>,
    profiles: Option<Vec<EntityResult>>,
    journals: Option<Vec<JournalResult>>,
    memory_prompt: &str,
) -> (r: AgentConfig)
    requires
        match journals { Some(v) => journals_cuttable(v@), None => true },
    ensures
        r.name == config.name,
        r.description == config.description,
        r.skill_tags == config.skill_tags,
        r.system_prompt@ == enriched_prompt(
            config,
            match identities { Some(v) => Some(v@), None => None },
            match profiles { Some(v) => Some(v@), None => None },
            match journals { Some(v) => Some(v@), None => None },
            memory_prompt@,
        ),
{
    let ghost orig = config;
    let ghost ids = match &identities { Some(v) => Some(v@), None => None };
    let ghost pfs = match &profiles { Some(v) => Some(v@), None => None };
    let ghost jns = match &journals { Some(v) => Some(v@), None => None };
    let mut config = config;
    let mut extra = String::new();
    push_self_block(&mut extra, config.name.as_str(), config.description.as_str());
    let ghost e1 = extra@;
    push_entity_block(&mut extra, "identity", &identities);
    let ghost e2 = extra@;
    push_entity_block(&mut extra, "profile", &profiles);
    let ghost e3 = extra@;
    push_journal_block(&mut extra, &journals);
    let ghost e4 = extra@;
    proof {
        assert(e1 == self_block(orig.name@, orig.description@));
        assert(e2 == e1 + entity_block("identity"@, ids));
        assert(e3 == e2 + entity_block("profile"@, pfs));
        assert(e4 == e3 + journal_block(jns));
    }
    push_str(&mut config.system_prompt, extra.as_str());
    push_str(&mut config.system_prompt, "\n\n");
    push_str(&mut config.system_prompt, memory_prompt);
    proof {
        assert(config.system_prompt@ =~= orig.system_prompt@ + e4 + "\n\n"@ + memory_prompt@);
        assert(enriched_prompt(orig, ids, pfs, jns, memory_prompt@) =~= orig.system_prompt@ + e4 + "\n\n"@ + memory_prompt@);
    }
    config
}

// ── Journal order ──────────────────────────────────────────────────────

/// `s` with `x` inserted before the first (from the end) run of entries
/// strictly older than it: after every entry at least as recent.
pub open spec fn insert_recent(s: Seq<JournalResult>, x: JournalResult) -> Seq<JournalResult>
    decreases s.len(),
{
    if s.len() == 0 {
        seq![x]
    } else if s.last().created_at >= x.created_at {
        s.push(x)
    } else {
        insert_recent(s.drop_last(), x).push(s.last())
    }
}

/// `s` sorted most recent first, equal times keeping their order.
pub open spec fn sorted_recent(s: Seq<JournalResult>) -> Seq<JournalResult>
    decreases s.len(),
{
    if s.len() == 0 {
        Seq::empty()
    } else {
        insert_recent(sorted_recent(s.drop_last()), s.last())
    }
}

proof fn lemma_insert_at(s: Seq<JournalResult>, x: JournalResult, p: int)
    requires
        0 <= p <= s.len(),
        forall|i: int| p <= i < s.len() ==> s[i].created_at < x.created_at,
        p == 0 || s[p - 1].created_at >= x.created_at,
    ensures
        insert_recent(s, x) == s.insert(p, x),
    decreases s.len(),
{
    if s.len() == 0 {
        assert(s.insert(p, x) =~= seq![x]);
    } else if s.last().created_at >= x.created_at {
        assert(s.insert(p, x) =~= s.push(x));
    } else {
        lemma_insert_at(s.drop_last(), x, p);
        assert(s.drop_last().insert(p, x).push(s.last()) =~= s.insert(p, x));
    }
}

/// Sort journals most recent first; entries with equal times keep their order.
pub fn sort_recent_first(js: Vec<JournalResult>) -> (r: Vec<JournalResult>)
    ensures
        r@ == sorted_recent(js@),
{
    let mut src = js;
    let ghost all = src@;
    let mut rev: Vec<JournalResult> = Vec::new();
    let n = src.len();
    while src.len() > 0
        invariant
            n == all.len(),
            rev@.len() + src@.len() == all.len(),
            src@ == all.subrange(0, src@.len() as int),
            forall|k: int| 0 <= k < rev@.len() ==> rev@[k] == all[all.len() - 1 - k],
        decreases src@.len(),
    {
        let x = src.pop().unwrap();
        rev.push(x);
    }
    let mut out: Vec<JournalResult> = Vec::new();
    let mut i: usize = 0;
    while rev.len() > 0
        invariant
            n == all.len(),
            i + rev@.len() == all.len(),
            forall|k: int| 0 <= k < rev@.len() ==> rev@[k] == all[all.len() - 1 - k],
            out@ == sorted_recent(all.take(i as int)),
        decreases rev@.len(),
    {
        let x = rev.pop().unwrap();
        proof {
            assert(all.take(i + 1).drop_last() =~= all.take(i as int));
            assert(all.take(i + 1).last() == x);
        }
        let mut p = out.len();
        while p > 0 && out[p - 1].created_at < x.created_at
            invariant
                p <= out@.len(),
                forall|q: int| p <= q < out@.len() ==> out@[q].created_at < x.created_at,
            decreases p,
        {
            p = p - 1;
        }
        proof {
            lemma_insert_at(out@, x, p as int);
        }
        out.insert(p, x);
        i = i + 1;
    }
    proof {
        assert(all.take(i as int) =~= all);
    }
    out
}

proof fn lemma_insert_sorted(s: Seq<JournalResult>, x: JournalResult)
    requires
        forall|a: int, b: int| 0 <= a < b < s.len() ==> s[a].created_at >= s[b].created_at,
    ensures
        insert_recent(s, x).len() == s.len() + 1,
        forall|a: int, b: int| 0 <= a < b < insert_recent(s, x).len()
            ==> insert_recent(s, x)[a].created_at >= insert_recent(s, x)[b].created_at,
        forall|a: int| 0 <= a < insert_recent(s, x).len() ==> insert_recent(s, x)[a] == x
            || exists|b: int| 0 <= b < s.len() && insert_recent(s, x)[a] == s[b],
    decreases s.len(),
{
    if s.len() == 0 {
    } else if s.last().created_at >= x.created_at {
        let t = s.push(x);
        assert forall|a: int| 0 <= a < t.len() implies t[a] == x || exists|b: int| 0 <= b < s.len() && t[a] == s[b] by {
            if a < s.len() {
                assert(t[a] == s[a]);
            }
        }
    } else {
        let d = s.drop_last();
        lemma_insert_sorted(d, x);
        let t0 = insert_recent(d, x);
        let t = t0.push(s.last());
        assert forall|a: int| 0 <= a < t0.len() implies t0[a].created_at >= s.last().created_at by {
            if t0[a] != x {
                let b = choose|b: int| 0 <= b < d.len() && t0[a] == d[b];
                assert(s[b].created_at >= s[s.len() - 1].created_at);
            }
        }
        assert forall|a: int| 0 <= a < t.len() implies t[a] == x || exists|b: int| 0 <= b < s.len() && t[a] == s[b] by {
            if a < t0.len() {
                if t0[a] != x {
                    let b = choose|b: int| 0 <= b < d.len() && t0[a] == d[b];
                    assert(t[a] == s[b]);
                }
            } else {
                assert(t[a] == s[s.len() - 1]);
            }
        }
    }
}

/// Journals come out most recent first, none lost or added in number.
pub proof fn law_journals_recent_first(s: Seq<JournalResult>)
    ensures
        sorted_recent(s).len() == s.len(),
        forall|a: int, b: int| 0 <= a < b < sorted_recent(s).len()
            ==> sorted_recent(s)[a].created_at >= sorted_recent(s)[b].created_at,
    decreases s.len(),
{
    if s.len() > 0 {
        law_journals_recent_first(s.drop_last());
        lemma_insert_sorted(sorted_recent(s.drop_last()), s.last());
    }
}

/// The newest `limit` journals of `rows`, most recent first: the rows sorted
/// by time (equal times keep their order), cut after `limit`.
pub fn recent_journals(rows: Vec<JournalResult>, limit: usize) -> (r: Vec<JournalResult>)
    ensures
        r@ == sorted_recent(rows@).take(if limit < rows@.len() { limit as int } else { rows@.len() as int }),
        forall|a: int, b: int| 0 <= a < r@.len() <= b < rows@.len()
            ==> r@[a].created_at >= sorted_recent(rows@)[b].created_at,
{
    let ghost all = sorted_recent(rows@);
    proof {
        law_journals_recent_first(rows@);
    }
    let ghost n = rows@.len();
    let mut v = sort_recent_first(rows);
    while v.len() > limit
        invariant
            all.len() == n,
            v@.len() >= limit || v@.len() == n,
            v@.len() <= all.len(),
            v@ == all.take(v@.len() as int),
        decreases v@.len(),
    {
        v.pop();
        assert(v@ =~= all.take(v@.len() as int));
    }
    assert(v@ =~= all.take(v@.len() as int));
    v
}

} // verus!
