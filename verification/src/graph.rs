//! Query text for the graph memory store: escaping and Cypher construction,
//! and the choice among entities that a lookup returns.

use vstd::prelude::*;
use crate::text::{owned, push_char, push_decimal, push_str, decimal, to_chars, starts_with_chars, has_prefix};

verus! {

/// `s` with every character `c` replaced by `rep(c)`.
pub open spec fn escaped(s: Seq<char>, rep: spec_fn(char) -> Seq<char>) -> Seq<char>
    decreases s.len(),
{
    if s.len() == 0 {
        Seq::empty()
    } else {
        escaped(s.drop_last(), rep) + rep(s.last())
    }
}

/// SQL string-literal escaping: a quote becomes two quotes.
pub open spec fn sql_rep(c: char) -> Seq<char> {
    if c == '\'' { seq!['\'', '\''] } else { seq![c] }
}

/// Cypher string-literal escaping: backslash and quote get a backslash.
pub open spec fn cypher_rep(c: char) -> Seq<char> {
    if c == '\\' {
        seq!['\\', '\\']
    } else if c == '\'' {
        seq!['\\', '\'']
    } else {
        seq![c]
    }
}

/// Cypher identifier escaping: a backtick becomes two backticks.
pub open spec fn ident_rep(c: char) -> Seq<char> {
    if c == '`' { seq!['`', '`'] } else { seq![c] }
}

/// Which escaping to apply.
#[derive(Clone, Copy, Debug, PartialEq, Eq, Structural)]
pub enum Escape {
    Sql,
    Cypher,
    Ident,
}

/// The replacement function of an escaping.
pub open spec fn rep_of(e: Escape) -> spec_fn(char) -> Seq<char> {
    match e {
        Escape::Sql => |c: char| sql_rep(c),
        Escape::Cypher => |c: char| cypher_rep(c),
        Escape::Ident => |c: char| ident_rep(c),
    }
}

fn escape_with(s: &str, e: Escape) -> (r: String)
    ensures
        r@ == escaped(s@, rep_of(e)),
{
    let v = to_chars(s);
    let mut out = String::new();
    let mut i: usize = 0;
    while i < v.len()
        invariant
            i <= v@.len(),
            out@ == escaped(v@.subrange(0, i as int), rep_of(e)),
        decreases v@.len() - i,
    {
        let c = v[i];
        proof {
            assert(v@.subrange(0, i + 1).drop_last() =~= v@.subrange(0, i as int));
        }
        let ghost before = out@;
        match e {
            Escape::Sql => {
                push_char(&mut out, c);
                if c == '\'' {
                    push_char(&mut out, '\'');
                }
            },
            Escape::Cypher => {
                if c == '\\' || c == '\'' {
                    push_char(&mut out, '\\');
                }
                push_char(&mut out, c);
            },
            Escape::Ident => {
                push_char(&mut out, c);
                if c == '`' {
                    push_char(&mut out, '`');
                }
            },
        }
        proof {
            assert(out@ =~= before + rep_of(e)(c));
        }
        i = i + 1;
    }
    proof {
        assert(v@.subrange(0, i as int) =~= v@);
    }
    out
}

/// Escape a string for a single-quoted SQL literal.
pub fn escape_sql(s: &str) -> (r: String)
    ensures
        r@ == escaped(s@, |c: char| sql_rep(c)),
{
    escape_with(s, Escape::Sql)
}

/// Escape a string for a single-quoted Cypher literal.
pub fn escape_cypher(s: &str) -> (r: String)
    ensures
        r@ == escaped(s@, |c: char| cypher_rep(c)),
{
    escape_with(s, Escape::Cypher)
}

/// Escape a Cypher identifier for backtick quoting.
pub fn escape_cypher_ident(s: &str) -> (r: String)
    ensures
        r@ == escaped(s@, |c: char| ident_rep(c)),
{
    escape_with(s, Escape::Ident)
}

/// A quote never survives SQL escaping alone: every quote in the output is
/// one of a doubled pair, so the output splits back into the input.
pub proof fn law_sql_escape_unescapes(s: Seq<char>)
    ensures
        unescape_sql(escaped(s, |c: char| sql_rep(c))) == s,
    decreases s.len(),
{
    if s.len() > 0 {
        law_sql_escape_unescapes(s.drop_last());
        lemma_escaped_well(s.drop_last());
        lemma_unescape_append(escaped(s.drop_last(), |c: char| sql_rep(c)), s.last());
    }
}

/// Undo SQL escaping: two quotes become one.
pub open spec fn unescape_sql(s: Seq<char>) -> Seq<char>
    decreases s.len(),
{
    if s.len() == 0 {
        Seq::empty()
    } else if s.len() >= 2 && s[0] == '\'' && s[1] == '\'' {
        seq!['\''] + unescape_sql(s.subrange(2, s.len() as int))
    } else {
        seq![s[0]] + unescape_sql(s.drop_first())
    }
}

/// Whether `s` is made of escaped units (no lone quote).
pub open spec fn well_escaped(s: Seq<char>) -> bool
    decreases s.len(),
{
    if s.len() == 0 {
        true
    } else if s[0] == '\'' {
        s.len() >= 2 && s[1] == '\'' && well_escaped(s.subrange(2, s.len() as int))
    } else {
        well_escaped(s.drop_first())
    }
}

proof fn lemma_escaped_well(s: Seq<char>)
    ensures
        well_escaped(escaped(s, |c: char| sql_rep(c))),
    decreases s.len(),
{
    if s.len() > 0 {
        lemma_escaped_well(s.drop_last());
        lemma_well_append(escaped(s.drop_last(), |c: char| sql_rep(c)), s.last());
    }
}

proof fn lemma_well_append(t: Seq<char>, c: char)
    requires
        well_escaped(t),
    ensures
        well_escaped(t + sql_rep(c)),
    decreases t.len(),
{
    let r = sql_rep(c);
    reveal_with_fuel(well_escaped, 2);
    if t.len() == 0 {
        assert(t + r =~= r);
        if c == '\'' {
            assert(r.subrange(2, 2) =~= Seq::<char>::empty());
        } else {
            assert(r.drop_first() =~= Seq::<char>::empty());
        }
    } else if t[0] == '\'' {
        let rest = t.subrange(2, t.len() as int);
        lemma_well_append(rest, c);
        assert((t + r)[0] == t[0] && (t + r)[1] == t[1]);
        assert((t + r).subrange(2, (t + r).len() as int) =~= rest + r);
    } else {
        lemma_well_append(t.drop_first(), c);
        assert((t + r)[0] == t[0]);
        assert((t + r).drop_first() =~= t.drop_first() + r);
    }
}

proof fn lemma_unescape_append(t: Seq<char>, c: char)
    requires
        well_escaped(t),
    ensures
        unescape_sql(t + sql_rep(c)) == unescape_sql(t).push(c),
    decreases t.len(),
{
    let r = sql_rep(c);
    reveal_with_fuel(unescape_sql, 2);
    if t.len() == 0 {
        assert(t + r =~= r);
        if c == '\'' {
            assert(r.subrange(2, 2) =~= Seq::<char>::empty());
            assert(unescape_sql(r) =~= seq!['\''] + Seq::<char>::empty());
        } else {
            assert(r.drop_first() =~= Seq::<char>::empty());
            assert(unescape_sql(r) =~= seq![c] + Seq::<char>::empty());
        }
        assert(unescape_sql(t) =~= Seq::<char>::empty());
    } else if t[0] == '\'' {
        let rest = t.subrange(2, t.len() as int);
        lemma_unescape_append(rest, c);
        assert((t + r)[0] == t[0] && (t + r)[1] == t[1]);
        assert((t + r).subrange(2, (t + r).len() as int) =~= rest + r);
        assert(unescape_sql(t + r) =~= seq!['\''] + unescape_sql(rest + r));
        assert(unescape_sql(t) =~= seq!['\''] + unescape_sql(rest));
    } else {
        lemma_unescape_append(t.drop_first(), c);
        assert((t + r)[0] == t[0]);
        assert((t + r).drop_first() =~= t.drop_first() + r);
        assert(unescape_sql(t + r) =~= seq![t[0]] + unescape_sql(t.drop_first() + r));
        assert(unescape_sql(t) =~= seq![t[0]] + unescape_sql(t.drop_first()));
    }
}


/// Direction of a connection query.
#[derive(Clone, Copy, Debug, PartialEq, Eq, Structural)]
pub enum Direction {
    Outgoing,
    Incoming,
    Both,
}

/// The relation-type part of a connection pattern.
pub open spec fn rel_type_text(relation: Option<Seq<char>>) -> Seq<char> {
    match relation {
        Some(r) => ":`"@ + escaped(r, |c: char| ident_rep(c)) + "`"@,
        None => Seq::empty(),
    }
}

/// The Cypher query for the 1-hop connections of an entity.
pub open spec fn connections_cypher(
    entity_id: Seq<char>,
    agent: Seq<char>,
    relation: Option<Seq<char>>,
    direction: Direction,
    limit: nat,
) -> Seq<char> {
    let eid = escaped(entity_id, |c: char| cypher_rep(c));
    let ag = escaped(agent, |c: char| cypher_rep(c));
    let rel = rel_type_text(relation);
    let pattern = match direction {
        Direction::Outgoing => "(e:entities {id: '"@ + eid + "'})-[r:relations"@ + rel + "]->(t:entities)"@,
        Direction::Incoming => "(e:entities)<-[r:relations"@ + rel + "]-(s:entities {id: '"@ + eid + "'})"@,
        Direction::Both => "(e:entities)-[r:relations"@ + rel + "]-(o:entities {id: '"@ + eid + "'})"@,
    };
    "MATCH "@ + pattern + " WHERE r.agent = '"@ + ag + "' RETURN r.source, r.relation, r.target LIMIT "@
        + decimal(limit)
}

/// Build the Cypher query for 1-hop connection traversal.
pub fn build_connections_cypher(
    entity_id: &str,
    agent: &str,
    relation: Option<&str>,
    direction: Direction,
    limit: usize,
) -> (q: String)
    ensures
        q@ == connections_cypher(
            entity_id@,
            agent@,
            match relation { Some(r) => Some(r@), None => None },
            direction,
            limit as nat,
        ),
{
    let eid = escape_cypher(entity_id);
    let ag = escape_cypher(agent);
    let mut rel = String::new();
    if let Some(r) = relation {
        push_str(&mut rel, ":`");
        let er = escape_cypher_ident(r);
        push_str(&mut rel, er.as_str());
        push_str(&mut rel, "`");
    }
    let mut q = owned("MATCH ");
    match direction {
        Direction::Outgoing => {
            push_str(&mut q, "(e:entities {id: '");
            push_str(&mut q, eid.as_str());
            push_str(&mut q, "'})-[r:relations");
            push_str(&mut q, rel.as_str());
            push_str(&mut q, "]->(t:entities)");
        },
        Direction::Incoming => {
            push_str(&mut q, "(e:entities)<-[r:relations");
            push_str(&mut q, rel.as_str());
            push_str(&mut q, "]-(s:entities {id: '");
            push_str(&mut q, eid.as_str());
            push_str(&mut q, "'})");
        },
        Direction::Both => {
            push_str(&mut q, "(e:entities)-[r:relations");
            push_str(&mut q, rel.as_str());
            push_str(&mut q, "]-(o:entities {id: '");
            push_str(&mut q, eid.as_str());
            push_str(&mut q, "'})");
        },
    }
    push_str(&mut q, " WHERE r.agent = '");
    push_str(&mut q, ag.as_str());
    push_str(&mut q, "' RETURN r.source, r.relation, r.target LIMIT ");
    push_decimal(&mut q, limit as u64);
    proof {
        let relv = match relation { Some(r) => Some(r@), None => None::<Seq<char>> };
        let ghost spec = connections_cypher(entity_id@, agent@, relv, direction, limit as nat);
        assert(rel@ == rel_type_text(relv));
        assert(q@ =~= spec);
    }
    q
}

/// The most connections a query returns.
pub open spec fn connections_max() -> nat {
    100
}

/// The connection limit actually used for a requested `limit`.
pub fn capped_limit(limit: usize) -> (r: usize)
    ensures
        r == if limit <= connections_max() { limit as nat } else { connections_max() },
{
    if limit < 100 { limit } else { 100 }
}

/// An entity returned from a query.
pub struct EntityResult {
    pub id: String,
    pub entity_type: String,
    pub key: String,
    pub value: String,
}

/// The id prefix of entities scoped to user `sender` of `agent`.
pub open spec fn sender_prefix(agent: Seq<char>, sender: Seq<char>) -> Seq<char> {
    agent + ":"@ + sender + ":"@
}

/// Whether the entity id `id` is scoped to some user of `agent`: it starts
/// with `{agent}:{x}:` for a non-empty `x`. Other entities of the agent are
/// agent-scoped.
pub open spec fn user_scoped(id: Seq<char>, agent: Seq<char>) -> bool {
    exists|x: Seq<char>| x.len() > 0 && #[trigger] has_prefix(id, sender_prefix(agent, x))
}

/// The first index of `es` whose id satisfies `f`, if any.
pub open spec fn first_where(es: Seq<EntityResult>, f: spec_fn(Seq<char>) -> bool) -> Option<int> {
    if exists|i: int| 0 <= i < es.len() && f(#[trigger] es[i].id@) {
        Some(choose|i: int| 0 <= i < es.len() && f(#[trigger] es[i].id@)
            && forall|j: int| 0 <= j < i ==> !f(es[j].id@))
    } else {
        None
    }
}

/// The entity a key lookup returns among the matches `es`: with no sender,
/// the first; otherwise the first scoped to that sender, else the first
/// agent-scoped one; another user's entity is never returned.
pub open spec fn chosen_entity(es: Seq<EntityResult>, agent: Seq<char>, sender: Seq<char>) -> Option<int> {
    if es.len() == 0 {
        None
    } else if sender.len() == 0 {
        Some(0)
    } else if first_where(es, |id: Seq<char>| has_prefix(id, sender_prefix(agent, sender))) is Some {
        first_where(es, |id: Seq<char>| has_prefix(id, sender_prefix(agent, sender)))
    } else {
        first_where(es, |id: Seq<char>| !user_scoped(id, agent))
    }
}

/// Whether `id` is user-scoped for `agent` (see [`user_scoped`]).
fn is_user_scoped(id: &str, agent: &str) -> (r: bool)
    ensures
        r == user_scoped(id@, agent@),
{
    let v = to_chars(id);
    let mut head = owned(agent);
    push_str(&mut head, ":");
    let hv = to_chars(head.as_str());
    proof {
        reveal_strlit(":");
    }
    if !starts_with_chars(v.as_slice(), hv.as_slice()) {
        proof {
            assert forall|x: Seq<char>| x.len() > 0 implies !#[trigger] has_prefix(id@, sender_prefix(agent@, x)) by {
                if has_prefix(id@, sender_prefix(agent@, x)) {
                    assert(id@.subrange(0, hv@.len() as int) =~= sender_prefix(agent@, x).subrange(0, hv@.len() as int));
                    assert(sender_prefix(agent@, x).subrange(0, hv@.len() as int) =~= hv@);
                }
            }
        }
        return false;
    }
    let start = hv.len();
    let mut j: usize = start;
    while j < v.len()
        invariant
            v@ == id@,
            hv@ == agent@ + ":"@,
            ":"@ == seq![':'],
            start == hv@.len(),
            has_prefix(id@, hv@),
            start <= j,
            forall|k: int| start < k < j && k < v@.len() ==> v@[k] != ':',
        decreases v@.len() - j,
    {
        if v[j] == ':' && j > start {
            proof {
                let x = id@.subrange(start as int, j as int);
                let sp = sender_prefix(agent@, x);
                assert(id@.subrange(0, start as int) == hv@);
                assert(sp =~= hv@ + x + seq![':']);
                assert forall|k: int| 0 <= k < sp.len() implies id@.subrange(0, sp.len() as int)[k] == sp[k] by {
                    if k < start {
                        assert(id@.subrange(0, start as int)[k] == hv@[k]);
                    }
                }
                assert(id@.subrange(0, sp.len() as int) =~= sp);
                assert(has_prefix(id@, sender_prefix(agent@, x)));
            }
            return true;
        }
        j = j + 1;
    }
    proof {
        assert forall|x: Seq<char>| x.len() > 0 implies !#[trigger] has_prefix(id@, sender_prefix(agent@, x)) by {
            if has_prefix(id@, sender_prefix(agent@, x)) {
                let k = start + x.len();
                let sp = sender_prefix(agent@, x);
                assert(sp =~= hv@ + x + seq![':']);
                assert(id@.subrange(0, sp.len() as int)[k] == sp[k]);
                assert(v@[k] == ':');
            }
        }
    }
    false
}

/// Choose the entity a key lookup returns among the matches `entities`.
pub fn select_entity(entities: Vec<EntityResult>, agent: &str, sender: &str) -> (r: Option<EntityResult>)
    ensures
        match chosen_entity(entities@, agent@, sender@) {
            Some(i) => r == Some(entities@[i]),
            None => r is None,
        },
{
    let mut list = entities;
    let ghost es = list@;
    if list.len() == 0 {
        return None;
    }
    if sender.unicode_len() == 0 {
        return Some(list.swap_remove(0));
    }
    let mut prefix = owned(agent);
    push_str(&mut prefix, ":");
    push_str(&mut prefix, sender);
    push_str(&mut prefix, ":");
    let pv = to_chars(prefix.as_str());
    let ghost own = |id: Seq<char>| has_prefix(id, sender_prefix(agent@, sender@));
    let ghost shared = |id: Seq<char>| !user_scoped(id, agent@);
    let mut fallback: Option<usize> = None;
    let mut i: usize = 0;
    while i < list.len()
        invariant
            list@ == es,
            es == entities@,
            es.len() > 0,
            sender@.len() > 0,
            i <= es.len(),
            pv@ == sender_prefix(agent@, sender@),
            own == (|id: Seq<char>| has_prefix(id, sender_prefix(agent@, sender@))),
            shared == (|id: Seq<char>| !user_scoped(id, agent@)),
            forall|j: int| 0 <= j < i ==> !own(#[trigger] es[j].id@),
            match fallback {
                Some(f) => f < i && shared(es[f as int].id@) && forall|j: int| 0 <= j < f ==> !shared(#[trigger] es[j].id@),
                None => forall|j: int| 0 <= j < i ==> !shared(#[trigger] es[j].id@),
            },
        decreases es.len() - i,
    {
        let idv = to_chars(list[i].id.as_str());
        if starts_with_chars(idv.as_slice(), pv.as_slice()) {
            proof {
                assert(own(es[i as int].id@));
                let k = choose|k: int| 0 <= k < es.len() && own(#[trigger] es[k].id@)
                    && forall|j: int| 0 <= j < k ==> !own(es[j].id@);
                if k < i {
                    assert(!own(es[k].id@));
                } else if k > i {
                    assert(!own(es[i as int].id@));
                }
                assert(first_where(es, own) == Some(i as int));
                assert(chosen_entity(es, agent@, sender@) == Some(i as int));
            }
            let e = list.swap_remove(i);
            assert(e == es[i as int]);
            return Some(e);
        }
        if fallback.is_none() && !is_user_scoped(list[i].id.as_str(), agent) {
            fallback = Some(i);
        }
        i = i + 1;
    }
    proof {
        assert(!(exists|k: int| 0 <= k < es.len() && own(#[trigger] es[k].id@)));
        assert(first_where(es, own) is None);
    }
    match fallback {
        Some(f) => {
            proof {
                let k = choose|k: int| 0 <= k < es.len() && shared(#[trigger] es[k].id@)
                    && forall|j: int| 0 <= j < k ==> !shared(es[j].id@);
                if k < f {
                    assert(!shared(es[k].id@));
                } else if k > f {
                    assert(!shared(es[f as int].id@));
                }
                assert(first_where(es, shared) == Some(f as int));
            }
            let e = list.swap_remove(f);
            assert(e == es[f as int]);
            Some(e)
        },
        None => {
            proof {
                assert(!(exists|k: int| 0 <= k < es.len() && shared(#[trigger] es[k].id@)));
            }
            None
        },
    }
}


// ── Table filters ──────────────────────────────────────────────────────

/// A SQL string literal's contents for `s`.
pub open spec fn sql_text(s: Seq<char>) -> Seq<char> {
    escaped(s, |c: char| sql_rep(c))
}

/// The filter selecting an agent's rows, optionally of one entity type.
pub open spec fn entity_filter_text(agent: Seq<char>, entity_type: Option<Seq<char>>) -> Seq<char> {
    "agent = '"@ + sql_text(agent) + "'"@ + match entity_type {
        Some(et) => " AND entity_type = '"@ + sql_text(et) + "'"@,
        None => Seq::empty(),
    }
}

/// The filter selecting an agent's rows (entities of one type, when given).
pub fn entity_filter(agent: &str, entity_type: Option<&str>) -> (r: String)
    ensures
        r@ == entity_filter_text(agent@, match entity_type { Some(t) => Some(t@), None => None }),
{
    let mut f = owned("agent = '");
    let a = escape_sql(agent);
    push_str(&mut f, a.as_str());
    push_str(&mut f, "'");
    match entity_type {
        Some(et) => {
            let e = escape_sql(et);
            push_str(&mut f, " AND entity_type = '");
            push_str(&mut f, e.as_str());
            push_str(&mut f, "'");
            proof {
                assert(f@ =~= entity_filter_text(agent@, Some(et@)));
            }
        },
        None => {
            proof {
                assert(f@ =~= entity_filter_text(agent@, None));
            }
        },
    }
    f
}

/// The filter selecting an agent's entity with key `key`.
pub fn key_filter(agent: &str, key: &str) -> (r: String)
    ensures
        r@ == "agent = '"@ + sql_text(agent@) + "' AND key = '"@ + sql_text(key@) + "'"@,
{
    let mut f = owned("agent = '");
    let a = escape_sql(agent);
    let k = escape_sql(key);
    push_str(&mut f, a.as_str());
    push_str(&mut f, "' AND key = '");
    push_str(&mut f, k.as_str());
    push_str(&mut f, "'");
    f
}

/// The id of a journal written by `agent` at Unix time `now`.
pub fn journal_id(agent: &str, now: u64) -> (r: String)
    ensures
        r@ == agent@ + ":"@ + decimal(now as nat),
{
    let mut id = owned(agent);
    push_str(&mut id, ":");
    push_decimal(&mut id, now);
    id
}

} // verus!
