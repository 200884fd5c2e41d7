//! Skill registry: tag- and trigger-indexed skill matching, and prompt
//! enrichment from matching skills.

use vstd::prelude::*;
use crate::memory::AgentConfig;
use crate::split::{is_whitespace, is_ws, piece, split_bounds, split_on, trim, trim_bounds};
use crate::text::{contains_chars, contains_seq, decimal, digit_char, owned, push_char, push_str, str_eq, to_chars, views};

verus! {

/// Priority tier for skill resolution. Later tiers override earlier ones:
/// workspace skills over managed ones, managed over bundled.
#[derive(Clone, Copy, Debug, PartialEq, Eq, Structural)]
pub enum SkillTier {
    /// Ships with the binary.
    Bundled,
    /// Installed via package manager.
    Managed,
    /// Defined in the project workspace.
    Workspace,
}

/// The rank of a tier (higher overrides lower).
pub open spec fn tier_rank(t: SkillTier) -> nat {
    match t {
        SkillTier::Bundled => 0,
        SkillTier::Managed => 1,
        SkillTier::Workspace => 2,
    }
}

impl SkillTier {
    /// The rank of this tier (higher overrides lower).
    pub fn rank(&self) -> (r: u8)
        ensures
            r == tier_rank(*self),
    {
        match self {
            SkillTier::Bundled => 0,
            SkillTier::Managed => 1,
            SkillTier::Workspace => 2,
        }
    }
}

/// A named unit of agent behavior.
#[derive(Clone, Debug)]
pub struct Skill {
    /// Skill identifier.
    pub name: String,
    /// Human-readable description.
    pub description: String,
    /// SPDX license identifier.
    pub license: Option<String>,
    /// Compatibility constraints.
    pub compatibility: Option<String>,
    /// Key-value metadata, keys unique.
    pub metadata: Vec<(String, String)>,
    /// Tool names this skill may use.
    pub allowed_tools: Vec<String>,
    /// Skill body (Markdown instructions).
    pub body: String,
}

/// The value of metadata key `key`, if any (the first entry with that key).
pub open spec fn meta_get(m: Seq<(String, String)>, key: Seq<char>) -> Option<Seq<char>>
    decreases m.len(),
{
    if m.len() == 0 {
        None
    } else if m[0].0@ == key {
        Some(m[0].1@)
    } else {
        meta_get(m.drop_first(), key)
    }
}

fn lookup<'a>(m: &'a Vec<(String, String)>, key: &str) -> (r: Option<&'a String>)
    ensures
        match r {
            Some(v) => meta_get(m@, key@) == Some(v@),
            None => meta_get(m@, key@) is None,
        },
{
    let mut i: usize = 0;
    proof {
        assert(m@.subrange(0, m@.len() as int) =~= m@);
    }
    while i < m.len()
        invariant
            i <= m@.len(),
            meta_get(m@, key@) == meta_get(m@.subrange(i as int, m@.len() as int), key@),
        decreases m@.len() - i,
    {
        let ghost rest = m@.subrange(i as int, m@.len() as int);
        proof {
            assert(rest.drop_first() =~= m@.subrange(i + 1, m@.len() as int));
            assert(rest[0] == m@[i as int]);
        }
        if str_eq(m[i].0.as_str(), key) {
            return Some(&m[i].1);
        }
        i = i + 1;
    }
    None
}

// ── Parsing numbers ────────────────────────────────────────────────────

/// Whether `c` is an ASCII digit.
pub open spec fn is_digit(c: char) -> bool {
    '0' <= c <= '9'
}

/// The value of a string of ASCII digits.
pub open spec fn digits_value(s: Seq<char>) -> nat
    decreases s.len(),
{
    if s.len() == 0 {
        0
    } else {
        digits_value(s.drop_last()) * 10 + ((s.last() as u32) - 48) as nat
    }
}

/// `s` without one leading `+` sign.
pub open spec fn unsigned_part(s: Seq<char>) -> Seq<char> {
    if s.len() > 0 && s[0] == '+' {
        s.drop_first()
    } else {
        s
    }
}

/// Whether every character of `d` is an ASCII digit.
pub open spec fn all_digits(d: Seq<char>) -> bool {
    forall|i: int| 0 <= i < d.len() ==> is_digit(#[trigger] d[i])
}

/// What `str::parse::<u8>` gives: an optional `+` sign followed by one or
/// more ASCII digits whose value fits in a `u8`.
pub open spec fn parse_u8_spec(s: Seq<char>) -> Option<u8> {
    let d = unsigned_part(s);
    if d.len() > 0 && all_digits(d) && digits_value(d) <= 255 {
        Some(digits_value(d) as u8)
    } else {
        None
    }
}

/// Parse a `u8` as `str::parse` does.
pub fn parse_u8(s: &str) -> (r: Option<u8>)
    ensures
        r == parse_u8_spec(s@),
{
    let v = to_chars(s);
    let start: usize = if v.len() > 0 && v[0] == '+' { 1 } else { 0 };
    let ghost d = unsigned_part(v@);
    proof {
        assert(d =~= v@.subrange(start as int, v@.len() as int));
    }
    if start >= v.len() {
        return None;
    }
    let mut acc: u32 = 0;
    let mut i = start;
    while i < v.len()
        invariant
            start <= i <= v@.len(),
            v@ == s@,
            d == unsigned_part(s@),
            d == v@.subrange(start as int, v@.len() as int),
            forall|k: int| start <= k < i ==> is_digit(#[trigger] v@[k]),
            acc == digits_value(v@.subrange(start as int, i as int)),
            acc <= 255,
        decreases v@.len() - i,
    {
        let c = v[i];
        if !('0' <= c && c <= '9') {
            proof {
                assert(d[i - start] == c);
                assert(!is_digit(d[i - start]));
            }
            return None;
        }
        proof {
            assert(v@.subrange(start as int, i + 1).drop_last() =~= v@.subrange(start as int, i as int));
        }
        let next = acc * 10 + (c as u32 - 48);
        if next > 255 {
            proof {
                assert(d.subrange(0, i + 1 - start) =~= v@.subrange(start as int, i + 1));
                if all_digits(d) {
                    lemma_digits_grow(d, i + 1 - start, v@.subrange(start as int, i + 1));
                }
            }
            return None;
        }
        acc = next;
        i = i + 1;
    }
    proof {
        assert(v@.subrange(start as int, i as int) =~= d);
        assert forall|k: int| 0 <= k < d.len() implies is_digit(#[trigger] d[k]) by {
            assert(d[k] == v@[start + k]);
        }
        assert(all_digits(d));
    }
    Some(acc as u8)
}

/// A number's decimal text is all digits, and its value is the number.
proof fn lemma_decimal_digits(n: nat)
    ensures
        all_digits(decimal(n)),
        digits_value(decimal(n)) == n,
        decimal(n).len() > 0,
    decreases n,
{
    if n >= 10 {
        lemma_decimal_digits(n / 10);
        let d = decimal(n / 10);
        let e = d.push(digit_char(n % 10));
        assert(e.drop_last() =~= d);
        assert forall|i: int| 0 <= i < e.len() implies is_digit(#[trigger] e[i]) by {
            if i < d.len() {
                assert(e[i] == d[i]);
            }
        }
        let k = n % 10;
        assert(digit_char(k) as u32 == k + 48);
        assert(e.last() == digit_char(k));
        assert(digits_value(e) == digits_value(d) * 10 + ((e.last() as u32) - 48) as nat);
        assert(n == (n / 10) * 10 + k);
        assert(decimal(n) == e);
        assert(digits_value(e) == n);
    } else {
        let e = seq![digit_char(n)];
        assert(e.drop_last() =~= Seq::<char>::empty());
        assert(digit_char(n) as u32 == n + 48);
        assert(decimal(n) == e);
        assert(digits_value(e) == digits_value(e.drop_last()) * 10 + ((e.last() as u32) - 48) as nat);
        assert(digits_value(e) == n);
    }
}

/// A priority written in decimal reads back as itself.
pub proof fn law_priority_roundtrip(n: u8)
    ensures
        parse_u8_spec(decimal(n as nat)) == Some(n),
{
    lemma_decimal_digits(n as nat);
    let d = decimal(n as nat);
    if n >= 10 {
        lemma_decimal_digits(n as nat / 10);
        assert(d[0] == decimal(n as nat / 10)[0]);
    }
    assert(is_digit(d[0]));
    assert(unsigned_part(d) == d);
}

/// A digit string's value is at least that of any of its prefixes.
proof fn lemma_digits_grow(d: Seq<char>, n: int, p: Seq<char>)
    requires
        0 < n <= d.len(),
        p == d.subrange(0, n),
        all_digits(d),
    ensures
        digits_value(d) >= digits_value(p),
    decreases d.len(),
{
    if n == d.len() {
        assert(p =~= d);
    } else {
        assert(d.drop_last().subrange(0, n) =~= p);
        assert forall|k: int| 0 <= k < d.drop_last().len() implies is_digit(#[trigger] d.drop_last()[k]) by {
            assert(d.drop_last()[k] == d[k]);
        }
        lemma_digits_grow(d.drop_last(), n, p);
        assert(is_digit(d[d.len() - 1]));
    }
}


// ── Metadata-derived index data ────────────────────────────────────────

/// Names what `str::to_lowercase` returns: the Unicode lowercase mapping
/// of the text.
pub uninterp spec fn lowercase(s: Seq<char>) -> Seq<char>;

/// Calls `str::to_lowercase`. The contract claims only that the result
/// is determined by the input (it is `lowercase` of it); the Unicode
/// mapping itself is not stated.
#[verifier::external_body]
fn to_lowercase(s: &str) -> (r: String)
    ensures
        r@ == lowercase(s@),
{
    s.to_lowercase()
}

/// The comma-separated pieces of a metadata value, each trimmed (and, for
/// `lower`, lowercased), with the empty ones left out, in order.
pub open spec fn kept_pieces(ps: Seq<Seq<char>>, lower: bool) -> Seq<Seq<char>>
    decreases ps.len(),
{
    if ps.len() == 0 {
        Seq::empty()
    } else {
        let prev = kept_pieces(ps.drop_last(), lower);
        let t0 = trim(ps.last());
        let t = if lower { lowercase(t0) } else { t0 };
        if t.len() > 0 {
            prev.push(t)
        } else {
            prev
        }
    }
}

/// The items of a comma-separated metadata value.
pub open spec fn comma_items(v: Seq<char>, lower: bool) -> Seq<Seq<char>> {
    kept_pieces(split_on(v, seq![',']), lower)
}

/// The tags of a skill: its `tags` metadata, comma-separated and trimmed.
pub open spec fn tags_of(meta: Seq<(String, String)>) -> Seq<Seq<char>> {
    match meta_get(meta, "tags"@) {
        Some(v) => comma_items(v, false),
        None => Seq::empty(),
    }
}

/// The trigger keywords of a skill: its `triggers` metadata,
/// comma-separated, trimmed and lowercased.
pub open spec fn triggers_of(meta: Seq<(String, String)>) -> Seq<Seq<char>> {
    match meta_get(meta, "triggers"@) {
        Some(v) => comma_items(v, true),
        None => Seq::empty(),
    }
}

/// The priority of a skill: its `priority` metadata read as a `u8`, or 0
/// when absent or unreadable.
pub open spec fn priority_of(meta: Seq<(String, String)>) -> u8 {
    match meta_get(meta, "priority"@) {
        Some(v) => match parse_u8_spec(v) {
            Some(p) => p,
            None => 0,
        },
        None => 0,
    }
}

/// The items of the comma-separated value `value` (see [`comma_items`]).
fn comma_list(value: &str, lower: bool) -> (r: Vec<String>)
    ensures
        views(r@) == comma_items(value@, lower),
{
    let v = to_chars(value);
    let comma: Vec<char> = vec![','];
    proof {
        assert(comma@ =~= seq![',']);
        assert(v@.subrange(0, v@.len() as int) =~= v@);
    }
    let bounds = split_bounds(v.as_slice(), comma.as_slice(), 0);
    let ghost ps = split_on(v@, seq![',']);
    let mut out: Vec<String> = Vec::new();
    let mut k: usize = 0;
    proof {
        assert(ps.take(0) =~= Seq::<Seq<char>>::empty());
    }
    while k < bounds.len()
        invariant
            k <= bounds@.len(),
            v@ == value@,
            ps == split_on(v@, seq![',']),
            bounds@.len() == ps.len(),
            forall|j: int| 0 <= j < bounds@.len() ==> {
                &&& 0 <= (#[trigger] bounds@[j]).0 <= bounds@[j].1 <= v@.len()
                &&& v@.subrange(bounds@[j].0 as int, bounds@[j].1 as int) == ps[j]
            },
            views(out@) == kept_pieces(ps.take(k as int), lower),
        decreases bounds@.len() - k,
    {
        let b = bounds[k];
        let (lo, hi) = trim_bounds(v.as_slice(), b.0, b.1);
        let t0 = piece(v.as_slice(), (lo, hi));
        let t = if lower { to_lowercase(t0.as_str()) } else { t0 };
        proof {
            assert(ps.take(k + 1).drop_last() =~= ps.take(k as int));
            assert(ps.take(k + 1).last() == ps[k as int]);
        }
        if !t.as_str().is_empty() {
            proof {
                assert(views(out@.push(t)) =~= views(out@).push(t@));
            }
            out.push(t);
        }
        k = k + 1;
    }
    proof {
        assert(ps.take(k as int) =~= ps);
    }
    out
}

/// A skill with what the registry reads from its metadata.
struct IndexedSkill {
    skill: Skill,
    tier: SkillTier,
    priority: u8,
    tags: Vec<String>,
    triggers: Vec<String>,
}

/// The index data of `e` agree with its skill's metadata.
spec fn indexed_ok(e: IndexedSkill) -> bool {
    &&& e.priority == priority_of(e.skill.metadata@)
    &&& views(e.tags@) == tags_of(e.skill.metadata@)
    &&& views(e.triggers@) == triggers_of(e.skill.metadata@)
}

// ── Ranking ────────────────────────────────────────────────────────────

/// The sort key of a registry entry: tier first, then priority.
pub open spec fn score(e: (Skill, SkillTier)) -> int {
    tier_rank(e.1) * 256 + priority_of(e.0.metadata@)
}

/// Entry `i` comes before entry `j` in a result: higher tier, then higher
/// priority, then the one added first.
pub open spec fn ranks_before(es: Seq<(Skill, SkillTier)>, i: int, j: int) -> bool {
    score(es[i]) > score(es[j]) || (score(es[i]) == score(es[j]) && i < j)
}

/// `r` lists exactly the entries that `sel` picks, each once, in rank order.
pub open spec fn is_ranking(es: Seq<(Skill, SkillTier)>, sel: spec_fn(int) -> bool, r: Seq<usize>) -> bool {
    &&& forall|k: int| 0 <= k < r.len() ==> (#[trigger] r[k]) < es.len() && sel(r[k] as int)
    &&& forall|i: int| 0 <= i < es.len() && #[trigger] sel(i) ==> r.contains(i as usize)
    &&& forall|a: int, b: int| 0 <= a < b < r.len() ==> ranks_before(es, #[trigger] r[a] as int, #[trigger] r[b] as int)
}

/// The ranked list of the entries that `sel` picks.
pub open spec fn ranking(es: Seq<(Skill, SkillTier)>, sel: spec_fn(int) -> bool) -> Seq<usize> {
    choose|r: Seq<usize>| is_ranking(es, sel, r)
}

/// Whether a skill carries one of the tags `q`.
pub open spec fn tag_match(skill: Skill, q: Seq<Seq<char>>) -> bool {
    exists|a: int, b: int|
        0 <= a < tags_of(skill.metadata@).len() && 0 <= b < q.len()
            && #[trigger] tags_of(skill.metadata@)[a] == #[trigger] q[b]
}

/// Whether one of a skill's trigger keywords occurs in `query_lower`.
pub open spec fn trigger_match(skill: Skill, query_lower: Seq<char>) -> bool {
    exists|a: int|
        0 <= a < triggers_of(skill.metadata@).len()
            && contains_seq(query_lower, #[trigger] triggers_of(skill.metadata@)[a])
}

/// The entries carrying one of the tags `q`.
pub open spec fn tag_selection(es: Seq<(Skill, SkillTier)>, q: Seq<Seq<char>>) -> spec_fn(int) -> bool {
    |i: int| tag_match(es[i].0, q)
}

/// The entries with a trigger keyword in the lowercased query.
pub open spec fn trigger_selection(es: Seq<(Skill, SkillTier)>, query: Seq<char>) -> spec_fn(int) -> bool {
    |i: int| trigger_match(es[i].0, lowercase(query))
}

/// Two rankings of the same selection are the same list.
pub proof fn law_ranking_unique(es: Seq<(Skill, SkillTier)>, sel: spec_fn(int) -> bool, r1: Seq<usize>, r2: Seq<usize>)
    requires
        is_ranking(es, sel, r1),
        is_ranking(es, sel, r2),
    ensures
        r1 == r2,
{
    lemma_sorted_unique(es, r1, r2);
}

proof fn lemma_sorted_unique(es: Seq<(Skill, SkillTier)>, r1: Seq<usize>, r2: Seq<usize>)
    requires
        forall|a: int, b: int| 0 <= a < b < r1.len() ==> ranks_before(es, #[trigger] r1[a] as int, #[trigger] r1[b] as int),
        forall|a: int, b: int| 0 <= a < b < r2.len() ==> ranks_before(es, #[trigger] r2[a] as int, #[trigger] r2[b] as int),
        forall|x: usize| r1.contains(x) <==> r2.contains(x),
    ensures
        r1 =~= r2,
    decreases r1.len(),
{
    if r1.len() == 0 {
        if r2.len() > 0 {
            assert(r2.contains(r2[0]));
        }
    } else {
        assert(r1.contains(r1[0]));
        assert(r2.len() > 0);
        assert(r2.contains(r2[0]));
        let p = choose|p: int| 0 <= p < r1.len() && r1[p] == r2[0];
        let q = choose|q: int| 0 <= q < r2.len() && r2[q] == r1[0];
        if p > 0 && q > 0 {
            assert(ranks_before(es, r1[0] as int, r1[p] as int));
            assert(ranks_before(es, r2[0] as int, r2[q] as int));
            assert(false);
        }
        if p > 0 && q == 0 {
            assert(ranks_before(es, r1[0] as int, r1[p] as int));
            assert(false);
        }
        if p == 0 && q > 0 {
            assert(ranks_before(es, r2[0] as int, r2[q] as int));
            assert(false);
        }
        assert(r1[0] == r2[0]);
        let t1 = r1.drop_first();
        let t2 = r2.drop_first();
        assert forall|x: usize| t1.contains(x) <==> t2.contains(x) by {
            if t1.contains(x) {
                let i = choose|i: int| 0 <= i < t1.len() && t1[i] == x;
                assert(r1[i + 1] == x);
                assert(ranks_before(es, r1[0] as int, r1[i + 1] as int));
                assert(r2.contains(x));
                let j = choose|j: int| 0 <= j < r2.len() && r2[j] == x;
                assert(j != 0);
                assert(t2[j - 1] == x);
            }
            if t2.contains(x) {
                let i = choose|i: int| 0 <= i < t2.len() && t2[i] == x;
                assert(r2[i + 1] == x);
                assert(ranks_before(es, r2[0] as int, r2[i + 1] as int));
                assert(r1.contains(x));
                let j = choose|j: int| 0 <= j < r1.len() && r1[j] == x;
                assert(j != 0);
                assert(t1[j - 1] == x);
            }
        }
        assert forall|a: int, b: int| 0 <= a < b < t1.len() implies ranks_before(es, #[trigger] t1[a] as int, #[trigger] t1[b] as int) by {
            assert(t1[a] == r1[a + 1] && t1[b] == r1[b + 1]);
        }
        assert forall|a: int, b: int| 0 <= a < b < t2.len() implies ranks_before(es, #[trigger] t2[a] as int, #[trigger] t2[b] as int) by {
            assert(t2[a] == r2[a + 1] && t2[b] == r2[b + 1]);
        }
        lemma_sorted_unique(es, t1, t2);
        assert(r1 =~= seq![r1[0]] + t1);
        assert(r2 =~= seq![r2[0]] + t2);
    }
}


/// Inserting entry `i` (added after every entry of `old_r`) at the first
/// position whose entry it outranks keeps a ranking of the first `i + 1`
/// entries.
proof fn lemma_insert_ranked(
    es: Seq<(Skill, SkillTier)>,
    sel: spec_fn(int) -> bool,
    old_r: Seq<usize>,
    r: Seq<usize>,
    p: int,
    i: int,
)
    requires
        0 <= p <= old_r.len(),
        0 <= i <= usize::MAX,
        sel(i),
        r == old_r.insert(p, i as usize),
        forall|k: int| 0 <= k < old_r.len() ==> (#[trigger] old_r[k]) < i && sel(old_r[k] as int),
        forall|j: int| 0 <= j < i && #[trigger] sel(j) ==> old_r.contains(j as usize),
        forall|a: int, b: int| 0 <= a < b < old_r.len() ==> ranks_before(es, #[trigger] old_r[a] as int, #[trigger] old_r[b] as int),
        forall|q: int| 0 <= q < p ==> score(es[#[trigger] old_r[q] as int]) >= score(es[i]),
        p < old_r.len() ==> score(es[i]) > score(es[old_r[p] as int]),
    ensures
        forall|k: int| 0 <= k < r.len() ==> (#[trigger] r[k]) < i + 1 && sel(r[k] as int),
        forall|j: int| 0 <= j < i + 1 && #[trigger] sel(j) ==> r.contains(j as usize),
        forall|a: int, b: int| 0 <= a < b < r.len() ==> ranks_before(es, #[trigger] r[a] as int, #[trigger] r[b] as int),
{
    assert forall|k: int| 0 <= k < r.len() implies (#[trigger] r[k]) < i + 1 && sel(r[k] as int) by {
        if k < p {
            assert(r[k] == old_r[k]);
        } else if k > p {
            assert(r[k] == old_r[k - 1]);
        }
    }
    assert forall|j: int| 0 <= j < i + 1 && #[trigger] sel(j) implies r.contains(j as usize) by {
        if j == i {
            assert(r[p] == i);
        } else {
            assert(old_r.contains(j as usize));
            let m = choose|m: int| 0 <= m < old_r.len() && old_r[m] == j as usize;
            if m < p {
                assert(r[m] == j as usize);
            } else {
                assert(r[m + 1] == j as usize);
            }
        }
    }
    assert forall|a: int, b: int| 0 <= a < b < r.len() implies ranks_before(es, #[trigger] r[a] as int, #[trigger] r[b] as int) by {
        if b < p {
            assert(r[a] == old_r[a] && r[b] == old_r[b]);
        } else if b == p {
            assert(r[a] == old_r[a]);
            assert(score(es[old_r[a] as int]) >= score(es[i]));
        } else if a < p {
            assert(r[a] == old_r[a] && r[b] == old_r[b - 1]);
        } else if a == p {
            assert(r[b] == old_r[b - 1]);
            if b - 1 > p {
                assert(ranks_before(es, old_r[p] as int, old_r[b - 1] as int));
            }
        } else {
            assert(r[a] == old_r[a - 1] && r[b] == old_r[b - 1]);
        }
    }
}

// ── The registry ───────────────────────────────────────────────────────

/// A registry of loaded skills, searchable by tag and by trigger keyword.
pub struct SkillRegistry {
    skills: Vec<IndexedSkill>,
}

impl View for SkillRegistry {
    type V = Seq<(Skill, SkillTier)>;

    /// The skills in the order they were added, each with its tier.
    closed spec fn view(&self) -> Seq<(Skill, SkillTier)> {
        self.skills@.map_values(|e: IndexedSkill| (e.skill, e.tier))
    }
}

/// A skill's sort key (see [`score`]).
fn score_of(e: &IndexedSkill) -> (r: u32)
    requires
        indexed_ok(*e),
    ensures
        r == score((e.skill, e.tier)),
{
    e.tier.rank() as u32 * 256 + e.priority as u32
}

/// Whether `e` carries one of `tags`.
fn carries_tag(e: &IndexedSkill, tags: &[String]) -> (r: bool)
    requires
        indexed_ok(*e),
    ensures
        r == tag_match(e.skill, views(tags@)),
{
    let ghost mine = tags_of(e.skill.metadata@);
    let ghost q = views(tags@);
    let mut a: usize = 0;
    while a < e.tags.len()
        invariant
            a <= e.tags@.len(),
            mine == views(e.tags@),
            mine == tags_of(e.skill.metadata@),
            q == views(tags@),
            forall|x: int, y: int| 0 <= x < a && 0 <= y < q.len() ==> mine[x] != q[y],
        decreases e.tags@.len() - a,
    {
        let mut b: usize = 0;
        while b < tags.len()
            invariant
                a < e.tags@.len(),
                b <= tags@.len(),
                mine == views(e.tags@),
                mine == tags_of(e.skill.metadata@),
                q == views(tags@),
                forall|x: int, y: int| 0 <= x < a && 0 <= y < q.len() ==> mine[x] != q[y],
                forall|y: int| 0 <= y < b ==> mine[a as int] != q[y],
            decreases tags@.len() - b,
        {
            if str_eq(e.tags[a].as_str(), tags[b].as_str()) {
                proof {
                    assert(mine[a as int] == q[b as int]);
                }
                return true;
            }
            b = b + 1;
        }
        a = a + 1;
    }
    false
}

/// Whether one of `e`'s trigger keywords occurs in `query_lower`.
fn has_trigger_in(e: &IndexedSkill, query_lower: &[char]) -> (r: bool)
    requires
        indexed_ok(*e),
    ensures
        r == trigger_match(e.skill, query_lower@),
{
    let ghost mine = triggers_of(e.skill.metadata@);
    let mut a: usize = 0;
    while a < e.triggers.len()
        invariant
            a <= e.triggers@.len(),
            mine == views(e.triggers@),
            mine == triggers_of(e.skill.metadata@),
            forall|x: int| 0 <= x < a ==> !contains_seq(query_lower@, #[trigger] mine[x]),
        decreases e.triggers@.len() - a,
    {
        let t = to_chars(e.triggers[a].as_str());
        if contains_chars(query_lower, t.as_slice()) {
            proof {
                assert(mine[a as int] == t@);
            }
            return true;
        }
        a = a + 1;
    }
    false
}

impl SkillRegistry {
    /// The registry's index data agree with the skills' metadata.
    pub closed spec fn wf(&self) -> bool {
        forall|i: int| 0 <= i < self.skills@.len() ==> indexed_ok(#[trigger] self.skills@[i])
    }

    /// Create an empty registry.
    pub fn new() -> (r: Self)
        ensures
            r.wf(),
            r@ == Seq::<(Skill, SkillTier)>::empty(),
    {
        let r = SkillRegistry { skills: Vec::new() };
        proof {
            assert(r@ =~= Seq::<(Skill, SkillTier)>::empty());
        }
        r
    }

    /// Add a skill with the given tier. Its priority, tags and trigger
    /// keywords are read from its metadata (see [`priority_of`],
    /// [`tags_of`], [`triggers_of`]).
    pub fn add(&mut self, skill: Skill, tier: SkillTier)
        requires
            old(self).wf(),
        ensures
            final(self).wf(),
            final(self)@ == old(self)@.push((skill, tier)),
    {
        let priority: u8 = match lookup(&skill.metadata, "priority") {
            Some(v) => match parse_u8(v.as_str()) {
                Some(p) => p,
                None => 0,
            },
            None => 0,
        };
        let tags = match lookup(&skill.metadata, "tags") {
            Some(v) => comma_list(v.as_str(), false),
            None => {
                let none: Vec<String> = Vec::new();
                proof {
                    assert(views(none@) =~= Seq::<Seq<char>>::empty());
                }
                none
            },
        };
        let triggers = match lookup(&skill.metadata, "triggers") {
            Some(v) => comma_list(v.as_str(), true),
            None => {
                let none: Vec<String> = Vec::new();
                proof {
                    assert(views(none@) =~= Seq::<Seq<char>>::empty());
                }
                none
            },
        };
        let e = IndexedSkill { skill, tier, priority, tags, triggers };
        let ghost before = self.skills@;
        self.skills.push(e);
        proof {
            assert(self.skills@ == before.push(e));
            assert forall|i: int| 0 <= i < self.skills@.len() implies indexed_ok(#[trigger] self.skills@[i]) by {
                if i < before.len() {
                    assert(self.skills@[i] == before[i]);
                }
            }
            assert(self@ =~= old(self)@.push((e.skill, e.tier)));
        }
    }

    /// The ranked list of the entries picked by `matched` (entry `i` is
    /// picked when `matched[i]` holds).
    fn rank(&self, matched: &Vec<bool>, Ghost(sel): Ghost<spec_fn(int) -> bool>) -> (r: Vec<usize>)
        requires
            self.wf(),
            matched@.len() == self@.len(),
            forall|i: int| 0 <= i < matched@.len() ==> matched@[i] == sel(i),
        ensures
            is_ranking(self@, sel, r@),
    {
        let ghost es = self@;
        let n = self.skills.len();
        let mut r: Vec<usize> = Vec::new();
        let mut i: usize = 0;
        while i < n
            invariant
                n == self.skills@.len(),
                es == self@,
                es.len() == n,
                self.wf(),
                i <= n,
                matched@.len() == n,
                forall|j: int| 0 <= j < matched@.len() ==> matched@[j] == sel(j),
                forall|k: int| 0 <= k < r@.len() ==> (#[trigger] r@[k]) < i && sel(r@[k] as int),
                forall|j: int| 0 <= j < i && #[trigger] sel(j) ==> r@.contains(j as usize),
                forall|a: int, b: int| 0 <= a < b < r@.len() ==> ranks_before(es, #[trigger] r@[a] as int, #[trigger] r@[b] as int),
            decreases n - i,
        {
            if matched[i] {
                proof {
                    assert(indexed_ok(self.skills@[i as int]));
                    assert(es[i as int] == (self.skills@[i as int].skill, self.skills@[i as int].tier));
                }
                let si = score_of(&self.skills[i]);
                let mut p: usize = 0;
                while p < r.len() && si <= score_of(&self.skills[r[p]])
                    invariant
                        p <= r@.len(),
                        n == self.skills@.len(),
                        es == self@,
                        self.wf(),
                        forall|k: int| 0 <= k < r@.len() ==> (#[trigger] r@[k]) < i,
                        i < n,
                        si == score(es[i as int]),
                        forall|q: int| 0 <= q < p ==> score(es[#[trigger] r@[q] as int]) >= si,
                    decreases r@.len() - p,
                {
                    proof {
                        let k = r@[p as int] as int;
                        assert(indexed_ok(self.skills@[k]));
                        assert(es[k] == (self.skills@[k].skill, self.skills@[k].tier));
                    }
                    p = p + 1;
                }
                proof {
                    if p < r@.len() {
                        let k = r@[p as int] as int;
                        assert(indexed_ok(self.skills@[k]));
                        assert(es[k] == (self.skills@[k].skill, self.skills@[k].tier));
                    }
                }
                let ghost old_r = r@;
                r.insert(p, i);
                proof {
                    lemma_insert_ranked(es, sel, old_r, r@, p as int, i as int);
                }
            } else {
                proof {
                    assert(!sel(i as int));
                }
            }
            i = i + 1;
        }
        r
    }

    /// The entries picked by `sel`, ranked, as the one list [`ranking`] names.
    fn ranked(&self, matched: &Vec<bool>, Ghost(sel): Ghost<spec_fn(int) -> bool>) -> (r: Vec<&Skill>)
        requires
            self.wf(),
            matched@.len() == self@.len(),
            forall|i: int| 0 <= i < matched@.len() ==> matched@[i] == sel(i),
        ensures
            r@.len() == ranking(self@, sel).len(),
            forall|k: int| 0 <= k < r@.len() ==> *r@[k] == self@[ranking(self@, sel)[k] as int].0,
    {
        let idx = self.rank(matched, Ghost(sel));
        proof {
            law_ranking_unique(self@, sel, idx@, ranking(self@, sel));
        }
        let mut out: Vec<&Skill> = Vec::new();
        let mut k: usize = 0;
        while k < idx.len()
            invariant
                k <= idx@.len(),
                is_ranking(self@, sel, idx@),
                idx@ == ranking(self@, sel),
                out@.len() == k,
                forall|m: int| 0 <= m < k ==> *out@[m] == self@[idx@[m] as int].0,
            decreases idx@.len() - k,
        {
            let j = idx[k];
            proof {
                assert(j < self@.len());
                assert(self@[j as int] == (self.skills@[j as int].skill, self.skills@[j as int].tier));
            }
            out.push(&self.skills[j].skill);
            k = k + 1;
        }
        out
    }

    /// Skills carrying any of `tags`, highest tier first, then highest
    /// priority, then in the order they were added; each skill once.
    pub fn find_by_tags(&self, tags: &[String]) -> (r: Vec<&Skill>)
        requires
            self.wf(),
        ensures
            r@.len() == ranking(self@, tag_selection(self@, views(tags@))).len(),
            forall|k: int| 0 <= k < r@.len()
                ==> *r@[k] == self@[ranking(self@, tag_selection(self@, views(tags@)))[k] as int].0,
    {
        let ghost sel = tag_selection(self@, views(tags@));
        let mut matched: Vec<bool> = Vec::new();
        let mut i: usize = 0;
        while i < self.skills.len()
            invariant
                i <= self.skills@.len(),
                self.wf(),
                sel == tag_selection(self@, views(tags@)),
                matched@.len() == i,
                forall|j: int| 0 <= j < i ==> matched@[j] == sel(j),
            decreases self.skills@.len() - i,
        {
            proof {
                assert(indexed_ok(self.skills@[i as int]));
                assert(self@[i as int].0 == self.skills@[i as int].skill);
            }
            let hit = carries_tag(&self.skills[i], tags);
            matched.push(hit);
            i = i + 1;
        }
        self.ranked(&matched, Ghost(sel))
    }

    /// Skills with a trigger keyword occurring in `query` (compared in
    /// lowercase), ranked as [`SkillRegistry::find_by_tags`] ranks.
    pub fn find_by_trigger(&self, query: &str) -> (r: Vec<&Skill>)
        requires
            self.wf(),
        ensures
            r@.len() == ranking(self@, trigger_selection(self@, query@)).len(),
            forall|k: int| 0 <= k < r@.len()
                ==> *r@[k] == self@[ranking(self@, trigger_selection(self@, query@))[k] as int].0,
    {
        let ghost sel = trigger_selection(self@, query@);
        let lowered = to_lowercase(query);
        let ql = to_chars(lowered.as_str());
        let mut matched: Vec<bool> = Vec::new();
        let mut i: usize = 0;
        while i < self.skills.len()
            invariant
                i <= self.skills@.len(),
                self.wf(),
                ql@ == lowercase(query@),
                sel == trigger_selection(self@, query@),
                matched@.len() == i,
                forall|j: int| 0 <= j < i ==> matched@[j] == sel(j),
            decreases self.skills@.len() - i,
        {
            proof {
                assert(indexed_ok(self.skills@[i as int]));
                assert(self@[i as int].0 == self.skills@[i as int].skill);
            }
            let hit = has_trigger_in(&self.skills[i], ql.as_slice());
            matched.push(hit);
            i = i + 1;
        }
        self.ranked(&matched, Ghost(sel))
    }

    /// All loaded skills, in the order they were added.
    pub fn skills(&self) -> (r: Vec<&Skill>)
        ensures
            r@.len() == self@.len(),
            forall|k: int| 0 <= k < r@.len() ==> *r@[k] == self@[k].0,
    {
        let mut out: Vec<&Skill> = Vec::new();
        let mut k: usize = 0;
        while k < self.skills.len()
            invariant
                k <= self.skills@.len(),
                out@.len() == k,
                forall|m: int| 0 <= m < k ==> *out@[m] == self@[m].0,
            decreases self.skills@.len() - k,
        {
            proof {
                assert(self@[k as int] == (self.skills@[k as int].skill, self.skills@[k as int].tier));
            }
            out.push(&self.skills[k].skill);
            k = k + 1;
        }
        out
    }

    /// Number of loaded skills.
    pub fn len(&self) -> (r: usize)
        ensures
            r == self@.len(),
    {
        self.skills.len()
    }

    /// Whether the registry is empty.
    pub fn is_empty(&self) -> (r: bool)
        ensures
            r == (self@.len() == 0),
    {
        self.skills.len() == 0
    }
}

impl Default for SkillRegistry {
    fn default() -> (r: Self)
        ensures
            r.wf(),
            r@ == Seq::<(Skill, SkillTier)>::empty(),
    {
        Self::new()
    }
}


// ── Prompt enrichment ──────────────────────────────────────────────────

/// What the skills listed in `picked` add to a system prompt: each
/// non-empty body, after a blank line, in order.
pub open spec fn skill_appendix(picked: Seq<Skill>) -> Seq<char>
    decreases picked.len(),
{
    if picked.len() == 0 {
        Seq::empty()
    } else {
        let prev = skill_appendix(picked.drop_last());
        let b = picked.last().body@;
        if b.len() > 0 {
            prev + "\n\n"@ + b
        } else {
            prev
        }
    }
}

/// The skills an agent with tags `q` picks up from `es`, in rank order.
pub open spec fn picked_skills(es: Seq<(Skill, SkillTier)>, q: Seq<Seq<char>>) -> Seq<Skill> {
    ranking(es, tag_selection(es, q)).map_values(|i: usize| es[i as int].0)
}

impl SkillRegistry {
    /// Enrich an agent's system prompt with the bodies of the skills its
    /// tags select (see [`SkillRegistry::find_by_tags`]).
    pub fn on_build_agent(&self, config: AgentConfig) -> (r: AgentConfig)
        requires
            self.wf(),
        ensures
            r.name == config.name,
            r.description == config.description,
            r.skill_tags == config.skill_tags,
            r.system_prompt@ == config.system_prompt@
                + skill_appendix(picked_skills(self@, views(config.skill_tags@))),
    {
        let ghost orig = config;
        let mut config = config;
        let found = self.find_by_tags(config.skill_tags.as_slice());
        let ghost picked = picked_skills(self@, views(config.skill_tags@));
        let ghost base = config.system_prompt@;
        proof {
            assert(found@.len() == picked.len());
            assert(picked.take(0) =~= Seq::<Skill>::empty());
        }
        let mut k: usize = 0;
        while k < found.len()
            invariant
                k <= found@.len(),
                found@.len() == picked.len(),
                forall|m: int| 0 <= m < found@.len() ==> *found@[m] == picked[m],
                config.system_prompt@ == base + skill_appendix(picked.take(k as int)),
                config.name == orig.name,
                config.description == orig.description,
                config.skill_tags == orig.skill_tags,
            decreases found@.len() - k,
        {
            let skill = found[k];
            proof {
                assert(picked.take(k + 1).drop_last() =~= picked.take(k as int));
                assert(picked.take(k + 1).last() == *skill);
            }
            if !skill.body.as_str().is_empty() {
                let ghost before = config.system_prompt@;
                push_str(&mut config.system_prompt, "\n\n");
                push_str(&mut config.system_prompt, skill.body.as_str());
                proof {
                    assert(config.system_prompt@ =~= before + "\n\n"@ + skill.body@);
                }
            }
            k = k + 1;
        }
        proof {
            assert(picked.take(k as int) =~= picked);
        }
        config
    }
}


// ── Building a skill from its frontmatter ──────────────────────────────

/// The whitespace-separated words of `s` (what `str::split_whitespace`
/// yields), read left to right: whitespace ends a word, and a
/// non-whitespace character after whitespace starts one.
pub open spec fn words(s: Seq<char>) -> Seq<Seq<char>>
    decreases s.len(),
{
    if s.len() == 0 {
        Seq::empty()
    } else {
        let prev = words(s.drop_last());
        let c = s.last();
        if is_ws(c) {
            prev
        } else if s.len() >= 2 && !is_ws(s[s.len() - 2]) && prev.len() > 0 {
            prev.drop_last().push(prev.last().push(c))
        } else {
            prev.push(seq![c])
        }
    }
}

/// The whitespace-separated words of `s` (see [`words`]).
pub fn split_words(s: &str) -> (r: Vec<String>)
    ensures
        views(r@) == words(s@),
{
    let v = to_chars(s);
    let mut out: Vec<String> = Vec::new();
    let mut cur = String::new();
    let mut in_word = false;
    let mut i: usize = 0;
    proof {
        assert(v@.take(0) =~= Seq::<char>::empty());
        assert(views(out@) =~= Seq::<Seq<char>>::empty());
    }
    while i < v.len()
        invariant
            i <= v@.len(),
            v@ == s@,
            in_word == (i > 0 && !is_ws(v@[i - 1])),
            in_word ==> views(out@).push(cur@) == words(v@.take(i as int)),
            !in_word ==> views(out@) == words(v@.take(i as int)),
        decreases v@.len() - i,
    {
        let c = v[i];
        let ghost pre = v@.take(i as int);
        proof {
            assert(v@.take(i + 1).drop_last() =~= pre);
            assert(v@.take(i + 1).last() == c);
        }
        if is_whitespace(c) {
            if in_word {
                let w = cur;
                cur = String::new();
                proof {
                    assert(views(out@.push(w)) =~= views(out@).push(w@));
                }
                out.push(w);
            }
            in_word = false;
        } else {
            if in_word {
                let ghost before = cur@;
                proof {
                    let ws = words(pre);
                    assert(i >= 1 && !is_ws(v@[i - 1]));
                    assert(v@.take(i + 1)[i - 1] == v@[i - 1]);
                    assert(ws == views(out@).push(before));
                    assert(ws.len() > 0);
                    assert(ws.drop_last() =~= views(out@));
                }
                push_char(&mut cur, c);
                proof {
                    assert(views(out@).push(cur@) =~= words(pre).drop_last().push(words(pre).last().push(c)));
                }
            } else {
                let ghost ws = words(pre);
                proof {
                    if i >= 1 {
                        assert(v@.take(i + 1)[i - 1] == v@[i - 1]);
                    }
                }
                cur = String::new();
                push_char(&mut cur, c);
                proof {
                    assert(cur@ =~= seq![c]);
                }
            }
            in_word = true;
        }
        i = i + 1;
    }
    proof {
        assert(v@.take(i as int) =~= v@);
    }
    if in_word {
        proof {
            assert(views(out@.push(cur)) =~= views(out@).push(cur@));
        }
        out.push(cur);
    }
    out
}

/// Build a skill from the fields of its frontmatter and its body; the
/// `allowed-tools` field lists tool names separated by whitespace.
pub fn skill_from_frontmatter(
    name: String,
    description: String,
    license: Option<String>,
    compatibility: Option<String>,
    metadata: Vec<(String, String)>,
    allowed_tools: Option<String>,
    body: &str,
) -> (r: Skill)
    ensures
        r.name == name,
        r.description == description,
        r.license == license,
        r.compatibility == compatibility,
        r.metadata == metadata,
        views(r.allowed_tools@) == match allowed_tools {
            Some(t) => words(t@),
            None => Seq::empty(),
        },
        r.body@ == body@,
{
    let tools = match &allowed_tools {
        Some(t) => split_words(t.as_str()),
        None => {
            let none: Vec<String> = Vec::new();
            proof {
                assert(views(none@) =~= Seq::<Seq<char>>::empty());
            }
            none
        },
    };
    Skill {
        name,
        description,
        license,
        compatibility,
        metadata,
        allowed_tools: tools,
        body: owned(body),
    }
}

} // verus!
