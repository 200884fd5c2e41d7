//! Key scheme of the file-backed memory store.
//!
//! A key splits on `.`: the first segment names the TOML file, the rest
//! form a nested key path inside it. For example `user.goal.coding` is
//! `{base}/user.toml`, table `goal`, key `coding`.

use vstd::prelude::*;
use crate::split::{find_from, lemma_find_from, lemma_split_nonempty, piece, split_bounds, split_on};
use crate::text::{occurs_at, owned, push_str, to_chars, views};

verus! {

/// `segs` joined with `.` between them.
pub open spec fn join_dots(segs: Seq<Seq<char>>) -> Seq<char>
    decreases segs.len(),
{
    if segs.len() == 0 {
        Seq::empty()
    } else if segs.len() == 1 {
        segs[0]
    } else {
        segs[0] + seq!['.'] + join_dots(segs.drop_first())
    }
}

/// The namespace and key path of a memory key: the text before the first
/// `.` and the `.`-separated segments after it, all non-empty.
pub open spec fn key_parts(key: Seq<char>) -> Option<(Seq<char>, Seq<Seq<char>>)> {
    let k = find_from(key, seq!['.'], 0);
    if k < 0 {
        None
    } else {
        let ns = key.take(k);
        let segs = split_on(key.skip(k + 1), seq!['.']);
        if ns.len() == 0 || exists|i: int| 0 <= i < segs.len() && (#[trigger] segs[i]).len() == 0 {
            None
        } else {
            Some((ns, segs))
        }
    }
}

/// `s` holds no `.`.
pub open spec fn dot_free(s: Seq<char>) -> bool {
    forall|i: int| 0 <= i < s.len() ==> s[i] != '.'
}

/// The first `.` of `a + "." + b`, when `a` holds none, is the one after `a`.
proof fn lemma_first_dot(a: Seq<char>, b: Seq<char>)
    requires
        dot_free(a),
    ensures
        find_from(a + seq!['.'] + b, seq!['.'], 0) == a.len(),
{
    let s = a + seq!['.'] + b;
    lemma_find_from(s, seq!['.'], 0);
    assert(s.subrange(a.len() as int, a.len() + 1 as int) =~= seq!['.']);
    assert(occurs_at(s, seq!['.'], a.len() as int));
    let f = find_from(s, seq!['.'], 0);
    if 0 <= f < a.len() {
        assert(s.subrange(f, f + 1)[0] == s[f]);
        assert(s[f] == a[f]);
    }
}

/// A text without `.` is a single piece.
proof fn lemma_split_dot_free(s: Seq<char>)
    requires
        dot_free(s),
    ensures
        split_on(s, seq!['.']) == seq![s],
{
    lemma_find_from(s, seq!['.'], 0);
    let f = find_from(s, seq!['.'], 0);
    if f >= 0 {
        assert(s.subrange(f, f + 1)[0] == s[f]);
    }
}

/// Splitting `.`-joined dot-free segments gives the segments back.
pub proof fn lemma_split_join(segs: Seq<Seq<char>>)
    requires
        segs.len() >= 1,
        forall|i: int| 0 <= i < segs.len() ==> dot_free(#[trigger] segs[i]),
    ensures
        split_on(join_dots(segs), seq!['.']) == segs,
    decreases segs.len(),
{
    if segs.len() == 1 {
        lemma_split_dot_free(segs[0]);
        assert(seq![segs[0]] =~= segs);
    } else {
        let rest = segs.drop_first();
        assert forall|i: int| 0 <= i < rest.len() implies dot_free(#[trigger] rest[i]) by {
            assert(rest[i] == segs[i + 1]);
        }
        lemma_split_join(rest);
        let s = join_dots(segs);
        assert(dot_free(segs[0]));
        lemma_first_dot(segs[0], join_dots(rest));
        let k = segs[0].len() as int;
        assert(s.subrange(0, k) =~= segs[0]);
        assert(s.subrange(k + 1, s.len() as int) =~= join_dots(rest));
        assert(split_on(s, seq!['.']) == seq![s.subrange(0, k)] + split_on(s.subrange(k + 1, s.len() as int), seq!['.']));
        assert(seq![segs[0]] + rest =~= segs);
    }
}

/// Joining the `.`-separated pieces of `s` gives `s` back.
pub proof fn lemma_join_split(s: Seq<char>)
    ensures
        join_dots(split_on(s, seq!['.'])) == s,
    decreases s.len(),
{
    lemma_split_nonempty(s, seq!['.']);
    let k = find_from(s, seq!['.'], 0);
    lemma_find_from(s, seq!['.'], 0);
    if k < 0 {
    } else {
        let rest = s.subrange(k + 1, s.len() as int);
        lemma_join_split(rest);
        lemma_split_nonempty(rest, seq!['.']);
        let sp = split_on(s, seq!['.']);
        assert(sp == seq![s.subrange(0, k)] + split_on(rest, seq!['.']));
        assert(sp.drop_first() =~= split_on(rest, seq!['.']));
        assert(s.subrange(k, k + 1)[0] == s[k]);
        assert(s =~= s.subrange(0, k) + seq!['.'] + rest);
    }
}

/// A file-backed memory store rooted at a base directory.
pub struct FsMemory {
    base: String,
}

/// Whether `name` is a single plain path component: non-empty, not `.` or
/// `..`, and without `/`, `\` or `:`.
pub open spec fn plain_name(name: Seq<char>) -> bool {
    &&& name.len() > 0
    &&& name != seq!['.']
    &&& name != seq!['.', '.']
    &&& forall|i: int| 0 <= i < name.len() ==> name[i] != '/' && name[i] != '\\' && name[i] != ':'
}

/// Whether `base` starts with a Windows verbatim prefix (`\\?\`).
pub open spec fn verbatim(base: Seq<char>) -> bool {
    base.len() >= 4 && base[0] == '\\' && base[1] == '\\' && base[2] == '?' && base[3] == '\\'
}

/// What joining the plain name `name` onto `base` gives: the name alone
/// after an empty base; base and name after a base ending in `/`; after a
/// base ending in anything but `/`, `\` or `:`, base, one separator (`/`,
/// or `\` on Windows) and the name; in every case base, at most one
/// separator, then the name.
pub open spec fn joined_path(base: Seq<char>, name: Seq<char>, r: Seq<char>) -> bool {
    &&& base.len() == 0 ==> r == name
    &&& base.len() > 0 && base.last() == '/' ==> r == base + name
    &&& base.len() > 0 && base.last() != '/' && base.last() != '\\' && base.last() != ':'
        ==> (r == base + seq!['/'] + name || r == base + seq!['\\'] + name)
    &&& (r == base + name || r == base + seq!['/'] + name || r == base + seq!['\\'] + name)
}

/// Calls `std::path::Path::join` on text paths.
///
/// Trusted: std documents that joining a relative path pushes it onto the
/// base, after a separator (`/` on Unix, `\` on Windows, where `/` also
/// counts as one) unless the base is empty, already ends with a separator,
/// or is a bare drive such as `C:`. The contract claims this for a plain
/// single-component name on a base without a Windows verbatim prefix (where
/// std normalizes the result instead). For other names or bases it claims
/// nothing.
#[verifier::external_body]
fn join_path(base: &str, name: &str) -> (r: String)
    ensures
        plain_name(name@) && !verbatim(base@) ==> joined_path(base@, name@, r@),
{
    std::path::Path::new(base).join(name).to_string_lossy().into_owned()
}

impl FsMemory {
    /// The base directory.
    pub closed spec fn base_path(&self) -> Seq<char> {
        self.base@
    }

    /// A store rooted at `base` (the directory is not touched).
    pub fn at(base: String) -> (r: Self)
        ensures
            r.base_path() == base@,
    {
        FsMemory { base }
    }

    /// The base directory.
    pub fn base(&self) -> (r: &str)
        ensures
            r@ == self.base_path(),
    {
        self.base.as_str()
    }

    /// Path to `{base}/{ns}.toml` (see [`joined_path`]).
    pub fn file_path(&self, ns: &str) -> (r: String)
        ensures
            plain_name(ns@ + ".toml"@) && !verbatim(self.base_path())
                ==> joined_path(self.base_path(), ns@ + ".toml"@, r@),
    {
        let mut name = owned(ns);
        push_str(&mut name, ".toml");
        join_path(self.base.as_str(), name.as_str())
    }

    /// Split `key` into its namespace and key path (see [`key_parts`]);
    /// `None` when it has fewer than two segments or an empty one.
    pub fn split_key(key: &str) -> (r: Option<(String, Vec<String>)>)
        ensures
            match r {
                Some((ns, segs)) => key_parts(key@) == Some((ns@, views(segs@))),
                None => key_parts(key@) is None,
            },
            r is Some ==> key@ == r->Some_0.0@ + seq!['.'] + join_dots(views(r->Some_0.1@)),
    {
        let v = to_chars(key);
        let mut k: usize = 0;
        while k < v.len() && v[k] != '.'
            invariant
                k <= v@.len(),
                forall|j: int| 0 <= j < k ==> v@[j] != '.',
            decreases v@.len() - k,
        {
            k = k + 1;
        }
        proof {
            lemma_find_from(v@, seq!['.'], 0);
            assert forall|j: int| 0 <= j < k implies !occurs_at(v@, seq!['.'], j) by {
                if occurs_at(v@, seq!['.'], j) {
                    assert(v@.subrange(j, j + 1)[0] == v@[j]);
                }
            }
            if k < v@.len() {
                assert(v@.subrange(k as int, k + 1) =~= seq!['.']);
                assert(occurs_at(v@, seq!['.'], k as int));
            }
        }
        if k == v.len() {
            return None;
        }
        let dot: Vec<char> = vec!['.'];
        proof {
            assert(dot@ =~= seq!['.']);
        }
        let bounds = split_bounds(v.as_slice(), dot.as_slice(), k + 1);
        let ghost ps = split_on(v@.subrange(k + 1, v@.len() as int), seq!['.']);
        let mut segs: Vec<String> = Vec::new();
        let mut all_nonempty = true;
        let mut i: usize = 0;
        while i < bounds.len()
            invariant
                i <= bounds@.len(),
                bounds@.len() == ps.len(),
                forall|j: int| 0 <= j < bounds@.len() ==> {
                    &&& (#[trigger] bounds@[j]).0 <= bounds@[j].1 <= v@.len()
                    &&& v@.subrange(bounds@[j].0 as int, bounds@[j].1 as int) == ps[j]
                },
                views(segs@) == ps.take(i as int),
                all_nonempty == (forall|j: int| 0 <= j < i ==> (#[trigger] ps[j]).len() > 0),
            decreases bounds@.len() - i,
        {
            let b = bounds[i];
            let s = piece(v.as_slice(), b);
            if b.1 == b.0 {
                all_nonempty = false;
            }
            proof {
                assert(views(segs@.push(s)) =~= views(segs@).push(s@));
                assert(ps.take(i + 1) =~= ps.take(i as int).push(ps[i as int]));
            }
            segs.push(s);
            i = i + 1;
        }
        proof {
            assert(ps.take(i as int) =~= ps);
            assert(v@.subrange(k + 1, v@.len() as int) =~= v@.skip(k + 1));
        }
        if k == 0 || !all_nonempty {
            proof {
                if k > 0 {
                    let j = choose|j: int| 0 <= j < i && !((#[trigger] ps[j]).len() > 0);
                    assert(ps[j].len() == 0);
                }
            }
            return None;
        }
        let ns = piece(v.as_slice(), (0, k));
        proof {
            assert(ns@ =~= v@.take(k as int));
            assert forall|j: int| 0 <= j < ps.len() implies (#[trigger] ps[j]).len() != 0 by {
                assert(ps[j].len() > 0);
            }
            lemma_join_split(v@.skip(k + 1));
            assert(v@ =~= v@.take(k as int) + seq!['.'] + v@.skip(k + 1));
        }
        Some((ns, segs))
    }
}

/// A key built from a dot-free namespace and dot-free segments splits back
/// into them.
pub proof fn law_split_key_roundtrip(ns: Seq<char>, segs: Seq<Seq<char>>)
    requires
        ns.len() > 0,
        dot_free(ns),
        segs.len() >= 1,
        forall|i: int| 0 <= i < segs.len() ==> (#[trigger] segs[i]).len() > 0 && dot_free(segs[i]),
    ensures
        key_parts(ns + seq!['.'] + join_dots(segs)) == Some((ns, segs)),
{
    let key = ns + seq!['.'] + join_dots(segs);
    lemma_first_dot(ns, join_dots(segs));
    let k = ns.len() as int;
    assert(key.take(k) =~= ns);
    assert(key.skip(k + 1) =~= join_dots(segs));
    lemma_split_join(segs);
}

/// A memory embedder that produces no embeddings.
///
/// Used with memory backends whose embeddings are optional, when no
/// embedding model is configured.
pub struct NoEmbedder;

} // verus!
