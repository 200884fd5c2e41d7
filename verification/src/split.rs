//! Splitting, trimming and line handling on character sequences.

use vstd::prelude::*;
use crate::text::{occurs_at, matches_at, from_chars_range};

verus! {

/// Unicode `White_Space` (what `char::is_whitespace` tests).
pub open spec fn is_ws(c: char) -> bool {
    let u = c as u32;
    (0x09 <= u && u <= 0x0D) || u == 0x20 || u == 0x85 || u == 0xA0 || u == 0x1680
        || (0x2000 <= u && u <= 0x200A) || u == 0x2028 || u == 0x2029 || u == 0x202F
        || u == 0x205F || u == 0x3000
}

/// Whether `c` is Unicode whitespace.
pub fn is_whitespace(c: char) -> (r: bool)
    ensures
        r == is_ws(c),
{
    let u = c as u32;
    (0x09 <= u && u <= 0x0D) || u == 0x20 || u == 0x85 || u == 0xA0 || u == 0x1680
        || (0x2000 <= u && u <= 0x200A) || u == 0x2028 || u == 0x2029 || u == 0x202F
        || u == 0x205F || u == 0x3000
}

/// `s` without leading whitespace.
pub open spec fn trim_start(s: Seq<char>) -> Seq<char>
    decreases s.len(),
{
    if s.len() > 0 && is_ws(s[0]) {
        trim_start(s.drop_first())
    } else {
        s
    }
}

/// `s` without trailing whitespace.
pub open spec fn trim_end(s: Seq<char>) -> Seq<char>
    decreases s.len(),
{
    if s.len() > 0 && is_ws(s.last()) {
        trim_end(s.drop_last())
    } else {
        s
    }
}

/// `s` without leading or trailing whitespace.
pub open spec fn trim(s: Seq<char>) -> Seq<char> {
    trim_end(trim_start(s))
}

/// Skipping leading whitespace from position `i` of `s`.
proof fn lemma_trim_start_from(s: Seq<char>, i: int)
    requires
        0 <= i <= s.len(),
        forall|j: int| 0 <= j < i ==> is_ws(s[j]),
    ensures
        trim_start(s) == trim_start(s.subrange(i, s.len() as int)),
    decreases i,
{
    if i > 0 {
        lemma_trim_start_from(s.drop_first(), i - 1);
        assert(s.drop_first().subrange(i - 1, s.drop_first().len() as int) =~= s.subrange(i, s.len() as int));
    } else {
        assert(s.subrange(0, s.len() as int) =~= s);
    }
}

/// Dropping trailing whitespace down to position `k` of `s`.
proof fn lemma_trim_end_to(s: Seq<char>, k: int)
    requires
        0 <= k <= s.len(),
        forall|j: int| k <= j < s.len() ==> is_ws(s[j]),
    ensures
        trim_end(s) == trim_end(s.subrange(0, k)),
    decreases s.len() - k,
{
    if k < s.len() {
        lemma_trim_end_to(s.drop_last(), k);
        assert(s.drop_last().subrange(0, k) =~= s.subrange(0, k));
    } else {
        assert(s.subrange(0, k) =~= s);
    }
}

/// The bounds `[lo, hi)` of `v[from..to]` with surrounding whitespace removed.
pub fn trim_bounds(v: &[char], from: usize, to: usize) -> (r: (usize, usize))
    requires
        from <= to <= v@.len(),
    ensures
        from <= r.0 <= r.1 <= to,
        v@.subrange(r.0 as int, r.1 as int) == trim(v@.subrange(from as int, to as int)),
{
    let ghost s = v@.subrange(from as int, to as int);
    let mut lo = from;
    while lo < to && is_whitespace(v[lo])
        invariant
            from <= lo <= to,
            to <= v@.len(),
            forall|j: int| from <= j < lo ==> is_ws(v@[j]),
        decreases to - lo,
    {
        lo = lo + 1;
    }
    proof {
        lemma_trim_start_from(s, lo - from);
        assert(s.subrange(lo - from, s.len() as int) =~= v@.subrange(lo as int, to as int));
        let t = v@.subrange(lo as int, to as int);
        if t.len() > 0 {
            assert(!is_ws(t[0]));
        }
    }
    let mut hi = to;
    while hi > lo && is_whitespace(v[hi - 1])
        invariant
            from <= lo <= hi <= to,
            to <= v@.len(),
            forall|j: int| hi <= j < to ==> is_ws(v@[j]),
        decreases hi - lo,
    {
        hi = hi - 1;
    }
    proof {
        let t = v@.subrange(lo as int, to as int);
        lemma_trim_end_to(t, hi - lo);
        assert(t.subrange(0, hi - lo) =~= v@.subrange(lo as int, hi as int));
        let u = v@.subrange(lo as int, hi as int);
        if u.len() > 0 {
            assert(!is_ws(u.last()));
        }
        assert(trim_start(s) == t);
    }
    (lo, hi)
}

/// The position in `v[from..to]` where its leading whitespace ends.
pub fn trim_start_index(v: &[char], from: usize, to: usize) -> (r: usize)
    requires
        from <= to <= v@.len(),
    ensures
        from <= r <= to,
        v@.subrange(r as int, to as int) == trim_start(v@.subrange(from as int, to as int)),
{
    let ghost s = v@.subrange(from as int, to as int);
    let mut lo = from;
    while lo < to && is_whitespace(v[lo])
        invariant
            from <= lo <= to,
            to <= v@.len(),
            forall|j: int| from <= j < lo ==> is_ws(v@[j]),
        decreases to - lo,
    {
        lo = lo + 1;
    }
    proof {
        lemma_trim_start_from(s, lo - from);
        assert(s.subrange(lo - from, s.len() as int) =~= v@.subrange(lo as int, to as int));
        let t = v@.subrange(lo as int, to as int);
        if t.len() > 0 {
            assert(!is_ws(t[0]));
        }
    }
    lo
}

/// The position in `v[from..to]` where its trailing whitespace starts.
pub fn trim_end_index(v: &[char], from: usize, to: usize) -> (r: usize)
    requires
        from <= to <= v@.len(),
    ensures
        from <= r <= to,
        v@.subrange(from as int, r as int) == trim_end(v@.subrange(from as int, to as int)),
{
    let mut hi = to;
    while hi > from && is_whitespace(v[hi - 1])
        invariant
            from <= hi <= to,
            to <= v@.len(),
            forall|j: int| hi <= j < to ==> is_ws(v@[j]),
        decreases hi - from,
    {
        hi = hi - 1;
    }
    proof {
        let t = v@.subrange(from as int, to as int);
        lemma_trim_end_to(t, hi - from);
        assert(t.subrange(0, hi - from) =~= v@.subrange(from as int, hi as int));
        let u = v@.subrange(from as int, hi as int);
        if u.len() > 0 {
            assert(!is_ws(u.last()));
        }
    }
    hi
}

/// The first position at or after `i` where `p` occurs in `s` (-1 if none).
pub open spec fn find_from(s: Seq<char>, p: Seq<char>, i: int) -> int
    decreases s.len() + 1 - i,
{
    if i < 0 || i > s.len() || i + p.len() > s.len() {
        -1
    } else if occurs_at(s, p, i) {
        i
    } else {
        find_from(s, p, i + 1)
    }
}

/// Where `find_from` can land.
pub proof fn lemma_find_from(s: Seq<char>, p: Seq<char>, i: int)
    requires
        0 <= i,
    ensures
        find_from(s, p, i) == -1 || (i <= find_from(s, p, i) && find_from(s, p, i) + p.len() <= s.len()
            && occurs_at(s, p, find_from(s, p, i))),
        find_from(s, p, i) == -1 ==> forall|j: int| i <= j ==> !occurs_at(s, p, j),
        find_from(s, p, i) >= 0 ==> forall|j: int| i <= j < find_from(s, p, i) ==> !occurs_at(s, p, j),
    decreases s.len() + 1 - i,
{
    if i > s.len() || i + p.len() > s.len() {
    } else if occurs_at(s, p, i) {
    } else {
        lemma_find_from(s, p, i + 1);
    }
}

/// The pieces of `s` between the occurrences of `p` (scanning left to right,
/// occurrences not overlapping), like `str::split` with a string pattern.
pub open spec fn split_on(s: Seq<char>, p: Seq<char>) -> Seq<Seq<char>>
    recommends
        p.len() > 0,
    decreases s.len(),
{
    let k = find_from(s, p, 0);
    if p.len() == 0 || k < 0 || k + p.len() > s.len() {
        seq![s]
    } else {
        seq![s.subrange(0, k)] + split_on(s.subrange(k + p.len(), s.len() as int), p)
    }
}

/// Split `v[from..]` on the non-empty pattern `p`, returning the bounds of each piece.
pub fn split_bounds(v: &[char], p: &[char], from: usize) -> (r: Vec<(usize, usize)>)
    requires
        p@.len() > 0,
        from <= v@.len(),
    ensures
        r@.len() == split_on(v@.subrange(from as int, v@.len() as int), p@).len(),
        r@.len() >= 1,
        r@[0].0 == from,
        r@[r@.len() - 1].1 == v@.len(),
        forall|k: int| 0 <= k < r@.len() - 1 ==> (#[trigger] r@[k]).1 + p@.len() == r@[k + 1].0,
        forall|k: int| 0 <= k < r@.len() - 1 ==> v@.subrange((#[trigger] r@[k]).1 as int, r@[k].1 + p@.len()) == p@,
        forall|k: int| 0 <= k < r@.len() ==> {
            &&& from <= (#[trigger] r@[k]).0 <= r@[k].1 <= v@.len()
            &&& v@.subrange(r@[k].0 as int, r@[k].1 as int)
                == split_on(v@.subrange(from as int, v@.len() as int), p@)[k]
        },
    decreases v@.len() - from,
{
    let ghost s = v@.subrange(from as int, v@.len() as int);
    let mut i = from;
    proof {
        lemma_find_from(s, p@, 0);
    }
    while p.len() <= v.len() - i && !matches_at(v, p, i)
        invariant
            from <= i <= v@.len(),
            p@.len() > 0,
            s == v@.subrange(from as int, v@.len() as int),
            find_from(s, p@, 0) == find_from(s, p@, i - from),
        decreases v@.len() - i,
    {
        proof {
            assert(s.subrange(i - from, i - from + p@.len()) =~= v@.subrange(i as int, i + p@.len()));
        }
        i = i + 1;
    }
    let ghost k = find_from(s, p@, 0);
    if p.len() <= v.len() - i {
        proof {
            assert(s.subrange(i - from, i - from + p@.len()) =~= v@.subrange(i as int, i + p@.len()));
            assert(k == i - from);
        }
        let rest = split_bounds(v, p, i + p.len());
        let mut out: Vec<(usize, usize)> = Vec::new();
        out.push((from, i));
        let mut j: usize = 0;
        while j < rest.len()
            invariant
                j <= rest@.len(),
                out@.len() == j + 1,
                out@[0] == (from, i),
                forall|m: int| 1 <= m < out@.len() ==> out@[m] == rest@[m - 1],
            decreases rest@.len() - j,
        {
            out.push(rest[j]);
            j = j + 1;
        }
        proof {
            let t = v@.subrange(i + p@.len(), v@.len() as int);
            assert(s.subrange(k + p@.len(), s.len() as int) =~= t);
            assert(s.subrange(0, k) =~= v@.subrange(from as int, i as int));
            let sp = split_on(s, p@);
            assert(sp == seq![s.subrange(0, k)] + split_on(t, p@));
            assert forall|m: int| 0 <= m < out@.len() implies {
                &&& from <= (#[trigger] out@[m]).0 <= out@[m].1 <= v@.len()
                &&& v@.subrange(out@[m].0 as int, out@[m].1 as int) == sp[m]
            } by {
                if m > 0 {
                    assert(out@[m] == rest@[m - 1]);
                    assert(sp[m] == split_on(t, p@)[m - 1]);
                }
            }
            assert(out@[out@.len() - 1] == rest@[rest@.len() - 1]);
            assert(v@.subrange(i as int, i + p@.len()) == p@);
            assert forall|m: int| 0 <= m < out@.len() - 1 implies v@.subrange((#[trigger] out@[m]).1 as int, out@[m].1 + p@.len()) == p@ by {
                if m > 0 {
                    assert(out@[m] == rest@[m - 1]);
                }
            }
            assert forall|m: int| 0 <= m < out@.len() - 1 implies (#[trigger] out@[m]).1 + p@.len() == out@[m + 1].0 by {
                if m > 0 {
                    assert(out@[m] == rest@[m - 1]);
                    assert(out@[m + 1] == rest@[m]);
                } else {
                    assert(out@[1] == rest@[0]);
                }
            }
        }
        out
    } else {
        proof {
            assert(k == -1) by {
                lemma_find_from(s, p@, i - from);
            }
            assert(split_on(s, p@) == seq![s]);
        }
        let mut out: Vec<(usize, usize)> = Vec::new();
        out.push((from, v.len()));
        out
    }
}

/// `s` without one trailing carriage return.
pub open spec fn strip_cr(s: Seq<char>) -> Seq<char> {
    if s.len() > 0 && s.last() == '\r' {
        s.drop_last()
    } else {
        s
    }
}

/// The lines of `s`, like `str::lines`: split at `\n`, one `\r` before each
/// `\n` removed, and no final empty line after a trailing `\n`.
pub open spec fn lines_of(s: Seq<char>) -> Seq<Seq<char>> {
    let pieces = split_on(s, seq!['\n']);
    let n = pieces.len() as int;
    let init = Seq::new((n - 1) as nat, |i: int| strip_cr(pieces[i]));
    if pieces[n - 1].len() == 0 {
        init
    } else {
        init.push(pieces[n - 1])
    }
}

/// `split_on` always yields at least one piece.
pub proof fn lemma_split_nonempty(s: Seq<char>, p: Seq<char>)
    ensures
        split_on(s, p).len() >= 1,
    decreases s.len(),
{
    let k = find_from(s, p, 0);
    if p.len() == 0 || k < 0 || k + p.len() > s.len() {
    } else {
        lemma_find_from(s, p, 0);
        lemma_split_nonempty(s.subrange(k + p.len(), s.len() as int), p);
    }
}

/// A `String` of the characters `v[lo..hi]`.
pub fn piece(v: &[char], r: (usize, usize)) -> (s: String)
    requires
        r.0 <= r.1 <= v@.len(),
    ensures
        s@ == v@.subrange(r.0 as int, r.1 as int),
{
    from_chars_range(v, r.0, r.1)
}

} // verus!
