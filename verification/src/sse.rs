//! Server-sent-event framing for streamed completions.
//!
//! These functions find event payloads in raw stream text; decoding a
//! payload's JSON is the caller's.

use vstd::prelude::*;
use crate::split::{lemma_split_nonempty, piece, split_bounds, split_on, strip_cr, trim, trim_bounds, lines_of};
use crate::text::{has_prefix, matches_at, starts_with_chars, to_chars};

verus! {

/// The payload of an SSE `data: ` line (trimmed), if `line` is one.
pub open spec fn data_of(line: Seq<char>) -> Option<Seq<char>> {
    if has_prefix(line, "data: "@) {
        Some(trim(line.subrange(6, line.len() as int)))
    } else {
        None
    }
}

/// The payload of the last `data: ` line among `lines`.
pub open spec fn last_data(lines: Seq<Seq<char>>) -> Option<Seq<char>>
    decreases lines.len(),
{
    if lines.len() == 0 {
        None
    } else {
        match data_of(lines.last()) {
            Some(d) => Some(d),
            None => last_data(lines.drop_last()),
        }
    }
}

/// The data an SSE block carries: the payload of its last `data: ` line,
/// unless there is none or it is the `[DONE]` sentinel.
pub open spec fn block_data(block: Seq<char>) -> Option<Seq<char>> {
    match last_data(lines_of(block)) {
        Some(d) => if d == "[DONE]"@ { None } else { Some(d) },
        None => None,
    }
}

/// The data an SSE block carries (see [`block_data`]).
pub fn sse_data(block: &str) -> (r: Option<String>)
    ensures
        match r {
            Some(d) => block_data(block@) == Some(d@),
            None => block_data(block@) is None,
        },
{
    proof {
        reveal_strlit("data: ");
        reveal_strlit("[DONE]");
    }
    let v = to_chars(block);
    let nl: Vec<char> = vec!['\n'];
    let prefix: Vec<char> = vec!['d', 'a', 't', 'a', ':', ' '];
    assert(prefix@ =~= "data: "@);
    assert(nl@ =~= seq!['\n']);
    let pieces = split_bounds(v.as_slice(), nl.as_slice(), 0);
    let ghost s = v@;
    let ghost ps = split_on(s, seq!['\n']);
    let ghost ls = lines_of(s);
    proof {
        assert(v@.subrange(0, v@.len() as int) =~= s);
        lemma_split_nonempty(s, seq!['\n']);
    }
    let n = pieces.len();
    let mut cur: Option<(usize, usize)> = None;
    let mut k: usize = 0;
    while k < n
        invariant
            n == pieces@.len(),
            n == ps.len(),
            n >= 1,
            s == v@,
            ps == split_on(s, seq!['\n']),
            ls == lines_of(s),
            prefix@ == "data: "@,
            k <= n,
            forall|m: int| 0 <= m < n ==> {
                &&& (#[trigger] pieces@[m]).0 <= pieces@[m].1 <= v@.len()
                &&& v@.subrange(pieces@[m].0 as int, pieces@[m].1 as int) == ps[m]
            },
            match cur {
                Some(b) => b.0 <= b.1 <= v@.len()
                    && last_data(ls.take(if k < n { k as int } else { ls.len() as int })) == Some(v@.subrange(b.0 as int, b.1 as int)),
                None => last_data(ls.take(if k < n { k as int } else { ls.len() as int })) is None,
            },
        decreases n - k,
    {
        proof {
            reveal_strlit("data: ");
        }
        let (lo, hi0) = pieces[k];
        let last = k + 1 == n;
        let hi = if !last && hi0 > lo && v[hi0 - 1] == '\r' { hi0 - 1 } else { hi0 };
        let ghost line = v@.subrange(lo as int, hi as int);
        proof {
            let p = ps[k as int];
            if !last {
                assert(line =~= strip_cr(p));
                assert(ls[k as int] == line);
                assert(ls.take(k + 1).drop_last() =~= ls.take(k as int));
            } else if hi > lo {
                assert(ls.len() == n);
                assert(ls[k as int] == line);
                assert(ls.take(ls.len() as int).drop_last() =~= ls.take(k as int));
            } else {
                assert(ls.len() == n - 1);
                assert(ls.take(ls.len() as int) =~= ls.take(k as int));
            }
        }
        if !(last && hi == lo) && hi - lo >= 6 && matches_at(v.as_slice(), prefix.as_slice(), lo) {
            let (a, b) = trim_bounds(v.as_slice(), lo + 6, hi);
            proof {
                assert(line.subrange(0, 6) =~= v@.subrange(lo as int, lo + 6));
                assert(line.subrange(6, line.len() as int) =~= v@.subrange(lo + 6, hi as int));
            }
            cur = Some((a, b));
        } else {
            proof {
                if !(last && hi == lo) {
                    if hi - lo >= 6 {
                        assert(line.subrange(0, 6) =~= v@.subrange(lo as int, lo + 6));
                    }
                    assert(data_of(line) is None);
                }
            }
        }
        k = k + 1;
    }
    proof {
        assert(ls.take(ls.len() as int) =~= ls);
        assert(s == block@);
    }
    match cur {
        Some(b) => {
            assert(last_data(lines_of(block@)) == Some(v@.subrange(b.0 as int, b.1 as int)));
            let d = piece(v.as_slice(), b);
            let done: Vec<char> = vec!['[', 'D', 'O', 'N', 'E', ']'];
            assert(done@ =~= "[DONE]"@);
            let dv = to_chars(d.as_str());
            if dv.len() == 6 && starts_with_chars(dv.as_slice(), done.as_slice()) {
                assert(dv@ =~= done@.subrange(0, 6));
                assert(done@.subrange(0, 6) =~= done@);
                assert(d@ == "[DONE]"@);
                None
            } else {
                proof {
                    if dv@ == "[DONE]"@ {
                        assert(dv@.len() == 6);
                        assert(dv@.subrange(0, 6) =~= dv@);
                        assert(false);
                    }
                }
                assert(d@ == v@.subrange(b.0 as int, b.1 as int));
                assert(d@ != "[DONE]"@);
                Some(d)
            }
        },
        None => None,
    }
}

/// Complete blocks of `buf` (each ended by a blank line) and the unfinished rest.
pub open spec fn blocks_of(buf: Seq<char>) -> (Seq<Seq<char>>, Seq<char>) {
    let ps = split_on(buf, "\n\n"@);
    (ps.drop_last(), ps.last())
}

/// Split a stream buffer into its complete blocks and the unfinished rest.
pub fn split_sse_blocks(buf: &str) -> (r: (Vec<String>, String))
    ensures
        r.0@.map_values(|b: String| b@) == blocks_of(buf@).0,
        r.1@ == blocks_of(buf@).1,
{
    proof {
        reveal_strlit("\n\n");
    }
    let v = to_chars(buf);
    let sep: Vec<char> = vec!['\n', '\n'];
    assert(sep@ =~= "\n\n"@);
    let pieces = split_bounds(v.as_slice(), sep.as_slice(), 0);
    let ghost ps = split_on(v@, "\n\n"@);
    proof {
        assert(v@.subrange(0, v@.len() as int) =~= v@);
        lemma_split_nonempty(v@, "\n\n"@);
    }
    let n = pieces.len();
    let mut blocks: Vec<String> = Vec::new();
    let mut k: usize = 0;
    while k + 1 < n
        invariant
            n == pieces@.len(),
            n == ps.len(),
            n >= 1,
            k + 1 <= n,
            forall|m: int| 0 <= m < n ==> {
                &&& (#[trigger] pieces@[m]).0 <= pieces@[m].1 <= v@.len()
                &&& v@.subrange(pieces@[m].0 as int, pieces@[m].1 as int) == ps[m]
            },
            blocks@.map_values(|b: String| b@) == ps.take(k as int),
        decreases n - k,
    {
        let b = piece(v.as_slice(), pieces[k]);
        let ghost before = blocks@.map_values(|b: String| b@);
        let ghost bv = b@;
        blocks.push(b);
        proof {
            assert(bv == ps[k as int]);
            assert(blocks@.map_values(|b: String| b@) =~= before.push(bv));
            assert(ps.take(k + 1) =~= ps.take(k as int).push(ps[k as int]));
        }
        k = k + 1;
    }
    let rest = piece(v.as_slice(), pieces[n - 1]);
    proof {
        assert(ps.take(k as int) =~= ps.drop_last());
    }
    (blocks, rest)
}

/// Whether `s` is empty or all whitespace.
pub fn is_blank(s: &str) -> (r: bool)
    ensures
        r == (trim(s@).len() == 0),
{
    let v = to_chars(s);
    let (a, b) = trim_bounds(v.as_slice(), 0, v.len());
    proof {
        assert(v@.subrange(0, v@.len() as int) =~= v@);
    }
    a == b
}

/// The payloads in an OpenAI-style stream text: the pieces after each
/// `data: `, trimmed, except `[DONE]` sentinels and empty pieces.
pub open spec fn payloads_of(pieces: Seq<Seq<char>>) -> Seq<Seq<char>>
    decreases pieces.len(),
{
    if pieces.len() == 0 {
        Seq::empty()
    } else {
        let prev = payloads_of(pieces.drop_last());
        let p = pieces.last();
        if has_prefix(p, "[DONE]"@) || trim(p).len() == 0 {
            prev
        } else {
            prev.push(trim(p))
        }
    }
}

/// The payloads of OpenAI-style stream text (see [`payloads_of`]).
pub fn sse_payloads(text: &str) -> (r: Vec<String>)
    ensures
        r@.map_values(|b: String| b@) == payloads_of(split_on(text@, "data: "@).drop_first()),
{
    proof {
        reveal_strlit("data: ");
        reveal_strlit("[DONE]");
    }
    let v = to_chars(text);
    let pat: Vec<char> = vec!['d', 'a', 't', 'a', ':', ' '];
    let done: Vec<char> = vec!['[', 'D', 'O', 'N', 'E', ']'];
    assert(pat@ =~= "data: "@);
    assert(done@ =~= "[DONE]"@);
    let pieces = split_bounds(v.as_slice(), pat.as_slice(), 0);
    let ghost ps = split_on(v@, "data: "@).drop_first();
    proof {
        assert(v@.subrange(0, v@.len() as int) =~= v@);
        lemma_split_nonempty(v@, "data: "@);
    }
    let n = pieces.len();
    let mut out: Vec<String> = Vec::new();
    let mut k: usize = 1;
    while k < n
        invariant
            n == pieces@.len(),
            n == ps.len() + 1,
            1 <= k <= n,
            done@ == "[DONE]"@,
            ps == split_on(v@, "data: "@).drop_first(),
            split_on(v@, "data: "@).len() == n,
            forall|m: int| 0 <= m < n ==> {
                &&& (#[trigger] pieces@[m]).0 <= pieces@[m].1 <= v@.len()
                &&& v@.subrange(pieces@[m].0 as int, pieces@[m].1 as int) == split_on(v@, "data: "@)[m]
            },
            out@.map_values(|b: String| b@) == payloads_of(ps.take(k - 1)),
        decreases n - k,
    {
        proof {
            reveal_strlit("data: ");
            reveal_strlit("[DONE]");
        }
        let (lo, hi) = pieces[k];
        let ghost p = v@.subrange(lo as int, hi as int);
        proof {
            assert(pieces@[k as int] == (lo, hi));
            assert(split_on(v@, "data: "@).drop_first()[k - 1] == split_on(v@, "data: "@)[k as int]);
            assert(p == ps[k - 1]);
            assert(ps.take(k as int).drop_last() =~= ps.take(k - 1));
            assert(ps.take(k as int).last() == p);
        }
        let sub = piece(v.as_slice(), (lo, hi));
        let sv = to_chars(sub.as_str());
        let is_done = starts_with_chars(sv.as_slice(), done.as_slice());
        let (a, b) = trim_bounds(v.as_slice(), lo, hi);
        if !is_done && a < b {
            let ghost before = out@.map_values(|b: String| b@);
            out.push(piece(v.as_slice(), (a, b)));
            proof {
                assert(out@.map_values(|b: String| b@) =~= before.push(trim(p)));
            }
        }
        k = k + 1;
    }
    proof {
        assert(ps.take(n - 1) =~= ps);
    }
    out
}

} // verus!
