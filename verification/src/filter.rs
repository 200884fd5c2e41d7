//! Suppression of raw tool-call tags in streamed local-model output.
//!
//! Local models emit tool calls as tagged text while streaming; the
//! structured calls only arrive with the final response. The filter holds
//! back text that may be the start of a tag and drops everything once a tag
//! appears, so that only the final structured calls are reported.

use vstd::prelude::*;
use vstd::utf8::{encode_scalar, encode_utf8};
use crate::bytes::byte_len;
use crate::chunk::{text_chunk, one_choice_chunk, empty_delta, DeltaView, StreamChunk, StreamChunkView};
use crate::text::{contains_chars, contains_seq, occurs_at, ends_with_chars, has_prefix, has_suffix, push_str, to_chars};

verus! {

/// The tags with which local models start a tool call in text.
pub open spec fn tool_call_prefixes() -> Seq<Seq<char>> {
    seq![
        seq!['<', 't', 'o', 'o', 'l', '_', 'c', 'a', 'l', 'l', '>'],
        seq![
            '<', '\u{FF5C}', 't', 'o', 'o', 'l', '\u{2581}', 'c', 'a', 'l', 'l', '\u{2581}', 'b', 'e', 'g', 'i',
            'n', '\u{FF5C}', '>',
        ],
        seq!['[', 'T', 'O', 'O', 'L', '_', 'C', 'A', 'L', 'L', 'S', ']'],
        seq!['<', '|', 'p', 'y', 't', 'h', 'o', 'n', '_', 't', 'a', 'g', '|', '>'],
    ]
}

fn prefixes() -> (r: Vec<Vec<char>>)
    ensures
        r@.len() == tool_call_prefixes().len(),
        forall|i: int| 0 <= i < r@.len() ==> (#[trigger] r@[i])@ == tool_call_prefixes()[i],
{
    let a = vec!['<', 't', 'o', 'o', 'l', '_', 'c', 'a', 'l', 'l', '>'];
    let b = vec![
        '<', '\u{FF5C}', 't', 'o', 'o', 'l', '\u{2581}', 'c', 'a', 'l', 'l', '\u{2581}', 'b', 'e', 'g', 'i', 'n',
        '\u{FF5C}', '>',
    ];
    let c = vec!['[', 'T', 'O', 'O', 'L', '_', 'C', 'A', 'L', 'L', 'S', ']'];
    let d = vec!['<', '|', 'p', 'y', 't', 'h', 'o', 'n', '_', 't', 'a', 'g', '|', '>'];
    let r = vec![a, b, c, d];
    assert(r@[0]@ =~= tool_call_prefixes()[0]);
    assert(r@[1]@ =~= tool_call_prefixes()[1]);
    assert(r@[2]@ =~= tool_call_prefixes()[2]);
    assert(r@[3]@ =~= tool_call_prefixes()[3]);
    r
}

/// Whether `text` ends with a proper, non-empty prefix of `pattern`.
pub open spec fn partial_prefix(text: Seq<char>, pattern: Seq<char>) -> bool {
    exists|k: int| 1 <= k < pattern.len() && has_suffix(text, pattern.subrange(0, k))
}

/// Check if `text` ends with a proper, non-empty prefix of `pattern`, e.g.
/// `"Hello <tool"` against `"<tool_call>"`.
pub fn is_partial_prefix(text: &str, pattern: &str) -> (r: bool)
    ensures
        r == partial_prefix(text@, pattern@),
{
    let t = to_chars(text);
    let p = to_chars(pattern);
    partial_prefix_chars(t.as_slice(), p.as_slice())
}

fn partial_prefix_chars(t: &[char], p: &[char]) -> (r: bool)
    ensures
        r == partial_prefix(t@, p@),
{
    let mut k: usize = 1;
    while k < p.len()
        invariant
            1 <= k,
            forall|j: int| 1 <= j < k && j < p@.len() ==> !has_suffix(t@, p@.subrange(0, j)),
        decreases p@.len() - k,
    {
        let head = &p[0..k];
        if ends_with_chars(t, head) {
            assert(head@ =~= p@.subrange(0, k as int));
            return true;
        }
        assert(head@ =~= p@.subrange(0, k as int));
        k = k + 1;
    }
    false
}

/// Whether `s` contains any tool-call tag.
pub open spec fn has_tag(s: Seq<char>) -> bool {
    exists|i: int| 0 <= i < tool_call_prefixes().len() && contains_seq(s, #[trigger] tool_call_prefixes()[i])
}

/// Whether `s` ends with the beginning of any tool-call tag.
pub open spec fn has_partial_tag(s: Seq<char>) -> bool {
    exists|i: int| 0 <= i < tool_call_prefixes().len() && partial_prefix(s, #[trigger] tool_call_prefixes()[i])
}

/// The empty text holds no tag.
proof fn lemma_no_tag_empty()
    ensures
        !has_tag(Seq::<char>::empty()),
{
    assert forall|i: int| 0 <= i < tool_call_prefixes().len() implies
        !contains_seq(Seq::<char>::empty(), #[trigger] tool_call_prefixes()[i]) by {
        assert(tool_call_prefixes()[i].len() > 0);
    }
}

/// Every character takes at least one UTF-8 byte.
proof fn lemma_bytes_at_least_chars(s: Seq<char>)
    ensures
        byte_len(s) >= s.len(),
    decreases s.len(),
{
    if s.len() > 0 {
        lemma_bytes_at_least_chars(s.drop_first());
    }
}

/// When a text takes at least two UTF-8 bytes.
proof fn lemma_two_bytes(s: Seq<char>)
    ensures
        byte_len(s) >= 2 <==> (s.len() >= 2 || (s.len() == 1 && s[0] as u32 >= 0x80)),
{
    lemma_bytes_at_least_chars(s);
    if s.len() == 1 {
        assert(s.drop_first() =~= Seq::<char>::empty());
        assert(encode_utf8(s) == encode_scalar(s[0] as u32) + encode_utf8(s.drop_first()));
    }
}

/// The state of a filter: held-back text, and whether a tag was seen.
pub struct FilterState {
    pub buffer: Seq<char>,
    pub suppressing: bool,
}

/// The filter's answer to one streamed chunk.
pub struct Step {
    /// Text released by this chunk, as a content chunk.
    pub flushed: Option<StreamChunk>,
    /// Whether the chunk itself must be passed on (it carries no text).
    pub pass_through: bool,
}

/// What accepting a chunk whose text content is `text` does to state `st`:
/// the new state, the text released, and whether the chunk passes through.
pub open spec fn accept_spec(st: FilterState, text: Option<Seq<char>>) -> (FilterState, Option<Seq<char>>, bool) {
    let has_content = match text { Some(t) => t.len() > 0, None => false };
    if st.suppressing {
        (st, None, false)
    } else if has_content {
        let buf = st.buffer + text.unwrap();
        if has_tag(buf) {
            (FilterState { buffer: Seq::empty(), suppressing: true }, None, false)
        } else if byte_len(buf) >= 2 && has_partial_tag(buf) {
            (FilterState { buffer: buf, suppressing: false }, None, false)
        } else {
            (FilterState { buffer: Seq::empty(), suppressing: false }, Some(buf), false)
        }
    } else {
        (
            FilterState { buffer: Seq::empty(), suppressing: false },
            if st.buffer.len() == 0 { None } else { Some(st.buffer) },
            true,
        )
    }
}

/// What finishing from state `st` does: the text released, and whether the
/// final response's tool calls are to be emitted (only after a tag, and
/// only if it has any).
pub open spec fn finish_spec(st: FilterState, has_tool_calls: bool) -> (Option<Seq<char>>, bool) {
    if st.suppressing {
        (None, has_tool_calls)
    } else {
        (if st.buffer.len() == 0 { None } else { Some(st.buffer) }, false)
    }
}

/// The text chunk releasing `t`, if any.
pub open spec fn release_chunk(t: Option<Seq<char>>) -> Option<StreamChunkView> {
    match t {
        Some(s) => Some(one_choice_chunk(DeltaView { content: Some(s), ..empty_delta() })),
        None => None,
    }
}

/// The view of an optional chunk.
pub open spec fn chunk_view(c: Option<StreamChunk>) -> Option<StreamChunkView> {
    match c {
        Some(x) => Some(x@),
        None => None,
    }
}

/// Filters tool-call tags out of streamed content.
pub struct ToolCallFilter {
    buffer: String,
    suppressing: bool,
}

impl ToolCallFilter {
    /// The filter's state.
    pub closed spec fn state(&self) -> FilterState {
        FilterState { buffer: self.buffer@, suppressing: self.suppressing }
    }

    /// The invariant: held-back text never holds a whole tag, and nothing is
    /// held once suppressing.
    pub open spec fn wf(&self) -> bool {
        &&& !has_tag(self.state().buffer)
        &&& self.state().suppressing ==> self.state().buffer.len() == 0
    }

    /// A filter holding nothing.
    pub fn new() -> (f: Self)
        ensures
            f.state() == (FilterState { buffer: Seq::empty(), suppressing: false }),
            f.wf(),
    {
        let f = ToolCallFilter { buffer: String::new(), suppressing: false };
        proof {
            lemma_no_tag_empty();
        }
        f
    }

    /// Release the held-back text as a content chunk, if any.
    pub fn flush(&mut self) -> (r: Option<StreamChunk>)
        ensures
            chunk_view(r) == release_chunk(
                if old(self).state().buffer.len() == 0 { None } else { Some(old(self).state().buffer) },
            ),
            final(self).state() == (FilterState { buffer: Seq::empty(), suppressing: old(self).state().suppressing }),
    {
        if self.buffer.unicode_len() == 0 {
            assert(self.buffer@ =~= Seq::<char>::empty());
            return None;
        }
        let mut content = String::new();
        std::mem::swap(&mut content, &mut self.buffer);
        Some(text_chunk(content))
    }

    /// Process one streamed chunk whose first choice carries `text` (if any).
    pub fn accept(&mut self, text: Option<&str>) -> (r: Step)
        requires
            old(self).wf(),
        ensures
            final(self).wf(),
            ({
                let (st, out, pass) = accept_spec(
                    old(self).state(),
                    match text { Some(t) => Some(t@), None => None },
                );
                &&& final(self).state() == st
                &&& chunk_view(r.flushed) == release_chunk(out)
                &&& r.pass_through == pass
            }),
    {
        proof {
            lemma_no_tag_empty();
        }
        if self.suppressing {
            return Step { flushed: None, pass_through: false };
        }
        let has_content = match text {
            Some(t) => t.unicode_len() > 0,
            None => false,
        };
        if has_content {
            let t = text.unwrap();
            push_str(&mut self.buffer, t);
            let buf = to_chars(self.buffer.as_str());
            assert(buf@ == old(self).state().buffer + t@);
            let ps = prefixes();
            let mut full = false;
            let mut i: usize = 0;
            while i < ps.len()
                invariant
                    i <= ps@.len(),
                    ps@.len() == tool_call_prefixes().len(),
                    forall|j: int| 0 <= j < ps@.len() ==> (#[trigger] ps@[j])@ == tool_call_prefixes()[j],
                    full == exists|j: int| 0 <= j < i && contains_seq(buf@, #[trigger] tool_call_prefixes()[j]),
                decreases ps@.len() - i,
            {
                if contains_chars(buf.as_slice(), ps[i].as_slice()) {
                    full = true;
                }
                i = i + 1;
            }
            if full {
                self.suppressing = true;
                self.buffer = String::new();
                return Step { flushed: None, pass_through: false };
            }
            proof {
                lemma_two_bytes(buf@);
            }
            if buf.len() >= 2 || (buf.len() == 1 && buf[0] as u32 >= 0x80) {
                let mut partial = false;
                let mut i: usize = 0;
                while i < ps.len()
                    invariant
                        i <= ps@.len(),
                        ps@.len() == tool_call_prefixes().len(),
                        forall|j: int| 0 <= j < ps@.len() ==> (#[trigger] ps@[j])@ == tool_call_prefixes()[j],
                        partial == exists|j: int| 0 <= j < i && partial_prefix(buf@, #[trigger] tool_call_prefixes()[j]),
                    decreases ps@.len() - i,
                {
                    if partial_prefix_chars(buf.as_slice(), ps[i].as_slice()) {
                        partial = true;
                    }
                    i = i + 1;
                }
                if partial {
                    return Step { flushed: None, pass_through: false };
                }
            }
            let flushed = self.flush();
            Step { flushed, pass_through: false }
        } else {
            let flushed = self.flush();
            Step { flushed, pass_through: true }
        }
    }

    /// Process the final response, consuming the filter: when a tag was
    /// seen, the structured tool calls of the final response are to be
    /// emitted (if it has any); otherwise the held-back text is released.
    pub fn finish(self, has_tool_calls: bool) -> (r: (Option<StreamChunk>, bool))
        ensures
            chunk_view(r.0) == release_chunk(finish_spec(self.state(), has_tool_calls).0),
            r.1 == finish_spec(self.state(), has_tool_calls).1,
    {
        let mut f = self;
        if f.suppressing {
            return (None, has_tool_calls);
        }
        (f.flush(), false)
    }
}

/// Once a tag has been seen, nothing is released and no chunk passes through,
/// whatever follows.
pub proof fn law_suppression_is_final(st: FilterState, text: Option<Seq<char>>)
    requires
        st.suppressing,
    ensures
        accept_spec(st, text) == (st, None::<Seq<char>>, false),
{
}

/// Text is never lost while streaming: what a content chunk releases,
/// followed by what stays held, is what was held followed by the new text.
pub proof fn law_text_conserved(st: FilterState, text: Seq<char>)
    requires
        !st.suppressing,
        text.len() > 0,
        !has_tag(st.buffer + text),
    ensures
        ({
            let (next, out, _) = accept_spec(st, Some(text));
            &&& !next.suppressing
            &&& (match out { Some(o) => o, None => Seq::empty() }) + next.buffer == st.buffer + text
            &&& out matches Some(o) ==> !has_tag(o)
        }),
{
    let (next, out, _) = accept_spec(st, Some(text));
    match out {
        Some(o) => {
            assert(o + next.buffer =~= o);
        },
        None => {
            assert(Seq::<char>::empty() + next.buffer =~= next.buffer);
        },
    }
}

/// The text content of a run of chunks, one after another (a chunk without
/// text adds nothing).
pub open spec fn streamed_text(texts: Seq<Option<Seq<char>>>) -> Seq<char>
    decreases texts.len(),
{
    if texts.len() == 0 {
        Seq::empty()
    } else {
        (match texts[0] {
            Some(t) => t,
            None => Seq::empty(),
        }) + streamed_text(texts.drop_first())
    }
}

/// Accepting the chunks `texts` one after another from state `st`: the
/// state reached, and all the text released on the way, in order.
pub open spec fn accept_all(st: FilterState, texts: Seq<Option<Seq<char>>>) -> (FilterState, Seq<char>)
    decreases texts.len(),
{
    if texts.len() == 0 {
        (st, Seq::empty())
    } else {
        let (next, out, _) = accept_spec(st, texts[0]);
        let (last, rest) = accept_all(next, texts.drop_first());
        (
            last,
            (match out {
                Some(o) => o,
                None => Seq::empty(),
            }) + rest,
        )
    }
}

/// A tag inside a part of a text is inside the whole text.
proof fn lemma_tag_in_part(a: Seq<char>, b: Seq<char>)
    ensures
        has_tag(a) ==> has_tag(a + b),
        has_tag(b) ==> has_tag(a + b),
{
    if has_tag(a) {
        let i = choose|i: int| 0 <= i < tool_call_prefixes().len() && contains_seq(a, #[trigger] tool_call_prefixes()[i]);
        let p = tool_call_prefixes()[i];
        let k = choose|k: int| occurs_at(a, p, k);
        assert((a + b).subrange(k, k + p.len()) =~= a.subrange(k, k + p.len()));
        assert(occurs_at(a + b, p, k));
    }
    if has_tag(b) {
        let i = choose|i: int| 0 <= i < tool_call_prefixes().len() && contains_seq(b, #[trigger] tool_call_prefixes()[i]);
        let p = tool_call_prefixes()[i];
        let k = choose|k: int| occurs_at(b, p, k);
        assert((a + b).subrange(a.len() + k, a.len() + k + p.len()) =~= b.subrange(k, k + p.len()));
        assert(occurs_at(a + b, p, a.len() + k));
    }
}

/// No text is lost, doubled or reordered over a whole stream: where the
/// held text and the text of the chunks still to come hold no tool-call
/// tag, accepting every chunk releases the held text and the chunks' text,
/// in order, except for what is still held at the end, and the filter does
/// not start suppressing.
pub proof fn law_stream_text_conserved(st: FilterState, texts: Seq<Option<Seq<char>>>)
    requires
        !st.suppressing,
        !has_tag(st.buffer + streamed_text(texts)),
    ensures
        !accept_all(st, texts).0.suppressing,
        accept_all(st, texts).1 + accept_all(st, texts).0.buffer == st.buffer + streamed_text(texts),
    decreases texts.len(),
{
    if texts.len() == 0 {
        assert(Seq::<char>::empty() + st.buffer =~= st.buffer + Seq::<char>::empty());
    } else {
        let t0 = match texts[0] {
            Some(t) => t,
            None => Seq::<char>::empty(),
        };
        let tail = texts.drop_first();
        let (next, out, _) = accept_spec(st, texts[0]);
        assert(st.buffer + streamed_text(texts) =~= (st.buffer + t0) + streamed_text(tail));
        lemma_tag_in_part(st.buffer + t0, streamed_text(tail));
        lemma_tag_in_part(st.buffer, t0);
        assert(!has_tag(st.buffer + t0));
        assert(!has_tag(streamed_text(tail)));
        assert(!has_tag(st.buffer));
        if next.buffer.len() == 0 {
            assert(next.buffer + streamed_text(tail) =~= streamed_text(tail));
        }
        law_stream_text_conserved(next, tail);
        let (last, rest) = accept_all(next, tail);
        let o = match out {
            Some(o) => o,
            None => Seq::<char>::empty(),
        };
        assert(o + next.buffer =~= st.buffer + t0);
        assert((o + rest) + last.buffer =~= o + (rest + last.buffer));
        assert(o + (next.buffer + streamed_text(tail)) =~= (o + next.buffer) + streamed_text(tail));
    }
}

/// A whole stream through a new filter loses, doubles and reorders no
/// text: where the streamed text holds no tool-call tag, the text released
/// by the `accept` calls, followed by what `finish` releases, is exactly the
/// streamed text, and `finish` emits no tool calls.
pub proof fn law_stream_then_finish(texts: Seq<Option<Seq<char>>>, has_tool_calls: bool)
    requires
        !has_tag(streamed_text(texts)),
    ensures
        ({
            let (last, out) = accept_all(FilterState { buffer: Seq::empty(), suppressing: false }, texts);
            let (fin, calls) = finish_spec(last, has_tool_calls);
            &&& out + (match fin {
                Some(t) => t,
                None => Seq::empty(),
            }) == streamed_text(texts)
            &&& !calls
        }),
{
    let st = FilterState { buffer: Seq::<char>::empty(), suppressing: false };
    assert(st.buffer + streamed_text(texts) =~= streamed_text(texts));
    law_stream_text_conserved(st, texts);
    let (last, out) = accept_all(st, texts);
    if last.buffer.len() == 0 {
        assert(out + last.buffer =~= out);
        assert(out + Seq::<char>::empty() =~= out);
    }
}

/// A tool-call tag split across two chunks never leaks: where the held text
/// and the first chunk end with the first `k` characters of a tag (for any
/// `1 <= k` short of the whole tag, so also its first character alone) and
/// take at least two UTF-8 bytes, and the next chunk goes on with the rest
/// of the tag, neither chunk releases any text, the filter ends up
/// suppressing, and finishing emits the final response's tool calls.
pub proof fn law_split_tag_suppressed(
    st: FilterState,
    t1: Seq<char>,
    t2: Seq<char>,
    i: int,
    k: int,
    has_tool_calls: bool,
)
    requires
        !st.suppressing,
        0 <= i < tool_call_prefixes().len(),
        1 <= k < tool_call_prefixes()[i].len(),
        t1.len() > 0,
        byte_len(st.buffer + t1) >= 2,
        has_suffix(st.buffer + t1, tool_call_prefixes()[i].subrange(0, k)),
        has_prefix(t2, tool_call_prefixes()[i].subrange(k, tool_call_prefixes()[i].len() as int)),
    ensures
        ({
            let (s1, o1, p1) = accept_spec(st, Some(t1));
            let (s2, o2, p2) = accept_spec(s1, Some(t2));
            &&& o1 is None && !p1
            &&& o2 is None && !p2
            &&& s2.suppressing
            &&& finish_spec(s2, has_tool_calls) == (None::<Seq<char>>, has_tool_calls)
        }),
{
    let p = tool_call_prefixes()[i];
    let buf = st.buffer + t1;
    if !has_tag(buf) {
        assert(partial_prefix(buf, p));
        assert(has_partial_tag(buf));
        let buf2 = buf + t2;
        let at = buf.len() - k;
        assert forall|m: int| 0 <= m < p.len() implies buf2.subrange(at, at + p.len())[m] == p[m] by {
            if m < k {
                assert(buf.subrange(buf.len() - k, buf.len() as int)[m] == p.subrange(0, k)[m]);
                assert(buf2[at + m] == buf[at + m]);
            } else {
                assert(t2.subrange(0, p.len() - k)[m - k] == p.subrange(k, p.len() as int)[m - k]);
                assert(buf2[at + m] == t2[m - k]);
            }
        }
        assert(buf2.subrange(at, at + p.len()) =~= p);
        assert(occurs_at(buf2, p, at));
        assert(contains_seq(buf2, tool_call_prefixes()[i]));
        assert(has_tag(buf2));
        assert(t2.len() > 0);
    }
}

/// Plain text is not held back: where the held text and a new chunk hold no
/// tag and either take fewer than two UTF-8 bytes or end with no proper
/// beginning of any tag, the chunk releases all of that text at once and
/// nothing stays held.
pub proof fn law_plain_text_released(st: FilterState, t: Seq<char>)
    requires
        !st.suppressing,
        t.len() > 0,
        !has_tag(st.buffer + t),
        byte_len(st.buffer + t) < 2 || forall|i: int, k: int|
            0 <= i < tool_call_prefixes().len() && 1 <= k < tool_call_prefixes()[i].len()
            ==> !has_suffix(st.buffer + t, #[trigger] tool_call_prefixes()[i].subrange(0, k)),
    ensures
        ({
            let (next, out, pass) = accept_spec(st, Some(t));
            &&& out == Some(st.buffer + t)
            &&& next.buffer.len() == 0 && !next.suppressing
            &&& !pass
        }),
{
    let buf = st.buffer + t;
    if byte_len(buf) >= 2 {
        assert forall|i: int| 0 <= i < tool_call_prefixes().len() implies !partial_prefix(buf, #[trigger] tool_call_prefixes()[i]) by {
            if partial_prefix(buf, tool_call_prefixes()[i]) {
                let k = choose|k: int| 1 <= k < tool_call_prefixes()[i].len() && has_suffix(buf, tool_call_prefixes()[i].subrange(0, k));
                assert(!has_suffix(buf, tool_call_prefixes()[i].subrange(0, k)));
            }
        }
        assert(!has_partial_tag(buf));
    }
}

} // verus!
