//! Splitting a skill file into its YAML frontmatter and its Markdown body.
//!
//! The frontmatter opens with `---` (after any leading whitespace) and
//! closes at the first line that reads `---` once trimmed; the text is cut
//! at the start and at the end of that closing line.

use vstd::prelude::*;
use crate::split::{lines_of, split_bounds, split_on, strip_cr, trim, trim_bounds, trim_end, trim_end_index, trim_start, trim_start_index};
use crate::text::{from_chars_range, has_prefix, owned, to_chars};

verus! {

/// Why a skill file has no frontmatter.
#[derive(Clone, Copy, Debug, PartialEq, Eq, Structural)]
pub enum FrontmatterError {
    /// The text does not start with `---`.
    MissingOpening,
    /// No line closes the frontmatter.
    MissingClosing,
}

impl FrontmatterError {
    /// The error's message.
    pub fn message(&self) -> (r: String)
        ensures
            r@ == match self {
                FrontmatterError::MissingOpening => "missing YAML frontmatter delimiter (---)"@,
                FrontmatterError::MissingClosing => "missing closing YAML frontmatter delimiter (---)"@,
            },
    {
        match self {
            FrontmatterError::MissingOpening => owned("missing YAML frontmatter delimiter (---)"),
            FrontmatterError::MissingClosing => owned("missing closing YAML frontmatter delimiter (---)"),
        }
    }
}

/// Whether `c` is a line-break character.
pub open spec fn is_newline(c: char) -> bool {
    c == '\n' || c == '\r'
}

/// `s` without its leading `\n` and `\r` characters.
pub open spec fn trim_newlines_start(s: Seq<char>) -> Seq<char>
    decreases s.len(),
{
    if s.len() > 0 && is_newline(s[0]) {
        trim_newlines_start(s.drop_first())
    } else {
        s
    }
}

/// The text after the opening `---` and the line breaks that follow it.
pub open spec fn after_opening(content: Seq<char>) -> Seq<char> {
    trim_newlines_start(trim_start(content).skip(3))
}

/// The first line at or after `j` that reads `---` once trimmed (-1 if none).
pub open spec fn closing_line(ls: Seq<Seq<char>>, j: int) -> int
    decreases ls.len() - j,
{
    if j < 0 || j >= ls.len() {
        -1
    } else if trim(ls[j]) == "---"@ {
        j
    } else {
        closing_line(ls, j + 1)
    }
}

/// The position where line `j` starts, in characters: the pieces before it
/// and the `\n` after each of them.
pub open spec fn line_start(ps: Seq<Seq<char>>, j: int) -> nat
    decreases j,
{
    if j <= 0 {
        0
    } else {
        line_start(ps, j - 1) + ps[j - 1].len() + 1
    }
}

/// The frontmatter and body of a skill file, or why it has none: the text
/// before the closing line (trailing whitespace removed), and the text
/// after it (leading line breaks removed).
pub open spec fn frontmatter_split(content: Seq<char>) -> Result<(Seq<char>, Seq<char>), FrontmatterError> {
    if !has_prefix(trim_start(content), "---"@) {
        Err(FrontmatterError::MissingOpening)
    } else {
        let a = after_opening(content);
        let ls = lines_of(a);
        let j = closing_line(ls, 0);
        if j < 0 {
            Err(FrontmatterError::MissingClosing)
        } else {
            let st = line_start(split_on(a, seq!['\n']), j);
            Ok((trim_end(a.take(st as int)), trim_newlines_start(a.skip((st + ls[j].len()) as int))))
        }
    }
}

/// The position in `v[from..]` where its leading line breaks end.
fn skip_newlines(v: &[char], from: usize) -> (r: usize)
    requires
        from <= v@.len(),
    ensures
        from <= r <= v@.len(),
        v@.subrange(r as int, v@.len() as int) == trim_newlines_start(v@.subrange(from as int, v@.len() as int)),
{
    let mut k = from;
    while k < v.len() && (v[k] == '\n' || v[k] == '\r')
        invariant
            from <= k <= v@.len(),
            trim_newlines_start(v@.subrange(from as int, v@.len() as int))
                == trim_newlines_start(v@.subrange(k as int, v@.len() as int)),
        decreases v@.len() - k,
    {
        proof {
            let t = v@.subrange(k as int, v@.len() as int);
            assert(t.drop_first() =~= v@.subrange(k + 1, v@.len() as int));
        }
        k = k + 1;
    }
    k
}

/// `r` holds the bounds of the `\n`-separated pieces of `v`, in order.
spec fn newline_pieces(v: Seq<char>, r: Seq<(usize, usize)>) -> bool {
    &&& r.len() == split_on(v, seq!['\n']).len()
    &&& r.len() >= 1
    &&& r[0].0 == 0
    &&& r[r.len() - 1].1 == v.len()
    &&& forall|k: int| 0 <= k < r.len() - 1 ==> (#[trigger] r[k]).1 + 1 == r[k + 1].0
    &&& forall|k: int| 0 <= k < r.len() - 1 ==> v.subrange((#[trigger] r[k]).1 as int, r[k].1 + 1) == seq!['\n']
    &&& forall|k: int| 0 <= k < r.len() ==> {
        &&& 0 <= (#[trigger] r[k]).0 <= r[k].1 <= v.len()
        &&& v.subrange(r[k].0 as int, r[k].1 as int) == split_on(v, seq!['\n'])[k]
    }
}

/// The bounds of line `j` of `v` (see [`lines_of`]).
fn line_bounds(v: &Vec<char>, pieces: &Vec<(usize, usize)>, j: usize) -> (r: (usize, usize))
    requires
        newline_pieces(v@, pieces@),
        j < lines_of(v@).len(),
    ensures
        r.0 == pieces@[j as int].0,
        r.0 <= r.1 <= pieces@[j as int].1,
        lines_of(v@)[j as int] == v@.subrange(r.0 as int, r.1 as int),
{
    let ghost ps = split_on(v@, seq!['\n']);
    let n = pieces.len();
    let b0 = pieces[j].0;
    let b1 = pieces[j].1;
    let e = if j + 1 < n && b1 > b0 && v[b1 - 1] == '\r' { b1 - 1 } else { b1 };
    proof {
        let pj = ps[j as int];
        assert(pj == v@.subrange(b0 as int, b1 as int));
        if j + 1 < n {
            assert(lines_of(v@)[j as int] == strip_cr(pj));
            if pj.len() > 0 {
                assert(pj.last() == v@[b1 - 1]);
                assert(pj.drop_last() =~= v@.subrange(b0 as int, b1 - 1));
            }
        } else {
            assert(lines_of(v@)[j as int] == pj);
        }
    }
    (b0, e)
}

/// Whether `v[lo..hi]` reads `---` once trimmed.
fn is_delimiter(v: &Vec<char>, lo: usize, hi: usize) -> (r: bool)
    requires
        lo <= hi <= v@.len(),
    ensures
        r == (trim(v@.subrange(lo as int, hi as int)) == "---"@),
{
    proof {
        reveal_strlit("---");
    }
    let (t0, t1) = trim_bounds(v.as_slice(), lo, hi);
    let dash = t1 - t0 == 3 && v[t0] == '-' && v[t0 + 1] == '-' && v[t0 + 2] == '-';
    proof {
        let tl = trim(v@.subrange(lo as int, hi as int));
        assert(tl == v@.subrange(t0 as int, t1 as int));
        if dash {
            assert(tl =~= "---"@);
        } else if tl.len() == 3 {
            assert(tl[0] == v@[t0 as int] && tl[1] == v@[t0 + 1] && tl[2] == v@[t0 + 2]);
            assert(tl != "---"@) by {
                if tl == "---"@ {
                    assert(tl[0] == '-' && tl[1] == '-' && tl[2] == '-');
                }
            }
        }
    }
    dash
}

/// The closing line of the frontmatter in `v` (see [`closing_line`]):
/// its number and its bounds.
fn find_closing(v: &Vec<char>, pieces: &Vec<(usize, usize)>) -> (r: Option<(usize, usize, usize)>)
    requires
        newline_pieces(v@, pieces@),
    ensures
        match r {
            Some((j, b0, e)) => {
                &&& closing_line(lines_of(v@), 0) == j
                &&& 0 <= j < lines_of(v@).len()
                &&& b0 == line_start(split_on(v@, seq!['\n']), j as int)
                &&& b0 <= e <= v@.len()
                &&& lines_of(v@)[j as int] == v@.subrange(b0 as int, e as int)
            },
            None => closing_line(lines_of(v@), 0) == -1,
        },
{
    let ghost ls = lines_of(v@);
    let ghost ps = split_on(v@, seq!['\n']);
    let n = pieces.len();
    let last = pieces[n - 1];
    let num_lines = if last.1 > last.0 { n } else { n - 1 };
    proof {
        assert(ps[n - 1] == v@.subrange(last.0 as int, last.1 as int));
        assert(ls.len() == num_lines);
    }
    let mut j: usize = 0;
    while j < num_lines
        invariant
            newline_pieces(v@, pieces@),
            ls == lines_of(v@),
            ps == split_on(v@, seq!['\n']),
            n == pieces@.len(),
            num_lines == ls.len(),
            num_lines <= n,
            j <= num_lines,
            closing_line(ls, 0) == closing_line(ls, j as int),
            j < n ==> pieces@[j as int].0 == line_start(ps, j as int),
        decreases num_lines - j,
    {
        let (b0, e) = line_bounds(v, pieces, j);
        if is_delimiter(v, b0, e) {
            return Some((j, b0, e));
        }
        proof {
            if j + 1 < n {
                assert(pieces@[j as int].1 + 1 == pieces@[j + 1].0);
                assert(v@.subrange(pieces@[j as int].0 as int, pieces@[j as int].1 as int) == ps[j as int]);
            }
        }
        j = j + 1;
    }
    None
}

/// Split a skill file into its frontmatter and its body (see
/// [`frontmatter_split`]).
pub fn split_yaml_frontmatter(content: &str) -> (r: Result<(String, String), FrontmatterError>)
    ensures
        match r {
            Ok(p) => frontmatter_split(content@) == Ok::<(Seq<char>, Seq<char>), FrontmatterError>((p.0@, p.1@)),
            Err(e) => frontmatter_split(content@) == Err::<(Seq<char>, Seq<char>), FrontmatterError>(e),
        },
{
    let v = to_chars(content);
    proof {
        reveal_strlit("---");
        assert(v@.subrange(0, v@.len() as int) =~= v@);
    }
    let lo = trim_start_index(v.as_slice(), 0, v.len());
    let ghost t = trim_start(content@);
    proof {
        assert(t == v@.subrange(lo as int, v@.len() as int));
    }
    if v.len() - lo < 3 || v[lo] != '-' || v[lo + 1] != '-' || v[lo + 2] != '-' {
        proof {
            if t.len() >= 3 {
                assert(t[0] == v@[lo as int] && t[1] == v@[lo + 1] && t[2] == v@[lo + 2]);
                let h = t.subrange(0, 3);
                assert(h[0] == t[0] && h[1] == t[1] && h[2] == t[2]);
                assert(h != "---"@) by {
                    if h == "---"@ {
                        assert(h[0] == '-' && h[1] == '-' && h[2] == '-');
                    }
                }
            }
        }
        return Err(FrontmatterError::MissingOpening);
    }
    proof {
        assert(t.subrange(0, 3) =~= "---"@);
    }
    let a_start = skip_newlines(v.as_slice(), lo + 3);
    let ghost a = after_opening(content@);
    proof {
        assert(t.skip(3) =~= v@.subrange(lo + 3, v@.len() as int));
        assert(a == v@.subrange(a_start as int, v@.len() as int));
    }
    let av = to_chars(from_chars_range(v.as_slice(), a_start, v.len()).as_str());
    let newline: Vec<char> = vec!['\n'];
    proof {
        assert(newline@ =~= seq!['\n']);
        assert(av@.subrange(0, av@.len() as int) =~= av@);
    }
    let pieces = split_bounds(av.as_slice(), newline.as_slice(), 0);
    let ghost ls = lines_of(a);
    match find_closing(&av, &pieces) {
        None => Err(FrontmatterError::MissingClosing),
        Some((j, b0, e)) => {
            proof {
                assert(a.take(b0 as int) =~= av@.subrange(0, b0 as int));
                assert(ls[j as int].len() == e - b0);
                assert(a.skip(e as int) =~= av@.subrange(e as int, av@.len() as int));
            }
            let fe = trim_end_index(av.as_slice(), 0, b0);
            let bstart = skip_newlines(av.as_slice(), e);
            let front = from_chars_range(av.as_slice(), 0, fe);
            let body = from_chars_range(av.as_slice(), bstart, av.len());
            Ok((front, body))
        },
    }
}

} // verus!
