//! Comment removal. A block comment runs from `[-` to the first `-]` after it;
//! a line comment runs from `--` to the end of its line, the line break kept.
//! Everything else is kept as it is. A `[-` that no `-]` follows opens no
//! comment: its `[` is kept and scanning goes on with the next character.
use vstd::prelude::*;
use crate::model::ParserError;

verus! {

/// Where the scan stands: in plain text, in a block comment, or in a line
/// comment.
#[derive(Clone, Copy, Debug, PartialEq, Eq)]
pub enum Scan {
    Text,
    Block,
    Line,
}

pub open spec fn closes_block(s: Seq<char>, k: int) -> bool {
    0 <= k && k + 1 < s.len() && s[k] == '-' && s[k + 1] == ']'
}

/// Some `-]` starts at `j` or later.
pub open spec fn has_close(s: Seq<char>, j: int) -> bool {
    exists|k: int| j <= k && #[trigger] closes_block(s, k)
}

pub open spec fn opens_block(s: Seq<char>, i: int) -> bool {
    0 <= i && i + 1 < s.len() && s[i] == '[' && s[i + 1] == '-' && has_close(s, i + 2)
}

pub open spec fn opens_line(s: Seq<char>, i: int) -> bool {
    0 <= i && i + 1 < s.len() && s[i] == '-' && s[i + 1] == '-'
}

/// What is kept of `s[i..]` when the scan stands in state `m` at `i`.
pub open spec fn strip_from(s: Seq<char>, i: int, m: Scan) -> Seq<char>
    decreases s.len() - i,
{
    if i < 0 || i >= s.len() {
        Seq::empty()
    } else {
        match m {
            Scan::Text => if opens_block(s, i) {
                strip_from(s, i + 2, Scan::Block)
            } else if opens_line(s, i) {
                strip_from(s, i + 2, Scan::Line)
            } else {
                seq![s[i]] + strip_from(s, i + 1, Scan::Text)
            },
            Scan::Block => if closes_block(s, i) {
                strip_from(s, i + 2, Scan::Text)
            } else {
                strip_from(s, i + 1, Scan::Block)
            },
            Scan::Line => if s[i] == '\n' {
                seq![s[i]] + strip_from(s, i + 1, Scan::Text)
            } else {
                strip_from(s, i + 1, Scan::Line)
            },
        }
    }
}

/// The positions in `s` of the characters that `strip_from` keeps.
pub open spec fn kept_from(s: Seq<char>, i: int, m: Scan) -> Seq<int>
    decreases s.len() - i,
{
    if i < 0 || i >= s.len() {
        Seq::empty()
    } else {
        match m {
            Scan::Text => if opens_block(s, i) {
                kept_from(s, i + 2, Scan::Block)
            } else if opens_line(s, i) {
                kept_from(s, i + 2, Scan::Line)
            } else {
                seq![i] + kept_from(s, i + 1, Scan::Text)
            },
            Scan::Block => if closes_block(s, i) {
                kept_from(s, i + 2, Scan::Text)
            } else {
                kept_from(s, i + 1, Scan::Block)
            },
            Scan::Line => if s[i] == '\n' {
                seq![i] + kept_from(s, i + 1, Scan::Text)
            } else {
                kept_from(s, i + 1, Scan::Line)
            },
        }
    }
}

/// `s` with its comments removed.
pub open spec fn strip(s: Seq<char>) -> Seq<char> {
    strip_from(s, 0, Scan::Text)
}

/// The positions in `s` of the characters of `strip(s)`.
pub open spec fn kept(s: Seq<char>) -> Seq<int> {
    kept_from(s, 0, Scan::Text)
}

/// The number of line breaks before position `k` of `s`: the 0-based line
/// that position `k` stands on.
pub open spec fn line_of(s: Seq<char>, k: int) -> int
    decreases k,
{
    if k <= 0 {
        0
    } else {
        line_of(s, k - 1) + if s[k - 1] == '\n' {
            1int
        } else {
            0int
        }
    }
}

/// `s` opens no comment anywhere: no `--` and no `[-`.
pub open spec fn comment_free(s: Seq<char>) -> bool {
    forall|i: int|
        0 <= i && i + 1 < s.len() ==> !(#[trigger] s[i] == '-' && s[i + 1] == '-') && !(s[i]
            == '[' && s[i + 1] == '-')
}

proof fn lemma_strip_comment_free(s: Seq<char>, i: int)
    requires
        comment_free(s),
        0 <= i <= s.len(),
    ensures
        strip_from(s, i, Scan::Text) == s.subrange(i, s.len() as int),
    decreases s.len() - i,
{
    if i < s.len() {
        if i + 1 < s.len() {
            assert(!(s[i] == '-' && s[i + 1] == '-'));
        }
        lemma_strip_comment_free(s, i + 1);
        assert(s.subrange(i, s.len() as int) =~= seq![s[i]] + s.subrange(i + 1, s.len() as int));
    } else {
        assert(s.subrange(i, s.len() as int) =~= Seq::<char>::empty());
    }
}

/// A text that opens no comment is left as it is by comment removal, and
/// removing comments twice from it gives what removing them once gives.
pub proof fn lemma_strip_comment_free_text(x: Seq<char>)
    requires
        comment_free(x),
    ensures
        strip(x) == x,
        strip(strip(x)) == strip(x),
{
    lemma_strip_comment_free(x, 0);
    assert(x.subrange(0, x.len() as int) =~= x);
}

/// The last position where a `-]` starts, if any.
fn last_close(s: &Vec<char>) -> (r: Option<usize>)
    ensures
        match r {
            Some(k) => closes_block(s@, k as int) && forall|j: int|
                k < j ==> !#[trigger] closes_block(s@, j),
            None => forall|j: int| !#[trigger] closes_block(s@, j),
        },
{
    let mut k: usize = s.len();
    while k >= 2
        invariant
            k <= s.len(),
            forall|j: int| k <= j + 1 ==> !#[trigger] closes_block(s@, j),
        decreases k,
    {
        if s[k - 2] == '-' && s[k - 1] == ']' {
            return Some(k - 2);
        }
        k = k - 1;
    }
    None
}

/// The comment-free text of `s`, with the 0-based line of `s` that each kept
/// character comes from.
pub fn strip_tracked(s: &Vec<char>) -> (r: (Vec<char>, Vec<usize>))
    ensures
        r.0@ == strip(s@),
        r.1.len() == r.0.len(),
        kept(s@).len() == r.0.len(),
        forall|k: int| 0 <= k < r.1.len() ==> r.1@[k] == line_of(s@, #[trigger] kept(s@)[k]),
        forall|k: int| 0 <= k < r.1.len() ==> 0 <= #[trigger] kept(s@)[k] < s.len(),
{
    let close = last_close(s);
    let n = s.len();
    let mut out: Vec<char> = Vec::new();
    let mut rows: Vec<usize> = Vec::new();
    let ghost mut origins: Seq<int> = Seq::empty();
    let mut i: usize = 0;
    let mut m = Scan::Text;
    let mut row: usize = 0;
    while i < n
        invariant
            n == s.len(),
            i <= n,
            row == line_of(s@, i as int),
            row <= i,
            strip(s@) == out@ + strip_from(s@, i as int, m),
            kept(s@) == origins + kept_from(s@, i as int, m),
            out.len() == origins.len(),
            rows.len() == origins.len(),
            forall|k: int|
                0 <= k < rows.len() ==> rows@[k] == line_of(s@, #[trigger] origins[k]) && 0
                    <= origins[k] < n,
            match close {
                Some(k) => closes_block(s@, k as int) && forall|j: int|
                    k < j ==> !#[trigger] closes_block(s@, j),
                None => forall|j: int| !#[trigger] closes_block(s@, j),
            },
        decreases n - i,
    {
        let c = s[i];
        let nl: usize = if c == '\n' {
            1
        } else {
            0
        };
        assert(line_of(s@, i + 1) == line_of(s@, i as int) + nl);
        if i + 1 < n {
            assert(line_of(s@, i + 2) == line_of(s@, i + 1) + if s@[i + 1] == '\n' {
                1int
            } else {
                0int
            });
        }
        match m {
            Scan::Text => {
                let pair_open = i + 1 < n && c == '[' && s[i + 1] == '-';
                let closed = match close {
                    Some(k) => k >= 2 && i <= k - 2,
                    None => false,
                };
                proof {
                    if pair_open {
                        if closed {
                            assert(closes_block(s@, close->0 as int));
                        } else if has_close(s@, i + 2) {
                            let k = choose|k: int| i + 2 <= k && #[trigger] closes_block(s@, k);
                            assert(closes_block(s@, k));
                        }
                    }
                }
                if pair_open && closed {
                    assert(opens_block(s@, i as int));
                    m = Scan::Block;
                    i = i + 2;
                } else if i + 1 < n && c == '-' && s[i + 1] == '-' {
                    m = Scan::Line;
                    i = i + 2;
                } else {
                    proof {
                        origins = origins.push(i as int);
                        assert(seq![s@[i as int]] + strip_from(s@, i + 1, Scan::Text) == strip_from(
                            s@,
                            i as int,
                            Scan::Text,
                        ));
                    }
                    out.push(c);
                    rows.push(row);
                    row = row + nl;
                    i = i + 1;
                }
            },
            Scan::Block => {
                if i + 1 < n && c == '-' && s[i + 1] == ']' {
                    m = Scan::Text;
                    i = i + 2;
                } else {
                    row = row + nl;
                    i = i + 1;
                }
            },
            Scan::Line => {
                if c == '\n' {
                    proof {
                        origins = origins.push(i as int);
                    }
                    out.push(c);
                    rows.push(row);
                    m = Scan::Text;
                }
                row = row + nl;
                i = i + 1;
            },
        }
    }
    assert(out@ + strip_from(s@, i as int, m) =~= out@);
    assert(origins + kept_from(s@, i as int, m) =~= origins);
    (out, rows)
}

/// `input` with its block and line comments removed. Always succeeds.
pub fn remove_comment(input: &str) -> (r: Result<String, ParserError>)
    ensures
        r is Ok,
        r->Ok_0@ == strip(input@),
{
    let s = crate::chars::chars_of(input);
    let (out, _rows) = strip_tracked(&s);
    Ok(crate::chars::text_of(&out, 0, out.len()))
}

} // verus!
