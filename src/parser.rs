//! The executable grammar: each function reads one construct of the grammar
//! at a position of the prepared text, as its namesake in `grammar` says.
use vstd::prelude::*;
use crate::chars::{Class, chars_of, lemma_run_end, scan, text_of, trim_range, trimmed_text};
use crate::comment::{kept, line_of, strip, strip_tracked};
use crate::grammar::{
    LineView, amount_at, cookware_at, document, end_line_at, ingredient_at, kept_part, lines_from,
    meta_at, named_at, parse_spec, prepare, step_from, text_at, timer_at, token_at,
};
use crate::model::{
    Cookware, Ingredient, Metadata, Part, PartView, ParserError, Timer, doc_view, parts_view,
};

verus! {

pub open spec fn part_at_view(r: Option<(Part, usize)>) -> Option<(PartView, int)> {
    match r {
        Some(x) => Some((x.0@, x.1 as int)),
        None => None,
    }
}

pub open spec fn amount_view(r: Option<(String, String, usize)>) -> Option<(Seq<char>, Seq<char>, int)> {
    match r {
        Some(x) => Some((x.0@, x.1@, x.2 as int)),
        None => None,
    }
}

pub open spec fn named_view(r: Option<(String, String, String, usize)>) -> Option<
    (Seq<char>, Seq<char>, Seq<char>, int),
> {
    match r {
        Some(x) => Some((x.0@, x.1@, x.2@, x.3 as int)),
        None => None,
    }
}

fn end_line(t: &Vec<char>, i: usize) -> (r: Option<usize>)
    requires
        i <= t.len(),
    ensures
        r is Some <==> end_line_at(t@, i as int) is Some,
        r matches Some(e) ==> e == end_line_at(t@, i as int)->0 && i < e <= t.len(),
{
    let s = scan(t, i, Class::Blank);
    if s < t.len() && (t[s] == '\n' || t[s] == '\r') {
        let e = scan(t, s, Class::Newline);
        proof {
            lemma_run_end(t@, s + 1, Class::Newline);
        }
        Some(e)
    } else {
        None
    }
}

fn amount(t: &Vec<char>, m: usize) -> (r: Option<(String, String, usize)>)
    requires
        m <= t.len(),
    ensures
        amount_view(r) == amount_at(t@, m as int),
        r matches Some(x) ==> m < x.2 <= t.len(),
{
    if m < t.len() && t[m] == '{' {
        let j = scan(t, m + 1, Class::Qty);
        if j < t.len() && t[j] == '}' {
            Some((trimmed_text(t, m + 1, j), String::new(), j + 1))
        } else if j < t.len() && t[j] == '%' {
            let k = scan(t, j + 1, Class::Unit);
            if k < t.len() && t[k] == '}' {
                Some((trimmed_text(t, m + 1, j), trimmed_text(t, j + 1, k), k + 1))
            } else {
                None
            }
        } else {
            None
        }
    } else {
        None
    }
}

fn named(t: &Vec<char>, a: usize) -> (r: Option<(String, String, String, usize)>)
    requires
        a <= t.len(),
    ensures
        named_view(r) == named_at(t@, a as int),
        r matches Some(x) ==> a < x.3 <= t.len(),
{
    let m = scan(t, a, Class::Plain);
    if m > a {
        match amount(t, m) {
            Some((q, u, e)) => {
                return Some((text_of(t, a, m), q, u, e));
            },
            None => {},
        }
    }
    let w = scan(t, a, Class::Word);
    if w > a {
        Some((text_of(t, a, w), String::new(), String::new(), w))
    } else {
        None
    }
}

fn timer(t: &Vec<char>, i: usize) -> (r: Option<(Part, usize)>)
    requires
        i <= t.len(),
    ensures
        part_at_view(r) == timer_at(t@, i as int),
        r matches Some(x) ==> i < x.1 <= t.len(),
{
    let s = scan(t, i, Class::Blank);
    if s < t.len() && t[s] == '~' {
        match named(t, s + 1) {
            Some((name, quantity, units, e)) => {
                return Some((Part::Timer(Timer { name, quantity, units }), e));
            },
            None => {},
        }
        match amount(t, s + 1) {
            Some((quantity, units, e)) => Some(
                (Part::Timer(Timer { name: String::new(), quantity, units }), e),
            ),
            None => None,
        }
    } else {
        None
    }
}

fn cookware(t: &Vec<char>, i: usize) -> (r: Option<(Part, usize)>)
    requires
        i <= t.len(),
    ensures
        part_at_view(r) == cookware_at(t@, i as int),
        r matches Some(x) ==> i < x.1 <= t.len(),
{
    let s = scan(t, i, Class::Blank);
    if s < t.len() && t[s] == '#' {
        match named(t, s + 1) {
            Some((name, quantity, _units, e)) => Some(
                (Part::Cookware(Cookware { name, quantity }), e),
            ),
            None => None,
        }
    } else {
        None
    }
}

fn ingredient(t: &Vec<char>, i: usize) -> (r: Option<(Part, usize)>)
    requires
        i <= t.len(),
    ensures
        part_at_view(r) == ingredient_at(t@, i as int),
        r matches Some(x) ==> i < x.1 <= t.len(),
{
    if i < t.len() && t[i] == '@' {
        match named(t, i + 1) {
            Some((name, quantity, units, e)) => Some(
                (Part::Ingredient(Ingredient { name, quantity, units }), e),
            ),
            None => None,
        }
    } else {
        None
    }
}

fn text(t: &Vec<char>, i: usize) -> (r: (Part, usize))
    requires
        i < t.len(),
    ensures
        (r.0@, r.1 as int) == text_at(t@, i as int),
        i < r.1 <= t.len(),
{
    let e = scan(t, i, Class::Plain);
    let e2 = if e > i {
        e
    } else {
        scan(t, i + 1, Class::Plain)
    };
    (Part::Text(trimmed_text(t, i, e2)), e2)
}

fn token(t: &Vec<char>, i: usize) -> (r: (Part, usize))
    requires
        i < t.len(),
    ensures
        (r.0@, r.1 as int) == token_at(t@, i as int),
        i < r.1 <= t.len(),
{
    match timer(t, i) {
        Some(x) => {
            return x;
        },
        None => {},
    }
    match cookware(t, i) {
        Some(x) => {
            return x;
        },
        None => {},
    }
    match ingredient(t, i) {
        Some(x) => {
            return x;
        },
        None => {},
    }
    text(t, i)
}

fn keep(p: &Part) -> (r: bool)
    ensures
        r == kept_part(p@),
{
    match p {
        Part::Text(s) => !s.as_str().is_empty(),
        _ => true,
    }
}

proof fn lemma_parts_push(s: Seq<Part>, p: Part)
    ensures
        parts_view(s.push(p)) == parts_view(s).push(p@),
{
    assert(parts_view(s.push(p)) =~= parts_view(s).push(p@));
}

fn step(t: &Vec<char>, i: usize) -> (r: (Vec<Part>, usize))
    requires
        i <= t.len(),
    ensures
        parts_view(r.0@) == step_from(t@, i as int).0,
        r.1 == step_from(t@, i as int).1,
        i <= r.1 <= t.len(),
        i < t.len() ==> i < r.1,
{
    let mut parts: Vec<Part> = Vec::new();
    let mut j: usize = i;
    let mut done = false;
    while !done
        invariant
            i <= j <= t.len(),
            i < t.len() && done ==> i < j,
            j > i || parts.len() == 0,
            done ==> parts_view(parts@) == step_from(t@, i as int).0 && j == step_from(
                t@,
                i as int,
            ).1,
            !done ==> step_from(t@, i as int).0 == parts_view(parts@) + step_from(t@, j as int).0
                && step_from(t@, i as int).1 == step_from(t@, j as int).1,
        decreases t.len() - j + if done {
            0int
        } else {
            1int
        },
    {
        if j >= t.len() {
            assert(parts_view(parts@) + Seq::<PartView>::empty() =~= parts_view(parts@));
            done = true;
        } else {
            match end_line(t, j) {
                Some(e) => {
                    assert(parts_view(parts@) + Seq::<PartView>::empty() =~= parts_view(parts@));
                    j = e;
                    done = true;
                },
                None => {
                    let (p, k) = token(t, j);
                    let ghost rest = step_from(t@, k as int);
                    let ghost before = parts@;
                    if keep(&p) {
                        proof {
                            lemma_parts_push(parts@, p);
                            assert(parts_view(before) + (seq![p@] + rest.0) =~= parts_view(
                                before,
                            ).push(p@) + rest.0);
                        }
                        parts.push(p);
                    }
                    j = k;
                },
            }
        }
    }
    (parts, j)
}

fn metadata(t: &Vec<char>, i: usize) -> (r: Option<(Part, usize)>)
    requires
        i <= t.len(),
    ensures
        part_at_view(r) == meta_at(t@, i as int),
        r matches Some(x) ==> i < x.1 <= t.len(),
{
    if i < t.len() && t[i] == '>' && i + 1 < t.len() && t[i + 1] == '>' {
        let c = scan(t, i + 2, Class::NotColon);
        if c < t.len() {
            let v = scan(t, c + 1, Class::NotNewline);
            let key = trimmed_text(t, i + 2, c);
            let value = trimmed_text(t, c + 1, v);
            Some((Part::Metadata(Metadata { key, value }), v))
        } else {
            None
        }
    } else {
        None
    }
}

/// The lines of the prepared text `t`, with the position where each starts.
fn lines(t: &Vec<char>) -> (r: (Vec<Vec<Part>>, Vec<usize>))
    ensures
        r.0.len() == lines_from(t@, 0).len(),
        r.1.len() == r.0.len(),
        forall|k: int|
            0 <= k < r.0.len() ==> parts_view(#[trigger] r.0@[k]@) == lines_from(t@, 0)[k].parts,
        forall|k: int|
            0 <= k < r.1.len() ==> #[trigger] r.1@[k] == lines_from(t@, 0)[k].start && r.1@[k]
                < t.len(),
{
    let mut doc: Vec<Vec<Part>> = Vec::new();
    let mut starts: Vec<usize> = Vec::new();
    let ghost mut built: Seq<LineView> = Seq::empty();
    let mut i: usize = 0;
    while i < t.len()
        invariant
            i <= t.len(),
            lines_from(t@, 0) == built + lines_from(t@, i as int),
            built.len() == doc.len(),
            starts.len() == doc.len(),
            forall|k: int| 0 <= k < doc.len() ==> parts_view(#[trigger] doc@[k]@) == built[k].parts,
            forall|k: int|
                0 <= k < doc.len() ==> #[trigger] starts@[k] == built[k].start && starts@[k]
                    < t.len(),
        decreases t.len() - i,
    {
        let (parts, j) = match metadata(t, i) {
            Some((p, j)) => {
                let mut one: Vec<Part> = Vec::new();
                one.push(p);
                assert(parts_view(one@) =~= seq![p@]);
                (one, j)
            },
            None => step(t, i),
        };
        let ghost rest = lines_from(t@, j as int);
        if parts.len() > 0 {
            let ghost line = LineView { start: i as int, parts: parts_view(parts@) };
            proof {
                assert(built + (seq![line] + rest) =~= built.push(line) + rest);
                built = built.push(line);
            }
            doc.push(parts);
            starts.push(i);
        }
        i = j;
    }
    assert(built + lines_from(t@, i as int) =~= built);
    (doc, starts)
}

/// A recipe text parsed, with the line of the text that each parsed line starts on.
pub struct Parsed {
    pub lines: Vec<Vec<Part>>,
    pub rows: Vec<usize>,
}

/// The 0-based line of `input` on which the parsed line that starts at
/// position `start` of the prepared text stands.
pub open spec fn source_line(input: Seq<char>, start: int) -> int {
    line_of(input, kept(input)[crate::chars::trim_lo(strip(input)) + start])
}

/// Parses `input`, keeping track of where each line stands in it.
pub fn parse_tracked(input: &str) -> (r: Parsed)
    ensures
        doc_view(r.lines@) == parse_spec(input@),
        r.rows.len() == r.lines.len(),
        forall|k: int|
            0 <= k < r.rows.len() ==> #[trigger] r.rows@[k] == source_line(
                input@,
                document(input@)[k].start,
            ),
{
    let s = chars_of(input);
    let (cleaned, rows) = strip_tracked(&s);
    let (lo, hi) = trim_range(&cleaned, 0, cleaned.len());
    proof {
        assert(cleaned@.subrange(0, cleaned@.len() as int) =~= cleaned@);
        crate::chars::lemma_trim_bounds(cleaned@);
    }
    let mut t: Vec<char> = Vec::new();
    let mut k: usize = lo;
    while k < hi
        invariant
            lo <= k <= hi <= cleaned.len(),
            t@ == cleaned@.subrange(lo as int, k as int),
        decreases hi - k,
    {
        t.push(cleaned[k]);
        assert(cleaned@.subrange(lo as int, k + 1) =~= cleaned@.subrange(lo as int, k as int).push(
            cleaned@[k as int],
        ));
        k = k + 1;
    }
    let (doc, starts) = lines(&t);
    let mut line_rows: Vec<usize> = Vec::new();
    let mut n: usize = 0;
    while n < starts.len()
        invariant
            n <= starts.len(),
            starts.len() == doc.len(),
            line_rows.len() == n,
            t@ == prepare(input@),
            lo == crate::chars::trim_lo(strip(input@)),
            lo + t.len() <= rows.len(),
            rows.len() == kept(input@).len(),
            forall|q: int|
                0 <= q < rows.len() ==> rows@[q] == line_of(input@, #[trigger] kept(input@)[q]),
            forall|q: int| 0 <= q < starts.len() ==> #[trigger] starts@[q] < t.len(),
            forall|q: int|
                0 <= q < starts.len() ==> starts@[q] == lines_from(t@, 0)[q].start,
            forall|q: int|
                0 <= q < n ==> #[trigger] line_rows@[q] == source_line(
                    input@,
                    document(input@)[q].start,
                ),
        decreases starts.len() - n,
    {
        let st = starts[n];
        line_rows.push(rows[lo + st]);
        n = n + 1;
    }
    assert(doc_view(doc@) =~= parse_spec(input@));
    Parsed { lines: doc, rows: line_rows }
}

/// Parses a recipe text into its lines. Every text parses; the result is
/// always `Ok`.
pub fn parse(input: &str) -> (r: Result<Vec<Vec<Part>>, ParserError>)
    ensures
        r is Ok,
        doc_view(r->Ok_0@) == parse_spec(input@),
{
    let p = parse_tracked(input);
    Ok(p.lines)
}

} // verus!
