//! What the editor index keeps of a recipe: the names of its ingredients and
//! cookware, and the source lines on which its steps start.
use vstd::prelude::*;
use crate::grammar::{LineView, document, parse_spec};
use crate::model::{Part, PartView, doc_view, parts_view};
use crate::parser::{Parsed, parse_tracked, source_line};

verus! {

/// The two kinds of named entity that completion offers.
#[derive(Clone, Copy, Debug, PartialEq, Eq, Structural)]
pub enum Entity {
    Ingredient,
    Cookware,
}

pub open spec fn entity_name(p: PartView, k: Entity) -> Option<Seq<char>> {
    match p {
        PartView::Ingredient { name, .. } => if k == Entity::Ingredient {
            Some(name)
        } else {
            None
        },
        PartView::Cookware { name, .. } => if k == Entity::Cookware {
            Some(name)
        } else {
            None
        },
        _ => None,
    }
}

/// The names of the entities of kind `k` among `parts`, in order.
pub open spec fn names_in(parts: Seq<PartView>, k: Entity) -> Seq<Seq<char>>
    decreases parts.len(),
{
    if parts.len() == 0 {
        Seq::empty()
    } else {
        names_in(parts.drop_last(), k) + match entity_name(parts.last(), k) {
            Some(n) => seq![n],
            None => Seq::empty(),
        }
    }
}

/// The names of the entities of kind `k` over all `lines`, in order.
pub open spec fn doc_names(lines: Seq<LineView>, k: Entity) -> Seq<Seq<char>>
    decreases lines.len(),
{
    if lines.len() == 0 {
        Seq::empty()
    } else {
        doc_names(lines.drop_last(), k) + names_in(lines.last().parts, k)
    }
}

/// A line is a step unless it is a single metadata declaration.
pub open spec fn is_step(parts: Seq<PartView>) -> bool {
    !(parts.len() == 1 && parts[0] is Metadata)
}

/// The 0-based lines of `input` on which the steps among `lines` start.
pub open spec fn step_rows(input: Seq<char>, lines: Seq<LineView>) -> Seq<int>
    decreases lines.len(),
{
    if lines.len() == 0 {
        Seq::empty()
    } else {
        step_rows(input, lines.drop_last()) + if is_step(lines.last().parts) {
            seq![source_line(input, lines.last().start)]
        } else {
            Seq::empty()
        }
    }
}

pub open spec fn texts_view(v: Seq<String>) -> Seq<Seq<char>> {
    v.map_values(|s: String| s@)
}

pub open spec fn rows_view(v: Seq<usize>) -> Seq<int> {
    v.map_values(|n: usize| n as int)
}

/// The ingredient and cookware names of a recipe, in order of appearance and
/// with repetitions, and the lines on which its steps start.
pub struct ParseResult {
    pub ingredients: Vec<String>,
    pub cookwares: Vec<String>,
    pub step_lines: Vec<usize>,
}

fn names_of_line(line: &Vec<Part>, k: Entity, out: &mut Vec<String>)
    ensures
        texts_view(final(out)@) == texts_view(old(out)@) + names_in(parts_view(line@), k),
{
    let mut j: usize = 0;
    while j < line.len()
        invariant
            j <= line.len(),
            texts_view(out@) == texts_view(old(out)@) + names_in(
                parts_view(line@.subrange(0, j as int)),
                k,
            ),
        decreases line.len() - j,
    {
        let ghost before = out@;
        let ghost pre = parts_view(line@.subrange(0, j as int));
        let ghost cur = parts_view(line@.subrange(0, j + 1));
        assert(cur.drop_last() =~= pre);
        assert(cur.last() == line@[j as int]@);
        match &line[j] {
            Part::Ingredient(i) => {
                if k == Entity::Ingredient {
                    out.push(i.name.clone());
                }
            },
            Part::Cookware(c) => {
                if k == Entity::Cookware {
                    out.push(c.name.clone());
                }
            },
            _ => {},
        }
        assert(texts_view(out@) =~= texts_view(before) + match entity_name(cur.last(), k) {
            Some(n) => seq![n],
            None => Seq::empty(),
        });
        assert(texts_view(out@) =~= texts_view(old(out)@) + names_in(cur, k));
        j = j + 1;
    }
    assert(line@.subrange(0, j as int) =~= line@);
}

fn names_of(p: &Parsed, k: Entity, Ghost(lines): Ghost<Seq<LineView>>) -> (r: Vec<String>)
    requires
        p.lines.len() == lines.len(),
        forall|q: int| 0 <= q < lines.len() ==> parts_view(#[trigger] p.lines@[q]@) == lines[q].parts,
    ensures
        texts_view(r@) == doc_names(lines, k),
{
    let mut out: Vec<String> = Vec::new();
    let mut q: usize = 0;
    while q < p.lines.len()
        invariant
            q <= p.lines.len() == lines.len(),
            forall|q: int|
                0 <= q < lines.len() ==> parts_view(#[trigger] p.lines@[q]@) == lines[q].parts,
            texts_view(out@) == doc_names(lines.subrange(0, q as int), k),
        decreases p.lines.len() - q,
    {
        let ghost cur = lines.subrange(0, q + 1);
        assert(cur.drop_last() =~= lines.subrange(0, q as int));
        names_of_line(&p.lines[q], k, &mut out);
        assert(texts_view(out@) == doc_names(cur, k));
        q = q + 1;
    }
    assert(lines.subrange(0, q as int) =~= lines);
    out
}

fn is_step_line(line: &Vec<Part>) -> (r: bool)
    ensures
        r == is_step(parts_view(line@)),
{
    if line.len() == 1 {
        match &line[0] {
            Part::Metadata(_) => false,
            _ => true,
        }
    } else {
        true
    }
}

/// Reads a recipe text and lists its ingredient and cookware names, in order
/// and with repetitions, and the 0-based lines of the text on which its steps
/// start.
pub fn index_source(source: &str) -> (r: ParseResult)
    ensures
        texts_view(r.ingredients@) == doc_names(document(source@), Entity::Ingredient),
        texts_view(r.cookwares@) == doc_names(document(source@), Entity::Cookware),
        rows_view(r.step_lines@) == step_rows(source@, document(source@)),
{
    let p = parse_tracked(source);
    let ghost lines = document(source@);
    assert(doc_view(p.lines@).len() == p.lines@.len());
    assert(parse_spec(source@).len() == lines.len());
    assert forall|q: int| 0 <= q < lines.len() implies parts_view(#[trigger] p.lines@[q]@)
        == lines[q].parts by {
        assert(doc_view(p.lines@)[q] == parts_view(p.lines@[q]@));
        assert(parse_spec(source@)[q] == lines[q].parts);
    }
    let ingredients = names_of(&p, Entity::Ingredient, Ghost(lines));
    let cookwares = names_of(&p, Entity::Cookware, Ghost(lines));
    let mut step_lines: Vec<usize> = Vec::new();
    let mut q: usize = 0;
    while q < p.lines.len()
        invariant
            q <= p.lines.len() == lines.len(),
            p.rows.len() == p.lines.len(),
            lines == document(source@),
            forall|q: int|
                0 <= q < lines.len() ==> parts_view(#[trigger] p.lines@[q]@) == lines[q].parts,
            forall|q: int|
                0 <= q < p.rows.len() ==> #[trigger] p.rows@[q] == source_line(
                    source@,
                    lines[q].start,
                ),
            rows_view(step_lines@) == step_rows(source@, lines.subrange(0, q as int)),
        decreases p.lines.len() - q,
    {
        let ghost cur = lines.subrange(0, q + 1);
        assert(cur.drop_last() =~= lines.subrange(0, q as int));
        if is_step_line(&p.lines[q]) {
            step_lines.push(p.rows[q]);
        }
        assert(rows_view(step_lines@) =~= step_rows(source@, cur));
        q = q + 1;
    }
    assert(lines.subrange(0, q as int) =~= lines);
    ParseResult { ingredients, cookwares, step_lines }
}

} // verus!
