//! Properties of the grammar that hold for every input.
use vstd::prelude::*;
use crate::chars::{
    Class, in_class, is_ws, lemma_run_end_at, lemma_trim_ends, lemma_trim_fixed,
    lemma_trim_idempotent, run_end, trim,
};
use crate::comment::{comment_free, lemma_strip_comment_free_text};
use crate::grammar::{
    LineView, amount_at, end_line_at, kept_part, line_at, lines_from, meta_at, named_at,
    parse_spec, prepare, step_from, text_at, token_at,
};
use crate::model::PartView;

verus! {

/// A part that is text holds something besides whitespace.
pub open spec fn text_not_blank(p: PartView) -> bool {
    match p {
        PartView::Text { value } => trim(value).len() > 0,
        _ => true,
    }
}

proof fn lemma_token_text(t: Seq<char>, i: int)
    ensures
        token_at(t, i).0 matches PartView::Text { value } ==> trim(value) == value,
{
    lemma_trim_idempotent(t.subrange(i, text_at(t, i).1));
}

proof fn lemma_step_parts(t: Seq<char>, i: int)
    ensures
        forall|j: int|
            0 <= j < step_from(t, i).0.len() ==> text_not_blank(#[trigger] step_from(t, i).0[j]),
    decreases t.len() - i,
{
    if 0 <= i < t.len() && !(end_line_at(t, i) is Some) {
        let (p, j) = token_at(t, i);
        if i < j <= t.len() {
            lemma_step_parts(t, j);
            lemma_token_text(t, i);
            let rest = step_from(t, j).0;
            if kept_part(p) {
                assert forall|k: int|
                    0 <= k < step_from(t, i).0.len() implies text_not_blank(
                    #[trigger] step_from(t, i).0[k],
                ) by {
                    if k > 0 {
                        assert(step_from(t, i).0[k] == rest[k - 1]);
                    }
                }
            }
        }
    }
}

proof fn lemma_lines_parts(t: Seq<char>, i: int)
    ensures
        forall|k: int|
            0 <= k < lines_from(t, i).len() ==> (#[trigger] lines_from(t, i)[k]).parts.len() > 0,
        forall|k: int, j: int|
            0 <= k < lines_from(t, i).len() && 0 <= j < lines_from(t, i)[k].parts.len()
                ==> text_not_blank(#[trigger] lines_from(t, i)[k].parts[j]),
    decreases t.len() - i,
{
    if 0 <= i < t.len() {
        let (parts, j) = line_at(t, i);
        if i < j <= t.len() {
            lemma_lines_parts(t, j);
            lemma_step_parts(t, i);
            let rest = lines_from(t, j);
            if parts.len() > 0 {
                let line = LineView { start: i, parts };
                assert(lines_from(t, i) == seq![line] + rest);
                assert forall|k: int, q: int|
                    0 <= k < lines_from(t, i).len() && 0 <= q < lines_from(t, i)[k].parts.len()
                        implies text_not_blank(#[trigger] lines_from(t, i)[k].parts[q]) by {
                    if k > 0 {
                        assert(lines_from(t, i)[k] == rest[k - 1]);
                    } else if meta_at(t, i) is Some {
                        assert(parts == seq![(meta_at(t, i)->0).0]);
                    } else {
                        assert(parts == step_from(t, i).0);
                    }
                }
                assert forall|k: int| 0 <= k < lines_from(t, i).len() implies (#[trigger] lines_from(
                    t,
                    i,
                )[k]).parts.len() > 0 by {
                    if k > 0 {
                        assert(lines_from(t, i)[k] == rest[k - 1]);
                    }
                }
            }
        }
    }
}

/// No line of a parsed text is empty, and no text part of it is empty once
/// trimmed.
pub proof fn lemma_parse_no_empty(input: Seq<char>)
    ensures
        forall|k: int|
            0 <= k < parse_spec(input).len() ==> (#[trigger] parse_spec(input)[k]).len() > 0,
        forall|k: int, j: int|
            0 <= k < parse_spec(input).len() && 0 <= j < parse_spec(input)[k].len()
                ==> text_not_blank(#[trigger] parse_spec(input)[k][j]),
{
    lemma_lines_parts(prepare(input), 0);
}

/// The text of an ingredient token `@name{qty%unit}`.
pub open spec fn ingredient_token(name: Seq<char>, qty: Seq<char>, unit: Seq<char>) -> Seq<char> {
    seq!['@'] + name + seq!['{'] + qty + seq!['%'] + unit + seq!['}']
}

/// The pieces of a well-formed ingredient token are where the grammar looks
/// for them.
proof fn lemma_token_name(name: Seq<char>, qty: Seq<char>, unit: Seq<char>)
    requires
        name.len() > 0,
        forall|i: int| 0 <= i < name.len() ==> in_class(#[trigger] name[i], Class::Plain),
        forall|i: int| 0 <= i < qty.len() ==> in_class(#[trigger] qty[i], Class::Qty),
        forall|i: int| 0 <= i < unit.len() ==> in_class(#[trigger] unit[i], Class::Unit),
    ensures
        ingredient_token(name, qty, unit)[0] == '@',
        named_at(ingredient_token(name, qty, unit), 1) == Some(
            (name, trim(qty), trim(unit), ingredient_token(name, qty, unit).len() as int),
        ),
{
    let t = ingredient_token(name, qty, unit);
    let n = name.len() as int;
    let q = qty.len() as int;
    let u = unit.len() as int;
    let m = 1 + n;
    let j = m + 1 + q;
    let k = j + 1 + u;
    assert(t.len() == k + 1);
    assert(t[0] == '@');
    assert(t[m] == '{');
    assert(t[j] == '%');
    assert(t[k] == '}');
    assert forall|a: int| 1 <= a < m implies in_class(#[trigger] t[a], Class::Plain) by {
        assert(t[a] == name[a - 1]);
    }
    lemma_run_end_at(t, 1, m, Class::Plain);
    assert forall|a: int| m + 1 <= a < j implies in_class(#[trigger] t[a], Class::Qty) by {
        assert(t[a] == qty[a - m - 1]);
    }
    lemma_run_end_at(t, m + 1, j, Class::Qty);
    assert forall|a: int| j + 1 <= a < k implies in_class(#[trigger] t[a], Class::Unit) by {
        assert(t[a] == unit[a - j - 1]);
    }
    lemma_run_end_at(t, j + 1, k, Class::Unit);
    assert(t.subrange(1, m) =~= name);
    assert(t.subrange(m + 1, j) =~= qty);
    assert(t.subrange(j + 1, k) =~= unit);
    assert(amount_at(t, m) == Some((trim(qty), trim(unit), k + 1)));
}

/// A well-formed ingredient token `@name{qty%unit}` parses to one line that
/// holds one ingredient, whose quantity is `qty` trimmed and whose units are
/// `unit` trimmed, neither starting nor ending with whitespace. The name is a
/// run of characters other than `~ @ # {` and line breaks, the quantity holds
/// no line break, `}` or `%`, the units no line break or `}`, and the token
/// opens no comment.
pub proof fn lemma_ingredient_token(name: Seq<char>, qty: Seq<char>, unit: Seq<char>)
    requires
        name.len() > 0,
        forall|i: int| 0 <= i < name.len() ==> in_class(#[trigger] name[i], Class::Plain),
        forall|i: int| 0 <= i < qty.len() ==> in_class(#[trigger] qty[i], Class::Qty),
        forall|i: int| 0 <= i < unit.len() ==> in_class(#[trigger] unit[i], Class::Unit),
        comment_free(ingredient_token(name, qty, unit)),
    ensures
        parse_spec(ingredient_token(name, qty, unit)) == seq![
            seq![PartView::Ingredient { name, quantity: trim(qty), units: trim(unit) }],
        ],
        trim(qty).len() > 0 ==> !is_ws(trim(qty)[0]) && !is_ws(trim(qty).last()),
        trim(unit).len() > 0 ==> !is_ws(trim(unit)[0]) && !is_ws(trim(unit).last()),
{
    let t = ingredient_token(name, qty, unit);
    let len = t.len() as int;
    lemma_token_name(name, qty, unit);
    assert(t.last() == '}');
    lemma_strip_comment_free_text(t);
    lemma_trim_fixed(t);
    assert(prepare(t) == t);
    assert(run_end(t, 0, Class::Blank) == 0);
    assert(end_line_at(t, 0) is None);
    let p = PartView::Ingredient { name, quantity: trim(qty), units: trim(unit) };
    assert(token_at(t, 0) == (p, len));
    assert(step_from(t, len) == (Seq::<PartView>::empty(), len));
    assert(seq![p] + Seq::<PartView>::empty() =~= seq![p]);
    assert(step_from(t, 0) == (seq![p], len));
    assert(meta_at(t, 0) is None);
    assert(line_at(t, 0) == (seq![p], len));
    let line = LineView { start: 0, parts: seq![p] };
    assert(lines_from(t, len) == Seq::<LineView>::empty());
    assert(lines_from(t, 0) =~= seq![line]);
    assert(parse_spec(t) =~= seq![seq![p]]);
    lemma_trim_ends(qty);
    lemma_trim_ends(unit);
}

} // verus!
