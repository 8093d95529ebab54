//! The recipe grammar, stated over character sequences.
//!
//! A text is first freed of comments and trimmed. It is then read line by
//! line from position 0. A line is either a metadata declaration
//! (`>> key: value`) or a step: a run of tokens up to a line break. The
//! tokens are tried in order (timer, cookware, ingredient, text) and the first
//! that matches is taken. Text that trims to nothing is left out, and so are
//! lines left without parts.
use vstd::prelude::*;
use crate::chars::{Class, is_newline, run_end, trim};
use crate::comment::strip;
use crate::model::PartView;

verus! {

/// A line of the document and the position in the prepared text where it starts.
pub struct LineView {
    pub start: int,
    pub parts: Seq<PartView>,
}

/// The text that the grammar reads: comments removed, then trimmed.
pub open spec fn prepare(input: Seq<char>) -> Seq<char> {
    trim(strip(input))
}

/// Blanks, then one or more line breaks: where the line that follows starts.
pub open spec fn end_line_at(t: Seq<char>, i: int) -> Option<int> {
    let s = run_end(t, i, Class::Blank);
    if 0 <= s < t.len() && is_newline(t[s]) {
        Some(run_end(t, s, Class::Newline))
    } else {
        None
    }
}

/// An amount block `{quantity}` or `{quantity%units}` at `m`: the trimmed
/// quantity and units, and where the block ends.
pub open spec fn amount_at(t: Seq<char>, m: int) -> Option<(Seq<char>, Seq<char>, int)> {
    if 0 <= m < t.len() && t[m] == '{' {
        let j = run_end(t, m + 1, Class::Qty);
        if j < t.len() && t[j] == '}' {
            Some((trim(t.subrange(m + 1, j)), Seq::empty(), j + 1))
        } else if j < t.len() && t[j] == '%' {
            let k = run_end(t, j + 1, Class::Unit);
            if k < t.len() && t[k] == '}' {
                Some((trim(t.subrange(m + 1, j)), trim(t.subrange(j + 1, k)), k + 1))
            } else {
                None
            }
        } else {
            None
        }
    } else {
        None
    }
}

/// The name of an entity at `a`: a run of several words closed by an amount
/// block, or else a single word. Gives the name, quantity, units and the end.
pub open spec fn named_at(t: Seq<char>, a: int) -> Option<(Seq<char>, Seq<char>, Seq<char>, int)> {
    let m = run_end(t, a, Class::Plain);
    let w = run_end(t, a, Class::Word);
    if m > a && amount_at(t, m) is Some {
        let am = amount_at(t, m)->0;
        Some((t.subrange(a, m), am.0, am.1, am.2))
    } else if w > a {
        Some((t.subrange(a, w), Seq::empty(), Seq::empty(), w))
    } else {
        None
    }
}

/// `~` after optional blanks, then a name, or an amount block alone.
pub open spec fn timer_at(t: Seq<char>, i: int) -> Option<(PartView, int)> {
    let s = run_end(t, i, Class::Blank);
    if 0 <= s < t.len() && t[s] == '~' {
        if named_at(t, s + 1) is Some {
            let n = named_at(t, s + 1)->0;
            Some((PartView::Timer { name: n.0, quantity: n.1, units: n.2 }, n.3))
        } else if amount_at(t, s + 1) is Some {
            let am = amount_at(t, s + 1)->0;
            Some((PartView::Timer { name: Seq::empty(), quantity: am.0, units: am.1 }, am.2))
        } else {
            None
        }
    } else {
        None
    }
}

/// `#` after optional blanks, then a name; units are not kept.
pub open spec fn cookware_at(t: Seq<char>, i: int) -> Option<(PartView, int)> {
    let s = run_end(t, i, Class::Blank);
    if 0 <= s < t.len() && t[s] == '#' && named_at(t, s + 1) is Some {
        let n = named_at(t, s + 1)->0;
        Some((PartView::Cookware { name: n.0, quantity: n.1 }, n.3))
    } else {
        None
    }
}

/// `@`, then a name.
pub open spec fn ingredient_at(t: Seq<char>, i: int) -> Option<(PartView, int)> {
    if 0 <= i < t.len() && t[i] == '@' && named_at(t, i + 1) is Some {
        let n = named_at(t, i + 1)->0;
        Some((PartView::Ingredient { name: n.0, quantity: n.1, units: n.2 }, n.3))
    } else {
        None
    }
}

/// Free text up to the next marker or line break, trimmed. A marker that
/// starts no entity is read as text together with the text after it.
pub open spec fn text_at(t: Seq<char>, i: int) -> (PartView, int) {
    let e = run_end(t, i, Class::Plain);
    let e2 = if e > i {
        e
    } else {
        run_end(t, i + 1, Class::Plain)
    };
    (PartView::Text { value: trim(t.subrange(i, e2)) }, e2)
}

/// The first of timer, cookware, ingredient and text that matches at `i`.
pub open spec fn token_at(t: Seq<char>, i: int) -> (PartView, int) {
    if timer_at(t, i) is Some {
        timer_at(t, i)->0
    } else if cookware_at(t, i) is Some {
        cookware_at(t, i)->0
    } else if ingredient_at(t, i) is Some {
        ingredient_at(t, i)->0
    } else {
        text_at(t, i)
    }
}

/// A part is kept unless it is text that trims to nothing.
pub open spec fn kept_part(p: PartView) -> bool {
    match p {
        PartView::Text { value } => value.len() > 0,
        _ => true,
    }
}

/// The parts of the step that starts at `i`, and where the next line starts.
/// Every token consumes at least one character and stays within `t`; the
/// guard on `j` only makes the measure evident.
pub open spec fn step_from(t: Seq<char>, i: int) -> (Seq<PartView>, int)
    decreases t.len() - i,
{
    if i < 0 || i >= t.len() {
        (Seq::empty(), i)
    } else if end_line_at(t, i) is Some {
        (Seq::empty(), end_line_at(t, i)->0)
    } else {
        let (p, j) = token_at(t, i);
        if j <= i || j > t.len() {
            (Seq::empty(), i)
        } else {
            let rest = step_from(t, j);
            (
                if kept_part(p) {
                    seq![p] + rest.0
                } else {
                    rest.0
                },
                rest.1,
            )
        }
    }
}

/// `>>`, a key up to the first `:`, and a value up to the end of the line.
pub open spec fn meta_at(t: Seq<char>, i: int) -> Option<(PartView, int)> {
    if 0 <= i && i + 1 < t.len() && t[i] == '>' && t[i + 1] == '>' {
        let c = run_end(t, i + 2, Class::NotColon);
        if c < t.len() {
            let v = run_end(t, c + 1, Class::NotNewline);
            Some(
                (
                    PartView::Metadata {
                        key: trim(t.subrange(i + 2, c)),
                        value: trim(t.subrange(c + 1, v)),
                    },
                    v,
                ),
            )
        } else {
            None
        }
    } else {
        None
    }
}

/// The line at `i`: a metadata declaration if one starts there, else a step.
pub open spec fn line_at(t: Seq<char>, i: int) -> (Seq<PartView>, int) {
    if meta_at(t, i) is Some {
        let m = meta_at(t, i)->0;
        (seq![m.0], m.1)
    } else {
        step_from(t, i)
    }
}

/// The non-empty lines of `t` from `i` on.
pub open spec fn lines_from(t: Seq<char>, i: int) -> Seq<LineView>
    decreases t.len() - i,
{
    if i < 0 || i >= t.len() {
        Seq::empty()
    } else {
        let (parts, j) = line_at(t, i);
        if j <= i || j > t.len() {
            Seq::empty()
        } else if parts.len() > 0 {
            seq![LineView { start: i, parts }] + lines_from(t, j)
        } else {
            lines_from(t, j)
        }
    }
}

/// The lines of a recipe text.
pub open spec fn document(input: Seq<char>) -> Seq<LineView> {
    lines_from(prepare(input), 0)
}

/// The parsed form of a recipe text: its lines, each a list of parts.
pub open spec fn parse_spec(input: Seq<char>) -> Seq<Seq<PartView>> {
    document(input).map_values(|l: LineView| l.parts)
}

} // verus!
