//! Inlay hints: a "step N: " label at the line where each step starts.
use vstd::prelude::*;

verus! {

pub open spec fn digit(d: int) -> char {
    if d == 0 {
        '0'
    } else if d == 1 {
        '1'
    } else if d == 2 {
        '2'
    } else if d == 3 {
        '3'
    } else if d == 4 {
        '4'
    } else if d == 5 {
        '5'
    } else if d == 6 {
        '6'
    } else if d == 7 {
        '7'
    } else if d == 8 {
        '8'
    } else {
        '9'
    }
}

/// The decimal digits of `n`, most significant first.
pub open spec fn decimal(n: nat) -> Seq<char>
    decreases n,
{
    if n < 10 {
        seq![digit(n as int)]
    } else {
        decimal(n / 10).push(digit((n % 10) as int))
    }
}

/// The label of the `n`-th step: `step n: `.
pub open spec fn step_label(n: nat) -> Seq<char> {
    seq!['s', 't', 'e', 'p', ' '] + decimal(n) + seq![':', ' ']
}

fn digit_char(d: usize) -> (r: char)
    requires
        d < 10,
    ensures
        r == digit(d as int),
{
    if d == 0 {
        '0'
    } else if d == 1 {
        '1'
    } else if d == 2 {
        '2'
    } else if d == 3 {
        '3'
    } else if d == 4 {
        '4'
    } else if d == 5 {
        '5'
    } else if d == 6 {
        '6'
    } else if d == 7 {
        '7'
    } else if d == 8 {
        '8'
    } else {
        '9'
    }
}

/// `n` written in decimal.
pub fn decimal_text(n: usize) -> (r: String)
    ensures
        r@ == decimal(n as nat),
    decreases n,
{
    if n < 10 {
        let mut s = String::new();
        s.push(digit_char(n));
        assert(s@ =~= seq![digit(n as int)]);
        s
    } else {
        let mut s = decimal_text(n / 10);
        s.push(digit_char(n % 10));
        s
    }
}

/// A label to show at the start of a line.
#[derive(Debug, PartialEq, Eq)]
pub struct StepHint {
    /// The 0-based line.
    pub line: usize,
    pub label: String,
}

/// One hint per step line, in order: the `i`-th line gets the label of step
/// `i + 1`.
pub fn step_hints(lines: &Vec<usize>) -> (r: Vec<StepHint>)
    ensures
        r.len() == lines.len(),
        forall|i: int|
            0 <= i < r.len() ==> (#[trigger] r@[i]).line == lines@[i] && r@[i].label@
                == step_label((i + 1) as nat),
{
    let mut out: Vec<StepHint> = Vec::new();
    let mut i: usize = 0;
    while i < lines.len()
        invariant
            i <= lines.len(),
            out.len() == i,
            forall|j: int|
                0 <= j < i ==> (#[trigger] out@[j]).line == lines@[j] && out@[j].label@
                    == step_label((j + 1) as nat),
        decreases lines.len() - i,
    {
        let mut label = String::new();
        label.push('s');
        label.push('t');
        label.push('e');
        label.push('p');
        label.push(' ');
        let number = decimal_text(i + 1);
        label.append(number.as_str());
        label.push(':');
        label.push(' ');
        assert(label@ =~= step_label((i + 1) as nat));
        out.push(StepHint { line: lines[i], label });
        i = i + 1;
    }
    out
}

} // verus!
