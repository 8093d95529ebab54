//! Character-level helpers shared by the comment remover and the grammar:
//! character classes, maximal runs of a class, whitespace trimming, and
//! building strings out of character vectors.
use vstd::prelude::*;

verus! {

/// Unicode's `White_Space` property, which `char::is_whitespace` tests.
pub open spec fn is_ws(c: char) -> bool {
    ('\u{9}' <= c && c <= '\u{d}') || c == ' ' || c == '\u{85}' || c == '\u{a0}' || c == '\u{1680}'
        || ('\u{2000}' <= c && c <= '\u{200a}') || c == '\u{2028}' || c == '\u{2029}' || c
        == '\u{202f}' || c == '\u{205f}' || c == '\u{3000}'
}

/// Relies on `char::is_whitespace`: true exactly for the characters of
/// Unicode's `White_Space` property.
pub assume_specification[ char::is_whitespace ](c: char) -> (r: bool)
    ensures
        r == is_ws(c),
;

/// Relies on `String::push`: appends one character at the end.
pub assume_specification[ String::push ](s: &mut String, ch: char)
    ensures
        final(s)@ == old(s)@.push(ch),
;

/// The character classes that the grammar scans runs of.
#[derive(Clone, Copy, Debug, PartialEq, Eq)]
pub enum Class {
    /// Free text: anything but `~ @ # {` and line breaks.
    Plain,
    /// A single word: anything but `~ @ # {`, blanks, line breaks and `. , ;`.
    Word,
    /// A quantity inside an amount block: anything but line breaks, `}` and `%`.
    Qty,
    /// Units inside an amount block: anything but line breaks and `}`.
    Unit,
    /// A blank: space or tab.
    Blank,
    /// A line break: `\n` or `\r`.
    Newline,
    /// Anything but `:`.
    NotColon,
    /// Anything but `\n`.
    NotNewline,
    /// Unicode whitespace.
    Space,
}

pub open spec fn is_newline(c: char) -> bool {
    c == '\n' || c == '\r'
}

/// The four characters that start an entity or an amount block.
pub open spec fn is_marker(c: char) -> bool {
    c == '~' || c == '@' || c == '#' || c == '{'
}

pub open spec fn in_class(c: char, k: Class) -> bool {
    match k {
        Class::Plain => !is_marker(c) && !is_newline(c),
        Class::Word => !is_marker(c) && !is_newline(c) && c != ' ' && c != '\t' && c != '.' && c
            != ',' && c != ';',
        Class::Qty => !is_newline(c) && c != '}' && c != '%',
        Class::Unit => !is_newline(c) && c != '}',
        Class::Blank => c == ' ' || c == '\t',
        Class::Newline => is_newline(c),
        Class::NotColon => c != ':',
        Class::NotNewline => c != '\n',
        Class::Space => is_ws(c),
    }
}

pub fn has_class(c: char, k: Class) -> (r: bool)
    ensures
        r == in_class(c, k),
{
    match k {
        Class::Plain => !(c == '~' || c == '@' || c == '#' || c == '{' || c == '\n' || c == '\r'),
        Class::Word => !(c == '~' || c == '@' || c == '#' || c == '{' || c == '\n' || c == '\r'
            || c == ' ' || c == '\t' || c == '.' || c == ',' || c == ';'),
        Class::Qty => !(c == '\n' || c == '\r' || c == '}' || c == '%'),
        Class::Unit => !(c == '\n' || c == '\r' || c == '}'),
        Class::Blank => c == ' ' || c == '\t',
        Class::Newline => c == '\n' || c == '\r',
        Class::NotColon => c != ':',
        Class::NotNewline => c != '\n',
        Class::Space => c.is_whitespace(),
    }
}

/// The end of the maximal run of class `k` that starts at `i`.
pub open spec fn run_end(s: Seq<char>, i: int, k: Class) -> int
    decreases s.len() - i,
{
    if 0 <= i < s.len() && in_class(s[i], k) {
        run_end(s, i + 1, k)
    } else {
        i
    }
}

pub proof fn lemma_run_end(s: Seq<char>, i: int, k: Class)
    requires
        0 <= i <= s.len(),
    ensures
        i <= run_end(s, i, k) <= s.len(),
        forall|j: int| i <= j < run_end(s, i, k) ==> in_class(#[trigger] s[j], k),
        run_end(s, i, k) < s.len() ==> !in_class(s[run_end(s, i, k)], k),
    decreases s.len() - i,
{
    if i < s.len() && in_class(s[i], k) {
        lemma_run_end(s, i + 1, k);
    }
}

/// A run of class `k` from `i` to `b` that cannot be extended ends at `b`.
pub proof fn lemma_run_end_at(s: Seq<char>, i: int, b: int, k: Class)
    requires
        0 <= i <= b <= s.len(),
        forall|j: int| i <= j < b ==> in_class(#[trigger] s[j], k),
        b == s.len() || !in_class(s[b], k),
    ensures
        run_end(s, i, k) == b,
    decreases b - i,
{
    if i < b {
        lemma_run_end_at(s, i + 1, b, k);
    }
}

/// The maximal run of class `k` starting at `i`.
pub fn scan(t: &Vec<char>, i: usize, k: Class) -> (r: usize)
    requires
        i <= t.len(),
    ensures
        r == run_end(t@, i as int, k),
        i <= r <= t.len(),
{
    let mut j: usize = i;
    while j < t.len() && has_class(t[j], k)
        invariant
            i <= j <= t.len(),
            run_end(t@, i as int, k) == run_end(t@, j as int, k),
        decreases t.len() - j,
    {
        j = j + 1;
    }
    j
}

/// Where the trailing whitespace of `s[lo..j]` starts.
pub open spec fn back_ws(s: Seq<char>, lo: int, j: int) -> int
    decreases j - lo,
{
    if lo < j <= s.len() && is_ws(s[j - 1]) {
        back_ws(s, lo, j - 1)
    } else {
        j
    }
}

pub proof fn lemma_back_ws(s: Seq<char>, lo: int, j: int)
    requires
        0 <= lo <= j <= s.len(),
    ensures
        lo <= back_ws(s, lo, j) <= j,
        back_ws(s, lo, j) > lo ==> !is_ws(s[back_ws(s, lo, j) - 1]),
    decreases j - lo,
{
    if lo < j && is_ws(s[j - 1]) {
        lemma_back_ws(s, lo, j - 1);
    }
}

pub open spec fn trim_lo(s: Seq<char>) -> int {
    run_end(s, 0, Class::Space)
}

pub open spec fn trim_hi(s: Seq<char>) -> int {
    back_ws(s, trim_lo(s), s.len() as int)
}

/// `s` without its leading and trailing whitespace.
pub open spec fn trim(s: Seq<char>) -> Seq<char> {
    s.subrange(trim_lo(s), trim_hi(s))
}

pub proof fn lemma_trim_bounds(s: Seq<char>)
    ensures
        0 <= trim_lo(s) <= trim_hi(s) <= s.len(),
        trim_lo(s) < trim_hi(s) ==> !is_ws(s[trim_lo(s)]) && !is_ws(s[trim_hi(s) - 1]),
{
    lemma_run_end(s, 0, Class::Space);
    lemma_back_ws(s, trim_lo(s), s.len() as int);
}

/// A trimmed text neither starts nor ends with whitespace.
pub proof fn lemma_trim_ends(s: Seq<char>)
    ensures
        trim(s).len() > 0 ==> !is_ws(trim(s)[0]) && !is_ws(trim(s).last()),
{
    lemma_trim_bounds(s);
}

/// A text that neither starts nor ends with whitespace is its own trim.
pub proof fn lemma_trim_fixed(s: Seq<char>)
    requires
        s.len() > 0 ==> !is_ws(s[0]) && !is_ws(s.last()),
    ensures
        trim(s) == s,
{
    if s.len() > 0 {
        assert(run_end(s, 0, Class::Space) == 0);
        assert(back_ws(s, 0, s.len() as int) == s.len());
    }
    assert(trim(s) =~= s);
}

/// Trimming twice trims no more than trimming once.
pub proof fn lemma_trim_idempotent(s: Seq<char>)
    ensures
        trim(trim(s)) == trim(s),
{
    lemma_trim_ends(s);
    lemma_trim_fixed(trim(s));
}

/// The bounds of `t[a..b]` with its leading and trailing whitespace left out.
pub fn trim_range(t: &Vec<char>, a: usize, b: usize) -> (r: (usize, usize))
    requires
        a <= b <= t.len(),
    ensures
        a <= r.0 <= r.1 <= b,
        t@.subrange(r.0 as int, r.1 as int) == trim(t@.subrange(a as int, b as int)),
        r.0 - a == trim_lo(t@.subrange(a as int, b as int)),
        r.1 - a == trim_hi(t@.subrange(a as int, b as int)),
{
    let ghost sub = t@.subrange(a as int, b as int);
    let mut i: usize = a;
    while i < b && t[i].is_whitespace()
        invariant
            a <= i <= b <= t.len(),
            sub == t@.subrange(a as int, b as int),
            run_end(sub, 0, Class::Space) == run_end(sub, i - a, Class::Space),
        decreases b - i,
    {
        assert(sub[i - a] == t@[i as int]);
        i = i + 1;
    }
    assert(run_end(sub, i - a, Class::Space) == i - a);
    let mut j: usize = b;
    while j > i && t[j - 1].is_whitespace()
        invariant
            a <= i <= j <= b <= t.len(),
            sub == t@.subrange(a as int, b as int),
            back_ws(sub, i - a, b - a) == back_ws(sub, i - a, j - a),
        decreases j,
    {
        assert(sub[j - 1 - a] == t@[j - 1]);
        j = j - 1;
    }
    assert(back_ws(sub, i - a, j - a) == j - a);
    assert(t@.subrange(i as int, j as int) =~= sub.subrange(i - a, j - a));
    (i, j)
}

/// The characters `t[lo..hi]` as a string.
pub fn text_of(t: &Vec<char>, lo: usize, hi: usize) -> (r: String)
    requires
        lo <= hi <= t.len(),
    ensures
        r@ == t@.subrange(lo as int, hi as int),
{
    let mut s = String::new();
    let mut i: usize = lo;
    while i < hi
        invariant
            lo <= i <= hi <= t.len(),
            s@ == t@.subrange(lo as int, i as int),
        decreases hi - i,
    {
        s.push(t[i]);
        assert(t@.subrange(lo as int, i + 1) =~= t@.subrange(lo as int, i as int).push(t@[i as int]));
        i = i + 1;
    }
    s
}

/// The characters `t[lo..hi]`, trimmed, as a string.
pub fn trimmed_text(t: &Vec<char>, lo: usize, hi: usize) -> (r: String)
    requires
        lo <= hi <= t.len(),
    ensures
        r@ == trim(t@.subrange(lo as int, hi as int)),
{
    let (a, b) = trim_range(t, lo, hi);
    text_of(t, a, b)
}

/// `s` without its leading and trailing whitespace.
pub fn trim_spaces(s: &str) -> (r: String)
    ensures
        r@ == trim(s@),
{
    let v = chars_of(s);
    let r = trimmed_text(&v, 0, v.len());
    assert(v@.subrange(0, v@.len() as int) =~= s@);
    r
}

/// The characters of `s`, one per element.
pub fn chars_of(s: &str) -> (r: Vec<char>)
    ensures
        r@ == s@,
{
    let mut out: Vec<char> = Vec::new();
    for c in it: s.chars()
        invariant
            it.seq() == s@,
            out@ == s@.subrange(0, it.index() as int),
    {
        out.push(c);
    }
    assert(out@ =~= s@);
    out
}

} // verus!
