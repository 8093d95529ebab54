//! One index entry per document, and the events that move it through its
//! lifecycle. Raw text follows every open, change and save; the derived data
//! (names and step lines) is recomputed only on save and on the initial
//! workspace scan, so that completion does not offer the word being typed.
use vstd::prelude::*;
use crate::grammar::document;
use crate::recipe_index::{
    Entity, doc_names, index_source, rows_view, step_rows, texts_view,
};

verus! {

/// `c` put in front of each of `names`.
pub open spec fn tagged(c: char, names: Seq<Seq<char>>) -> Seq<Seq<char>> {
    names.map_values(|n: Seq<char>| seq![c] + n)
}

/// `v` holds the texts of `names`, each once, in some order.
pub open spec fn lists_once(v: Seq<String>, names: Seq<Seq<char>>) -> bool {
    &&& texts_view(v).no_duplicates()
    &&& forall|x: Seq<char>| texts_view(v).contains(x) <==> names.contains(x)
}

/// What the index derives from one recipe text.
#[derive(Debug)]
pub struct FileIndex {
    /// The ingredient names, each behind `@`, each once.
    pub ingredients: Vec<String>,
    /// The cookware names, each behind `#`, each once.
    pub cookwares: Vec<String>,
    /// The 0-based lines on which the steps start, in order.
    pub step_lines: Vec<usize>,
}

/// `d` is what the index derives from `text`.
pub open spec fn indexes(d: FileIndex, text: Seq<char>) -> bool {
    &&& lists_once(d.ingredients@, tagged('@', doc_names(document(text), Entity::Ingredient)))
    &&& lists_once(d.cookwares@, tagged('#', doc_names(document(text), Entity::Cookware)))
    &&& rows_view(d.step_lines@) == step_rows(text, document(text))
}

/// Whether `v` holds a string equal to `s`.
fn holds(v: &Vec<String>, s: &String) -> (r: bool)
    ensures
        r == texts_view(v@).contains(s@),
{
    let mut i: usize = 0;
    while i < v.len()
        invariant
            i <= v.len(),
            forall|j: int| 0 <= j < i ==> v@[j]@ != s@,
        decreases v.len() - i,
    {
        if v[i] == *s {
            assert(texts_view(v@)[i as int] == s@);
            return true;
        }
        i = i + 1;
    }
    assert(!texts_view(v@).contains(s@)) by {
        if texts_view(v@).contains(s@) {
            let j = choose|j: int| 0 <= j < texts_view(v@).len() && texts_view(v@)[j] == s@;
            assert(v@[j]@ == s@);
        }
    }
    false
}

/// Adds `s` to `v` unless `v` holds it already.
fn add_once(v: &mut Vec<String>, s: String)
    requires
        texts_view(old(v)@).no_duplicates(),
    ensures
        texts_view(final(v)@).no_duplicates(),
        forall|x: Seq<char>|
            #[trigger] texts_view(final(v)@).contains(x) <==> texts_view(old(v)@).contains(x) || x
                == s@,
{
    if !holds(v, &s) {
        let ghost before = texts_view(v@);
        v.push(s);
        assert(texts_view(v@) =~= before.push(s@));
        assert forall|x: Seq<char>| texts_view(v@).contains(x) <==> before.contains(x)
            || x == s@ by {
            if x == s@ {
                assert(texts_view(v@)[before.len() as int] == x);
            }
            if before.contains(x) {
                let j = choose|j: int| 0 <= j < before.len() && before[j] == x;
                assert(texts_view(v@)[j] == x);
            }
            if texts_view(v@).contains(x) && x != s@ {
                let j = choose|j: int| 0 <= j < texts_view(v@).len() && texts_view(v@)[j] == x;
                assert(j < before.len());
                assert(before[j] == x);
            }
        }
    }
}

/// Adds to `v` each string of `w` that `v` does not hold yet.
fn add_all(v: &mut Vec<String>, w: &Vec<String>)
    requires
        texts_view(old(v)@).no_duplicates(),
    ensures
        texts_view(final(v)@).no_duplicates(),
        forall|x: Seq<char>|
            #[trigger] texts_view(final(v)@).contains(x) <==> texts_view(old(v)@).contains(x)
                || texts_view(w@).contains(x),
{
    let mut i: usize = 0;
    while i < w.len()
        invariant
            i <= w.len(),
            texts_view(v@).no_duplicates(),
            forall|x: Seq<char>|
                texts_view(v@).contains(x) <==> texts_view(old(v)@).contains(x) || texts_view(
                    w@.subrange(0, i as int),
                ).contains(x),
        decreases w.len() - i,
    {
        let ghost pre = texts_view(w@.subrange(0, i as int));
        let ghost cur = texts_view(w@.subrange(0, i + 1));
        assert(cur =~= pre.push(w@[i as int]@));
        assert forall|x: Seq<char>| cur.contains(x) <==> pre.contains(x) || x == w@[i as int]@ by {
            if x == w@[i as int]@ {
                assert(cur[i as int] == x);
            }
            if pre.contains(x) {
                let j = choose|j: int| 0 <= j < pre.len() && pre[j] == x;
                assert(cur[j] == x);
            }
            if cur.contains(x) && x != w@[i as int]@ {
                let j = choose|j: int| 0 <= j < cur.len() && cur[j] == x;
                assert(pre[j] == x);
            }
        }
        add_once(v, w[i].clone());
        i = i + 1;
    }
    assert(w@.subrange(0, i as int) =~= w@);
}

/// Each of `names` behind `c`, each once.
fn tag_all(c: char, names: &Vec<String>) -> (r: Vec<String>)
    ensures
        lists_once(r@, tagged(c, texts_view(names@))),
{
    let mut out: Vec<String> = Vec::new();
    let mut i: usize = 0;
    assert(texts_view(out@) =~= Seq::<Seq<char>>::empty());
    while i < names.len()
        invariant
            i <= names.len(),
            texts_view(out@).no_duplicates(),
            forall|x: Seq<char>|
                texts_view(out@).contains(x) <==> tagged(c, texts_view(names@.subrange(0, i as int))).contains(x),
        decreases names.len() - i,
    {
        let mut t = String::new();
        t.push(c);
        t.append(names[i].as_str());
        let ghost pre = tagged(c, texts_view(names@.subrange(0, i as int)));
        let ghost cur = tagged(c, texts_view(names@.subrange(0, i + 1)));
        assert(cur =~= pre.push(t@));
        assert forall|x: Seq<char>| cur.contains(x) <==> pre.contains(x) || x == t@ by {
            if x == t@ {
                assert(cur[i as int] == x);
            }
            if pre.contains(x) {
                let j = choose|j: int| 0 <= j < pre.len() && pre[j] == x;
                assert(cur[j] == x);
            }
            if cur.contains(x) && x != t@ {
                let j = choose|j: int| 0 <= j < cur.len() && cur[j] == x;
                assert(pre[j] == x);
            }
        }
        add_once(&mut out, t);
        i = i + 1;
    }
    assert(names@.subrange(0, i as int) =~= names@);
    out
}

/// Parses a recipe text and derives its index data: its ingredient names
/// behind `@` and its cookware names behind `#`, each once, and the lines on
/// which its steps start.
pub fn process_str(text: &str) -> (r: FileIndex)
    ensures
        indexes(r, text@),
{
    let parsed = index_source(text);
    let ingredients = tag_all('@', &parsed.ingredients);
    let cookwares = tag_all('#', &parsed.cookwares);
    FileIndex { ingredients, cookwares, step_lines: parsed.step_lines }
}

fn copy_texts(v: &Vec<String>) -> (r: Vec<String>)
    ensures
        r@ == v@,
{
    let mut out: Vec<String> = Vec::new();
    let mut i: usize = 0;
    while i < v.len()
        invariant
            i <= v.len(),
            out@ == v@.subrange(0, i as int),
        decreases v.len() - i,
    {
        out.push(v[i].clone());
        assert(out@ =~= v@.subrange(0, i + 1));
        i = i + 1;
    }
    assert(out@ =~= v@);
    out
}

fn copy_lines(v: &Vec<usize>) -> (r: Vec<usize>)
    ensures
        r@ == v@,
{
    let mut out: Vec<usize> = Vec::new();
    let mut i: usize = 0;
    while i < v.len()
        invariant
            i <= v.len(),
            out@ == v@.subrange(0, i as int),
        decreases v.len() - i,
    {
        out.push(v[i]);
        assert(out@ =~= v@.subrange(0, i + 1));
        i = i + 1;
    }
    assert(out@ =~= v@);
    out
}

/// `a` and `b` hold the same data.
pub open spec fn same_index(a: FileIndex, b: FileIndex) -> bool {
    a.ingredients@ == b.ingredients@ && a.cookwares@ == b.cookwares@ && a.step_lines@
        == b.step_lines@
}

impl FileIndex {
    pub fn duplicate(&self) -> (r: FileIndex)
        ensures
            same_index(r, *self),
    {
        FileIndex {
            ingredients: copy_texts(&self.ingredients),
            cookwares: copy_texts(&self.cookwares),
            step_lines: copy_lines(&self.step_lines),
        }
    }
}

/// Where a document stands: never seen, opened with its text cached, or
/// indexed (its derived data reflects the last save or the workspace scan).
#[derive(Clone, Copy, Debug, PartialEq, Eq, Structural)]
pub enum DocState {
    Unopened,
    Opened,
    Indexed,
}

/// An event of a document's lifecycle, with the text that comes with it.
#[derive(Debug)]
pub enum DocEvent {
    /// The editor opened the document.
    Open(String),
    /// The editor changed the document, unsaved.
    Change(String),
    /// The editor saved the document.
    Save(String),
    /// The workspace scan read the document from disk.
    Scan(String),
}

/// What the index keeps of one document.
#[derive(Debug)]
pub struct DocEntry {
    /// The latest text the editor sent; may be ahead of `derived`.
    pub raw_text: Option<String>,
    /// The data derived from the last saved or scanned text.
    pub derived: Option<FileIndex>,
}

pub open spec fn state_of(e: DocEntry) -> DocState {
    if e.derived is Some {
        DocState::Indexed
    } else if e.raw_text is Some {
        DocState::Opened
    } else {
        DocState::Unopened
    }
}

impl DocEntry {
    /// An entry for a document that nothing has been heard of yet.
    pub fn unopened() -> (r: DocEntry)
        ensures
            r.raw_text is None,
            r.derived is None,
    {
        DocEntry { raw_text: None, derived: None }
    }

    /// The entry once `ev` has happened to it. Open and change replace the
    /// raw text only; save replaces the raw text and rederives the data from
    /// it; the scan derives the data and leaves the raw text alone.
    pub fn after(self, ev: DocEvent) -> (r: DocEntry)
        ensures
            match ev {
                DocEvent::Open(t) => r.raw_text == Some(t) && r.derived == self.derived,
                DocEvent::Change(t) => r.raw_text == Some(t) && r.derived == self.derived,
                DocEvent::Save(t) => r.raw_text == Some(t) && (r.derived matches Some(d)
                    && indexes(d, t@)),
                DocEvent::Scan(t) => r.raw_text == self.raw_text && (r.derived matches Some(d)
                    && indexes(d, t@)),
            },
    {
        match ev {
            DocEvent::Open(t) => DocEntry { raw_text: Some(t), derived: self.derived },
            DocEvent::Change(t) => DocEntry { raw_text: Some(t), derived: self.derived },
            DocEvent::Save(t) => {
                let d = process_str(t.as_str());
                DocEntry { raw_text: Some(t), derived: Some(d) }
            },
            DocEvent::Scan(t) => {
                let d = process_str(t.as_str());
                DocEntry { raw_text: self.raw_text, derived: Some(d) }
            },
        }
    }

    pub fn state(&self) -> (r: DocState)
        ensures
            r == state_of(*self),
    {
        match (&self.derived, &self.raw_text) {
            (Some(_), _) => DocState::Indexed,
            (None, Some(_)) => DocState::Opened,
            (None, None) => DocState::Unopened,
        }
    }

    /// The cached raw text, if any.
    pub fn raw_text(&self) -> (r: Option<String>)
        ensures
            r == self.raw_text,
    {
        match &self.raw_text {
            Some(t) => Some(t.clone()),
            None => None,
        }
    }

    /// The step lines of the last saved or scanned text; `None` while the
    /// document has not been indexed.
    pub fn step_lines(&self) -> (r: Option<Vec<usize>>)
        ensures
            r is Some <==> self.derived is Some,
            r matches Some(v) ==> v@ == self.derived->0.step_lines@,
    {
        match &self.derived {
            Some(d) => Some(copy_lines(&d.step_lines)),
            None => None,
        }
    }

    pub fn duplicate(&self) -> (r: DocEntry)
        ensures
            same_entry(r, *self),
    {
        let derived = match &self.derived {
            Some(d) => Some(d.duplicate()),
            None => None,
        };
        DocEntry { raw_text: self.raw_text(), derived }
    }
}

/// `a` and `b` hold the same text and data.
pub open spec fn same_entry(a: DocEntry, b: DocEntry) -> bool {
    &&& a.raw_text == b.raw_text
    &&& match (a.derived, b.derived) {
        (Some(x), Some(y)) => same_index(x, y),
        (None, None) => true,
        _ => false,
    }
}

proof fn lemma_offered_next(
    user_ingredients: Seq<String>,
    user_cookwares: Seq<String>,
    entries: Seq<DocEntry>,
    i: int,
    x: Seq<char>,
)
    requires
        0 <= i < entries.len(),
    ensures
        offered(user_ingredients, user_cookwares, entries.subrange(0, i + 1), x) <==> offered(
            user_ingredients,
            user_cookwares,
            entries.subrange(0, i),
            x,
        ) || entry_offers(entries[i], x),
{
    let pre = entries.subrange(0, i);
    let cur = entries.subrange(0, i + 1);
    assert(cur[i] == entries[i]);
    if exists|j: int| 0 <= j < cur.len() && entry_offers(#[trigger] cur[j], x) {
        let j = choose|j: int| 0 <= j < cur.len() && entry_offers(#[trigger] cur[j], x);
        if j < i {
            assert(pre[j] == cur[j]);
        }
    }
    if exists|j: int| 0 <= j < pre.len() && entry_offers(#[trigger] pre[j], x) {
        let j = choose|j: int| 0 <= j < pre.len() && entry_offers(#[trigger] pre[j], x);
        assert(cur[j] == pre[j]);
    }
}

/// The document entry `e` offers `x` to completion.
pub open spec fn entry_offers(e: DocEntry, x: Seq<char>) -> bool {
    match e.derived {
        Some(d) => texts_view(d.ingredients@).contains(x) || texts_view(d.cookwares@).contains(x),
        None => false,
    }
}

/// `x` is a user-configured name or a name that one of `entries` offers.
pub open spec fn offered(
    user_ingredients: Seq<String>,
    user_cookwares: Seq<String>,
    entries: Seq<DocEntry>,
    x: Seq<char>,
) -> bool {
    ||| texts_view(user_ingredients).contains(x)
    ||| texts_view(user_cookwares).contains(x)
    ||| exists|i: int| 0 <= i < entries.len() && entry_offers(#[trigger] entries[i], x)
}

/// The names that completion offers: the user-configured names and every
/// indexed document's ingredient and cookware names, each once, unsorted.
pub fn completion_names(
    user_ingredients: &Vec<String>,
    user_cookwares: &Vec<String>,
    entries: &Vec<DocEntry>,
) -> (r: Vec<String>)
    ensures
        texts_view(r@).no_duplicates(),
        forall|x: Seq<char>|
            texts_view(r@).contains(x) <==> offered(
                user_ingredients@,
                user_cookwares@,
                entries@,
                x,
            ),
{
    let mut out: Vec<String> = Vec::new();
    let ghost s0 = texts_view(out@);
    assert(s0 =~= Seq::<Seq<char>>::empty());
    add_all(&mut out, user_ingredients);
    let ghost s1 = texts_view(out@);
    add_all(&mut out, user_cookwares);
    let mut i: usize = 0;
    assert forall|x: Seq<char>| texts_view(out@).contains(x) <==> offered(
        user_ingredients@,
        user_cookwares@,
        entries@.subrange(0, 0),
        x,
    ) by {
        assert(!s0.contains(x));
        assert(s1.contains(x) <==> texts_view(user_ingredients@).contains(x));
        assert(entries@.subrange(0, 0).len() == 0);
    }
    while i < entries.len()
        invariant
            i <= entries.len(),
            texts_view(out@).no_duplicates(),
            forall|x: Seq<char>|
                texts_view(out@).contains(x) <==> offered(
                    user_ingredients@,
                    user_cookwares@,
                    entries@.subrange(0, i as int),
                    x,
                ),
        decreases entries.len() - i,
    {
        let ghost before = texts_view(out@);
        match &entries[i].derived {
            Some(d) => {
                add_all(&mut out, &d.ingredients);
                let ghost mid = texts_view(out@);
                add_all(&mut out, &d.cookwares);
                assert forall|x: Seq<char>| texts_view(out@).contains(x) <==> before.contains(x)
                    || entry_offers(entries@[i as int], x) by {
                    assert(mid.contains(x) <==> before.contains(x) || texts_view(
                        d.ingredients@,
                    ).contains(x));
                }
            },
            None => {
                assert forall|x: Seq<char>| texts_view(out@).contains(x) <==> before.contains(x)
                    || entry_offers(entries@[i as int], x) by {}
            },
        }
        assert forall|x: Seq<char>| texts_view(out@).contains(x) <==> offered(
            user_ingredients@,
            user_cookwares@,
            entries@.subrange(0, i + 1),
            x,
        ) by {
            lemma_offered_next(user_ingredients@, user_cookwares@, entries@, i as int, x);
        }
        i = i + 1;
    }
    assert(entries@.subrange(0, i as int) =~= entries@);
    out
}

} // verus!
