//! The document index of a workspace: one entry per file path, kept in a
//! sharded concurrent map so that work on different files never contends.
//! Each update of an entry happens under the lock of its shard, so a reader
//! sees an entry as it was before or after an update, never a mix. Many
//! tasks may use the index at once, so what the map holds at any moment is
//! not stated here; what is decided about an entry is decided by the
//! verified functions of `document`, applied under that lock.
use vstd::prelude::*;
use dashmap::DashMap;
use crate::chars::chars_of;
use crate::document::{DocEntry, DocEvent, DocState, completion_names};
use crate::hints::{StepHint, step_hints, step_label};
use crate::recipe_index::texts_view;

verus! {

/// `dashmap::DashMap`, held opaque: the index keeps its entries in it.
#[verifier::external_type_specification]
#[verifier::external_body]
#[verifier::reject_recursive_types(K)]
#[verifier::reject_recursive_types(V)]
#[verifier::reject_recursive_types(S)]
pub struct ExDashMap<K, V, S>(DashMap<K, V, S>);

/// Relies on `DashMap::new`: a new map.
#[verifier::external_body]
fn new_map() -> DashMap<String, DocEntry> {
    DashMap::new()
}

/// Relies on `DashMap::entry` and `Entry::or_insert_with`: gives `path` an
/// unopened entry if it has none, under the lock of its shard.
#[verifier::external_body]
fn ensure_entry(map: &DashMap<String, DocEntry>, path: String) {
    map.entry(path).or_insert_with(DocEntry::unopened);
}

/// Relies on `DashMap::alter`: replaces the entry of `path`, if it has one,
/// by what `DocEntry::after` makes of it, under the lock of its shard.
#[verifier::external_body]
fn alter_entry(map: &DashMap<String, DocEntry>, path: &String, ev: DocEvent) {
    map.alter(path, |_, e| e.after(ev));
}

/// Relies on `DashMap::view`: a copy of the entry of `path`, if it has one,
/// taken under the lock of its shard.
#[verifier::external_body]
fn entry_copy(map: &DashMap<String, DocEntry>, path: &String) -> Option<DocEntry> {
    map.view(path, |_, e| e.duplicate())
}

/// Relies on `DashMap::iter`: a copy of every entry, each taken under the
/// lock of its shard; entries may change while the walk goes on.
#[verifier::external_body]
fn entries_copy(map: &DashMap<String, DocEntry>) -> Vec<DocEntry> {
    map.iter().map(|r| r.value().duplicate()).collect()
}

/// The failures of setting up the index.
#[derive(Debug, PartialEq, Eq)]
pub enum BackendError {
    /// The platform has no configuration directory.
    NoConfigDir,
}

impl BackendError {
    pub fn message(&self) -> (r: &'static str)
        ensures
            r@ == "Can't find config dir"@,
    {
        match self {
            BackendError::NoConfigDir => "Can't find config dir",
        }
    }
}

/// The position of the last `.` in `s[..j]`, or -1.
pub open spec fn last_dot(s: Seq<char>, j: int) -> int
    decreases j,
{
    if j <= 0 {
        -1
    } else if s[j - 1] == '.' {
        j - 1
    } else {
        last_dot(s, j - 1)
    }
}

/// The file name has the extension `cook`: what follows its last `.`, where
/// that `.` is not its first character.
pub open spec fn is_recipe_name(name: Seq<char>) -> bool {
    let d = last_dot(name, name.len() as int);
    d > 0 && name.subrange(d + 1, name.len() as int) == seq!['c', 'o', 'o', 'k']
}

/// Whether a file of this name is a recipe to index.
pub fn is_recipe_file_name(file_name: &str) -> (r: bool)
    ensures
        r == is_recipe_name(file_name@),
{
    let s = chars_of(file_name);
    let n = s.len();
    let mut j: usize = n;
    while j > 0 && s[j - 1] != '.'
        invariant
            j <= n == s.len(),
            last_dot(s@, n as int) == last_dot(s@, j as int),
        decreases j,
    {
        j = j - 1;
    }
    if j <= 1 {
        return false;
    }
    let d = j - 1;
    assert(last_dot(s@, n as int) == d);
    if n - j != 4 {
        assert(s@.subrange(d + 1, n as int).len() != 4);
        return false;
    }
    let r = s[j] == 'c' && s[j + 1] == 'o' && s[j + 2] == 'o' && s[j + 3] == 'k';
    assert(r == (s@.subrange(d + 1, n as int) =~= seq!['c', 'o', 'o', 'k']));
    r
}

/// The workspace index: the user-configured names, fixed at creation, and
/// one entry per document path.
pub struct DocumentIndex {
    user_ingredients: Vec<String>,
    user_cookwares: Vec<String>,
    entries: DashMap<String, DocEntry>,
}

impl DocumentIndex {
    pub closed spec fn config_ingredients(&self) -> Seq<String> {
        self.user_ingredients@
    }

    pub closed spec fn config_cookwares(&self) -> Seq<String> {
        self.user_cookwares@
    }

    /// An index with no document, offering the given names on top of those
    /// of the documents.
    pub fn new(user_ingredients: Vec<String>, user_cookwares: Vec<String>) -> (r: DocumentIndex)
        ensures
            r.config_ingredients() == user_ingredients@,
            r.config_cookwares() == user_cookwares@,
    {
        DocumentIndex { user_ingredients, user_cookwares, entries: new_map() }
    }

    /// Applies a lifecycle event to the entry of `path`, creating the entry
    /// first if the path is new.
    pub fn apply(&self, path: String, ev: DocEvent) {
        ensure_entry(&self.entries, path.clone());
        alter_entry(&self.entries, &path, ev);
    }

    /// The editor opened `path` with `text`: the text is cached.
    pub fn did_open(&self, path: String, text: String) {
        self.apply(path, DocEvent::Open(text));
    }

    /// The editor changed `path` to `text`: the text is cached, the derived
    /// data is left as it was.
    pub fn did_change(&self, path: String, text: String) {
        self.apply(path, DocEvent::Change(text));
    }

    /// The editor saved `path` as `text`: the text is cached and parsed, and
    /// the derived data replaced.
    pub fn did_save(&self, path: String, text: String) {
        self.apply(path, DocEvent::Save(text));
    }

    /// The workspace scan read `path` from disk: its text is parsed and the
    /// derived data replaced.
    pub fn scan_file(&self, path: String, text: String) {
        self.apply(path, DocEvent::Scan(text));
    }

    /// The cached raw text of `path`, if the editor sent one.
    pub fn get_raw_text(&self, path: &String) -> Option<String> {
        match entry_copy(&self.entries, path) {
            Some(e) => e.raw_text(),
            None => None,
        }
    }

    /// The step lines of `path` as of its last save or scan; `None` if it
    /// has not been indexed.
    pub fn get_step_lines(&self, path: &String) -> Option<Vec<usize>> {
        match entry_copy(&self.entries, path) {
            Some(e) => e.step_lines(),
            None => None,
        }
    }

    /// Where the document at `path` stands.
    pub fn state(&self, path: &String) -> DocState {
        match entry_copy(&self.entries, path) {
            Some(e) => e.state(),
            None => DocState::Unopened,
        }
    }

    /// The names offered to completion: every user-configured name and every
    /// indexed document's ingredient and cookware names, each once.
    pub fn completions(&self) -> (r: Vec<String>)
        ensures
            texts_view(r@).no_duplicates(),
            forall|i: int|
                0 <= i < self.config_ingredients().len() ==> texts_view(r@).contains(
                    #[trigger] self.config_ingredients()[i]@,
                ),
            forall|i: int|
                0 <= i < self.config_cookwares().len() ==> texts_view(r@).contains(
                    #[trigger] self.config_cookwares()[i]@,
                ),
    {
        let entries = entries_copy(&self.entries);
        let r = completion_names(&self.user_ingredients, &self.user_cookwares, &entries);
        assert forall|i: int| 0 <= i < self.config_ingredients().len() implies texts_view(
            r@,
        ).contains(#[trigger] self.config_ingredients()[i]@) by {
            assert(texts_view(self.user_ingredients@)[i] == self.user_ingredients@[i]@);
        }
        assert forall|i: int| 0 <= i < self.config_cookwares().len() implies texts_view(
            r@,
        ).contains(#[trigger] self.config_cookwares()[i]@) by {
            assert(texts_view(self.user_cookwares@)[i] == self.user_cookwares@[i]@);
        }
        r
    }

    /// A hint per step of `path`, as of its last save or scan; `None` if the
    /// document has not been indexed, an empty list if it has no step.
    pub fn inlay_hints(&self, path: &String) -> (r: Option<Vec<StepHint>>)
        ensures
            r matches Some(v) ==> forall|i: int|
                0 <= i < v.len() ==> (#[trigger] v@[i]).label@ == step_label((i + 1) as nat),
    {
        match self.get_step_lines(path) {
            Some(lines) => Some(step_hints(&lines)),
            None => None,
        }
    }
}

} // verus!
