//! The parsed form of a recipe: a document is a list of lines, each a list of
//! parts.
use vstd::prelude::*;

verus! {

/// A `>> key: value` declaration.
#[derive(Debug, PartialEq, Eq, Clone)]
pub struct Metadata {
    pub key: String,
    pub value: String,
}

/// An `@name{quantity%units}` entity.
#[derive(Debug, PartialEq, Eq, Clone)]
pub struct Ingredient {
    pub name: String,
    pub quantity: String,
    pub units: String,
}

/// A `#name{quantity}` entity.
#[derive(Debug, PartialEq, Eq, Default, Clone)]
pub struct Cookware {
    pub name: String,
    pub quantity: String,
}

/// A `~name{quantity%units}` entity; the name may be empty.
#[derive(Debug, PartialEq, Eq, Clone)]
pub struct Timer {
    pub name: String,
    pub quantity: String,
    pub units: String,
}

#[derive(Debug, PartialEq, Eq, Clone)]
pub enum Part {
    Metadata(Metadata),
    Cookware(Cookware),
    Timer(Timer),
    Ingredient(Ingredient),
    Text(String),
}

/// Internal failures that the grammar never produces: every text parses.
#[derive(Debug)]
pub enum ParserError {
    Comments(String),
    Parse(String),
}

/// What a part holds, as character sequences.
pub enum PartView {
    Metadata { key: Seq<char>, value: Seq<char> },
    Cookware { name: Seq<char>, quantity: Seq<char> },
    Timer { name: Seq<char>, quantity: Seq<char>, units: Seq<char> },
    Ingredient { name: Seq<char>, quantity: Seq<char>, units: Seq<char> },
    Text { value: Seq<char> },
}

impl View for Part {
    type V = PartView;

    open spec fn view(&self) -> PartView {
        match self {
            Part::Metadata(m) => PartView::Metadata { key: m.key@, value: m.value@ },
            Part::Cookware(c) => PartView::Cookware { name: c.name@, quantity: c.quantity@ },
            Part::Timer(t) => PartView::Timer {
                name: t.name@,
                quantity: t.quantity@,
                units: t.units@,
            },
            Part::Ingredient(i) => PartView::Ingredient {
                name: i.name@,
                quantity: i.quantity@,
                units: i.units@,
            },
            Part::Text(s) => PartView::Text { value: s@ },
        }
    }
}

pub open spec fn parts_view(line: Seq<Part>) -> Seq<PartView> {
    line.map_values(|p: Part| p@)
}

pub open spec fn doc_view(doc: Seq<Vec<Part>>) -> Seq<Seq<PartView>> {
    doc.map_values(|l: Vec<Part>| parts_view(l@))
}

} // verus!
