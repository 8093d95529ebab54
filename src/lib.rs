//! A parser for a small recipe markup language and the document index that an
//! editor integration keeps over recipe files.
pub mod chars;
pub mod comment;
pub mod document;
pub mod grammar;
pub mod hints;
pub mod laws;
pub mod model;
pub mod parser;
pub mod recipe_index;
pub mod workspace;

pub use chars::trim_spaces;
pub use comment::remove_comment;
pub use document::{DocEntry, DocEvent, DocState, FileIndex, completion_names, process_str};
pub use hints::{StepHint, decimal_text, step_hints};
pub use model::{Cookware, Ingredient, Metadata, Part, ParserError, Timer};
pub use parser::parse;
pub use recipe_index::{ParseResult, index_source};
pub use workspace::{BackendError, DocumentIndex, is_recipe_file_name};
