//! Source-text-aware span manipulation for lints: a model of loaded source files and of the
//! positions and macro-expansion contexts of spans, a cursor that probes and edits a byte range
//! of one file, resolution of spans through macro call sites, and the text-level decisions of
//! the formatting lints built on them.

pub mod chars;
pub mod text;
pub mod lexer;
pub mod reindent;
pub mod span;
pub mod hygiene;
pub mod span_like;
pub mod source_map;
pub mod file_range;
pub mod diagnostic;
pub mod formatting;
pub mod snippet;
pub mod needless_else;
