//! Styles, themes and syntax highlighting.

pub mod diff_syntax;
pub mod highlight_cache;
pub mod highlight_job;
pub mod highlight_laws;
pub mod style;
