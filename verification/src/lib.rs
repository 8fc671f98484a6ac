//! Resolves dependency license expressions to canonical license texts and
//! assembles them into one Markdown document.
pub mod catalog;
pub mod document;
pub mod laws;
pub mod numbers;
pub mod outside;
pub mod resolver;
pub mod quoting;
pub mod text;
