//! Turns a tree of Markdown documents into a render-ready content model:
//! parsed documents, tables of contents, search documents and an ordered,
//! breadcrumbed tree of sections and pages.

pub mod config;
pub mod content;
pub mod error;
pub mod md;
pub mod text;
pub mod utils;
