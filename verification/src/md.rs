//! Document processing: the document tree, headings, tables of contents,
//! search documents and HTML rendering.

pub mod admonition;
pub mod code;
pub mod headings;
pub mod highlight;
pub mod image;
pub mod node;
pub mod parse;
pub mod render;
pub mod same;
pub mod search;
pub mod syntax;
pub mod template;
pub mod title;
pub mod toc;
