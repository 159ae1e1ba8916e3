//! The content tree: pages, sections and the site.

pub mod breadcrumb;
pub mod front;
pub mod page;
pub mod paths;
pub mod section;
pub mod site;
pub mod sort;
pub mod source;
pub mod title;
