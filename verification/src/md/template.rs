//! What a page template is given.

use vstd::prelude::*;
use crate::content::breadcrumb::Link;
use crate::content::site::SiteAttrs;
use crate::md::toc::TableOfContents;

verus! {

/// What the template of a page is given: the page's title, its HTML, its
/// breadcrumb, its table of contents unless that is empty, and what is
/// told of the site.
#[derive(Debug, PartialEq, Eq)]
pub struct TemplateAttrs<'a> {
    pub title: String,
    pub content: String,
    pub breadcrumb: &'a Vec<Link>,
    pub toc: Option<&'a TableOfContents>,
    pub site: &'a SiteAttrs,
}

impl<'a> TemplateAttrs<'a> {
    pub fn new(
        title: &str,
        content: &str,
        breadcrumb: &'a Vec<Link>,
        toc: &'a TableOfContents,
        site: &'a SiteAttrs,
    ) -> (attrs: Self)
        ensures
            attrs.title@ == title@,
            attrs.content@ == content@,
            attrs.breadcrumb == breadcrumb,
            attrs.site == site,
            toc.entries@.len() == 0 ==> attrs.toc is None,
            toc.entries@.len() > 0 ==> attrs.toc == Some(toc),
    {
        Self {
            title: title.to_owned(),
            content: content.to_owned(),
            breadcrumb,
            toc: if toc.entries.len() > 0 {
                Some(toc)
            } else {
                None
            },
            site,
        }
    }
}

} // verus!
