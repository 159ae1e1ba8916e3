//! The site: the root section, its pages in order and its search index.

use vstd::prelude::*;
use crate::config::SiteConfig;
use crate::content::page::{derived_from, Page, PageEntry};
use crate::content::section::{flat_pages, section_of, Section, SectionEntry};
use crate::content::sort::{in_order, ordered, page_paths, page_values};
use crate::content::source::{dir_failure, markdown_paths, SourceDir};
use crate::error::Error;
use crate::md::node::AstNode;
use crate::md::search::{document_views, SearchDocument, SearchDocumentView};
use crate::md::toc::{same_entries, toc_is_determined};

verus! {

/// A site: its root section.
#[derive(Debug, PartialEq, Eq)]
pub struct Site(pub Section);

/// What the templates are told of the site: its title, and the sections
/// below the root.
#[derive(Debug, PartialEq, Eq)]
pub struct SiteAttrs {
    pub title: String,
    pub sections: Option<Vec<SectionEntry>>,
}

/// The search index of a site: the search documents of all its pages.
#[derive(Debug, PartialEq, Eq)]
pub struct SiteIndex(pub Vec<SearchDocument>);

/// The search documents of each page of a list in turn.
pub open spec fn documents_of(pages: Seq<Page>) -> Seq<SearchDocumentView>
    decreases pages.len(),
{
    if pages.len() == 0 {
        Seq::empty()
    } else {
        documents_of(pages.drop_last()) + pages.last().search_index@
    }
}

/// The titles and URLs of a list of pages.
pub open spec fn page_entry_views(pages: Seq<Page>) -> Seq<(Seq<char>, Seq<char>)> {
    pages.map_values(|p: Page| (p.title@, p.url@))
}

/// The titles and URLs of a list of page entries.
pub open spec fn entry_views(entries: Seq<PageEntry>) -> Seq<(Seq<char>, Seq<char>)> {
    entries.map_values(|e: PageEntry| (e.title@, e.url@))
}

/// Whether an entry mirrors a section: the same title and URL, an entry
/// for each of its pages, and an entry that mirrors each section below it.
pub open spec fn mirrors(entry: SectionEntry, section: Section) -> bool
    decreases section,
{
    &&& entry.title@ == section.title@
    &&& entry.url@ == section.url@
    &&& match (entry.pages, section.pages) {
        (Some(entries), Some(pages)) => entry_views(entries@) == page_entry_views(pages@),
        (None, None) => true,
        _ => false,
    }
    &&& match (entry.sections, section.sections) {
        (Some(entries), Some(sections)) => {
            &&& entries@.len() == sections@.len()
            &&& forall|i: int|
                0 <= i < sections@.len() ==> mirrors(entries@[i], #[trigger] sections@[i])
        },
        (None, None) => true,
        _ => false,
    }
}

/// An entry for each section of a list.
fn entries_of(sections: &Vec<Section>, Ghost(parent): Ghost<Section>) -> (entries: Vec<SectionEntry>)
    requires
        parent.sections == Some(*sections),
    ensures
        entries@.len() == sections@.len(),
        forall|i: int| 0 <= i < sections@.len() ==> mirrors(entries@[i], #[trigger] sections@[i]),
    decreases parent, 0int,
{
    let mut entries: Vec<SectionEntry> = Vec::new();
    let n = sections.len();
    let mut i: usize = 0;
    while i < n
        invariant
            n == sections@.len(),
            i <= n,
            parent.sections == Some(*sections),
            entries@.len() == i,
            forall|k: int| 0 <= k < i ==> mirrors(entries@[k], #[trigger] sections@[k]),
        decreases n - i,
    {
        proof {
            let list = parent.sections->0;
            assert(decreases_to!(parent => parent.sections));
            assert(decreases_to!(parent.sections => list));
            assert(decreases_to!(list => list@));
            assert(decreases_to!(list@ => list@[i as int]));
        }
        let entry = SectionEntry::from(&sections[i]);
        entries.push(entry);
        i += 1;
    }
    entries
}

impl SectionEntry {
    /// The entry that mirrors a section.
    pub fn from(s: &Section) -> (entry: Self)
        ensures
            mirrors(entry, *s),
        decreases *s, 1int,
    {
        let pages = match &s.pages {
            Some(ps) => {
                let mut entries: Vec<PageEntry> = Vec::new();
                let n = ps.len();
                let mut i: usize = 0;
                while i < n
                    invariant
                        n == ps@.len(),
                        i <= n,
                        entry_views(entries@) == page_entry_views(ps@).subrange(0, i as int),
                    decreases n - i,
                {
                    let ghost before = entries@;
                    entries.push(PageEntry { title: ps[i].title.clone(), url: ps[i].url.clone() });
                    assert(entry_views(entries@) =~= entry_views(before).push(
                        (ps@[i as int].title@, ps@[i as int].url@),
                    ));
                    assert(page_entry_views(ps@).subrange(0, i as int + 1) =~= page_entry_views(
                        ps@,
                    ).subrange(0, i as int).push((ps@[i as int].title@, ps@[i as int].url@)));
                    i += 1;
                }
                assert(page_entry_views(ps@).subrange(0, n as int) =~= page_entry_views(ps@));
                Some(entries)
            },
            None => None,
        };
        let sections = match &s.sections {
            Some(ss) => Some(entries_of(ss, Ghost(*s))),
            None => None,
        };
        Self { title: s.title.clone(), url: s.url.clone(), pages, sections }
    }
}

impl SiteIndex {
    pub fn new(documents: Vec<SearchDocument>) -> (index: Self)
        ensures
            index.0 == documents,
    {
        Self(documents)
    }
}

impl Site {
    pub fn new(root: Section) -> (site: Self)
        ensures
            site.0 == root,
    {
        Self(root)
    }

    /// The site of a directory tree that was read: its root section is the
    /// section of the root directory, below no breadcrumb.
    pub fn from_source(dir: &SourceDir, config: &SiteConfig) -> (result: Result<Self, Error>)
        ensures
            dir_failure(*dir, config.root@) matches Some(failure) ==> (result matches Err(e) && e@
                == failure),
            dir_failure(*dir, config.root@) is None ==> (result matches Ok(site) && {
                &&& section_of(site.0, *dir, Seq::empty(), *config)
                &&& page_paths(flat_pages(site.0)) == markdown_paths(*dir)
            }),
    {
        match Section::from_source(dir, None, config) {
            Ok(section) => Ok(Site(section)),
            Err(e) => Err(e),
        }
    }

    /// Every page of the site, in order; see `Section::pages`.
    pub fn pages(&self) -> (pages: Vec<&Page>)
        ensures
            page_values(pages@) == ordered(flat_pages(self.0)),
            in_order(page_values(pages@)),
            page_values(pages@).to_multiset() == flat_pages(self.0).to_multiset(),
            page_paths(page_values(pages@)).to_multiset() == page_paths(
                flat_pages(self.0),
            ).to_multiset(),
    {
        self.0.pages()
    }

    /// The search documents of a list of pages, page after page.
    pub fn documents_in(pages: &Vec<&Page>) -> (documents: Vec<SearchDocument>)
        ensures
            document_views(documents@) == documents_of(page_values(pages@)),
    {
        let mut docs: Vec<SearchDocument> = Vec::new();
        let n = pages.len();
        let mut i: usize = 0;
        let ghost values = page_values(pages@);
        assert(values.subrange(0, 0) =~= Seq::<Page>::empty());
        assert(document_views(docs@) =~= documents_of(values.subrange(0, 0)));
        while i < n
            invariant
                values == page_values(pages@),
                n == pages@.len(),
                i <= n,
                document_views(docs@) == documents_of(values.subrange(0, i as int)),
            decreases n - i,
        {
            let page = pages[i];
            let m = page.search_index.0.len();
            let mut k: usize = 0;
            let ghost start = document_views(docs@);
            assert(start + page.search_index@.subrange(0, 0) =~= start);
            while k < m
                invariant
                    m == page.search_index.0@.len(),
                    k <= m,
                    document_views(docs@) == start + page.search_index@.subrange(0, k as int),
                decreases m - k,
            {
                let ghost before = docs@;
                let doc = page.search_index.0[k].duplicate();
                docs.push(doc);
                proof {
                    assert(document_views(docs@) =~= document_views(before).push(doc@));
                    assert(page.search_index@[k as int] == page.search_index.0@[k as int]@);
                    assert(start + page.search_index@.subrange(0, k as int + 1) =~= (start
                        + page.search_index@.subrange(0, k as int)).push(doc@));
                }
                k += 1;
            }
            proof {
                assert(page.search_index@.subrange(0, m as int) =~= page.search_index@);
                let upto = values.subrange(0, i as int + 1);
                assert(upto.drop_last() =~= values.subrange(0, i as int));
                assert(upto.last() == *page);
            }
            i += 1;
        }
        assert(values.subrange(0, n as int) =~= values);
        docs
    }

    /// The search documents of the whole site: those of each page, in the
    /// order of `pages`.
    pub fn documents(&self) -> (documents: Vec<SearchDocument>)
        ensures
            document_views(documents@) == documents_of(ordered(flat_pages(self.0))),
    {
        let pages = self.pages();
        let documents = Site::documents_in(&pages);
        assert(document_views(documents@) == documents_of(page_values(pages@)));
        documents
    }

    /// The search index of the whole site.
    pub fn index(&self) -> (index: SiteIndex)
        ensures
            document_views(index.0@) == documents_of(ordered(flat_pages(self.0))),
    {
        SiteIndex(self.documents())
    }

    /// What the templates are told of the site: the title of the root
    /// section, and an entry that mirrors each section below it.
    pub fn attrs(&self) -> (attrs: SiteAttrs)
        ensures
            attrs.title@ == self.0.title@,
            match (attrs.sections, self.0.sections) {
                (Some(entries), Some(sections)) => {
                    &&& entries@.len() == sections@.len()
                    &&& forall|i: int|
                        0 <= i < sections@.len() ==> mirrors(entries@[i], #[trigger] sections@[i])
                },
                (None, None) => true,
                _ => false,
            },
    {
        let sections = match &self.0.sections {
            Some(ss) => Some(entries_of(ss, Ghost(self.0))),
            None => None,
        };
        SiteAttrs { title: self.0.title.clone(), sections }
    }
}

/// The pages of a section that was built from a directory tree are the
/// Markdown files of that tree: whatever list holds the pages of the
/// section, each as often as the section holds it, holds a page for every
/// Markdown file in and below the directory, and one only.
pub proof fn pages_are_the_markdown_files(section: Section, dir: SourceDir, pages: Seq<Page>)
    requires
        page_paths(flat_pages(section)) == markdown_paths(dir),
        page_paths(pages).to_multiset() == page_paths(flat_pages(section)).to_multiset(),
    ensures
        page_paths(pages).to_multiset() == markdown_paths(dir).to_multiset(),
        page_paths(pages).len() == markdown_paths(dir).len(),
        forall|path: Seq<char>|
            page_paths(pages).to_multiset().count(path) == markdown_paths(dir).to_multiset().count(
                path,
            ),
{
    vstd::seq_lib::to_multiset_len(page_paths(pages));
    vstd::seq_lib::to_multiset_len(markdown_paths(dir));
}

/// What is derived from a document depends on the document alone: two
/// pages with one title that hold what is derived from one document hold
/// the same HTML, the same table of contents and the same search documents.
pub proof fn derived_outputs_are_determined(document: AstNode, a: Page, b: Page)
    requires
        derived_from(a, document),
        derived_from(b, document),
        a.title@ == b.title@,
    ensures
        a.html@ == b.html@,
        same_entries(a.table_of_contents.entries@, b.table_of_contents.entries@),
        a.search_index@ == b.search_index@,
{
    toc_is_determined(a.table_of_contents.entries@, b.table_of_contents.entries@, 1);
}

} // verus!
