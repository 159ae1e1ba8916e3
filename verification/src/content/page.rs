//! Pages: one Markdown file each, with what is derived from it.

use vstd::prelude::*;
use crate::config::SiteConfig;
use crate::content::breadcrumb::{crumb_pairs, link_pairs, links_of, Link};
use crate::content::front::FrontMatter;
use crate::content::paths::{join, joined_path, page_url, relative_to, strip_prefix, url_of};
use crate::content::title::{infer_page_title, is_inferred_title, WithTitle};
use crate::error::{Error, ErrorView};
use crate::md::headings::headings_of;
use crate::md::node::AstNode;
use crate::md::parse::{ast, parses_to};
use crate::md::render::{html_of_document, render};
use crate::md::search::{build_search_index_for_page, search_documents, SearchIndex};
use crate::md::toc::TableOfContents;
use crate::text::{chars_of, same_text};

verus! {

/// A page of the site.
#[derive(Debug, PartialEq, Eq)]
pub struct Page {
    /// The path of the source file.
    pub path: String,
    /// The same path below the project root.
    pub relative_path: String,
    pub url: String,
    pub title: String,
    /// The text of the file after its front matter.
    pub body: String,
    pub html: String,
    /// The sections above the page, the root first.
    pub breadcrumb: Vec<Link>,
    pub table_of_contents: TableOfContents,
    pub search_index: SearchIndex,
    pub order: Option<usize>,
}

/// The title and URL of a page, for navigation.
#[derive(Clone, Debug, PartialEq, Eq)]
pub struct PageEntry {
    pub title: String,
    pub url: String,
}

/// Whether one character comes before another by its code point.
pub open spec fn char_before(a: char, b: char) -> bool {
    (a as int) < (b as int)
}

/// Whether one text comes before another in the order of `str`:
/// character by character, by code point, a proper prefix first.
pub open spec fn text_before(a: Seq<char>, b: Seq<char>) -> bool
    decreases a.len(),
{
    if b.len() == 0 {
        false
    } else if a.len() == 0 {
        true
    } else if a[0] != b[0] {
        char_before(a[0], b[0])
    } else {
        text_before(a.drop_first(), b.drop_first())
    }
}

/// The code point of a character.
pub fn char_code(c: char) -> (n: u32)
    ensures
        n == c as int,
{
    c as u32
}

/// Whether one text comes before another in the order of `str`.
pub fn text_less(a: &str, b: &str) -> (less: bool)
    ensures
        less == text_before(a@, b@),
{
    let x = chars_of(a);
    let y = chars_of(b);
    let n = x.len();
    let m = y.len();
    let mut i: usize = 0;
    assert(x@.subrange(0, n as int) =~= x@);
    assert(y@.subrange(0, m as int) =~= y@);
    while i < n && i < m
        invariant
            x@ == a@,
            y@ == b@,
            n == x@.len(),
            m == y@.len(),
            i <= n,
            i <= m,
            text_before(x@, y@) == text_before(
                x@.subrange(i as int, n as int),
                y@.subrange(i as int, m as int),
            ),
        decreases n - i,
    {
        let ghost rest_x = x@.subrange(i as int, n as int);
        let ghost rest_y = y@.subrange(i as int, m as int);
        assert(rest_x[0] == x@[i as int] && rest_y[0] == y@[i as int]);
        let cx: char = x[i];
        let cy: char = y[i];
        if cx != cy {
            assert(rest_x.len() > 0 && rest_y.len() > 0);
            assert(text_before(rest_x, rest_y) == char_before(rest_x[0], rest_y[0]));
            return char_code(cx) < char_code(cy);
        }
        assert(rest_x.drop_first() =~= x@.subrange(i as int + 1, n as int));
        assert(rest_y.drop_first() =~= y@.subrange(i as int + 1, m as int));
        i += 1;
    }
    i < m
}

/// If `b` does not come before `a`, and `c` does not come before `b`, then
/// `c` does not come before `a`.
pub proof fn lemma_text_order_chains(a: Seq<char>, b: Seq<char>, c: Seq<char>)
    requires
        !text_before(b, a),
        !text_before(c, b),
    ensures
        !text_before(c, a),
    decreases a.len(),
{
    if a.len() > 0 && b.len() > 0 && c.len() > 0 {
        if a[0] == b[0] && b[0] == c[0] {
            lemma_text_order_chains(a.drop_first(), b.drop_first(), c.drop_first());
        } else if a[0] == b[0] {
            assert(!char_before(c[0], b[0]));
        } else if b[0] == c[0] {
            assert(!char_before(b[0], a[0]));
        } else {
            assert(!char_before(b[0], a[0]));
            assert(!char_before(c[0], b[0]));
            assert(a[0] as int != b[0] as int);
            assert(b[0] as int != c[0] as int);
        }
    } else if b.len() == 0 {
        assert(a.len() == 0);
    } else if c.len() == 0 {
        assert(b.len() == 0);
    }
}

/// The rank of a page with the given path below the root and the given
/// order: 0 for `index.md`, else the order, else 1.
pub open spec fn rank_of(relative_path: Seq<char>, order: Option<usize>) -> int {
    if relative_path == "index.md"@ {
        0
    } else {
        match order {
            Some(o) => o as int,
            None => 1,
        }
    }
}

/// Whether page `a` has its place before page `b`: its rank is lower, or
/// the ranks are equal and its title comes later in the alphabet.
pub open spec fn sorts_before(a: Page, b: Page) -> bool {
    let ra = rank_of(a.relative_path@, a.order);
    let rb = rank_of(b.relative_path@, b.order);
    ra < rb || (ra == rb && text_before(b.title@, a.title@))
}

/// Places chain: if `b` has no place before `a`, and `c` none before `b`,
/// then `c` has none before `a`.
pub proof fn lemma_page_order_chains(a: Page, b: Page, c: Page)
    requires
        !sorts_before(b, a),
        !sorts_before(c, b),
    ensures
        !sorts_before(c, a),
{
    let ra = rank_of(a.relative_path@, a.order);
    let rb = rank_of(b.relative_path@, b.order);
    let rc = rank_of(c.relative_path@, c.order);
    if ra == rb && rb == rc {
        lemma_text_order_chains(c.title@, b.title@, a.title@);
    }
}

/// Whether a page holds what is derived from a document: its HTML, the
/// table of contents of its headings, and its search documents under the
/// title of the page.
pub open spec fn derived_from(page: Page, document: AstNode) -> bool {
    &&& page.html@ == html_of_document(document)
    &&& page.table_of_contents.wf()
    &&& page.table_of_contents.outline() == headings_of(document.children@)
    &&& page.search_index@ == search_documents(page.title@, document.children@)
}

/// Whether a page is the page of a Markdown file with the given path, whole
/// text, front matter and text after the front matter, below the given
/// breadcrumb: it holds the path, the path below the root and the URL
/// derived from it, the text, the order and the breadcrumb; its title is
/// that of the front matter, else the one that the file gives; and it holds
/// what is derived from the document that the text parses to.
pub open spec fn page_from(
    page: Page,
    path: Seq<char>,
    file: Seq<char>,
    front: FrontMatter,
    content: Seq<char>,
    crumbs: Seq<(Seq<char>, Seq<char>)>,
    config: SiteConfig,
) -> bool {
    &&& page.path@ == path
    &&& Some(page.relative_path@) == relative_to(path, config.root@)
    &&& page.url@ == url_of(page.relative_path@)
    &&& page.body@ == content
    &&& page.order == front.order
    &&& link_pairs(page.breadcrumb@) == crumbs
    &&& page.table_of_contents.wf()
    &&& page.search_index.0@.len() >= 1
    &&& (front.title matches Some(t) ==> page.title@ == t@)
    &&& (front.title is None ==> is_inferred_title(page.title@, file, path, config.title_config))
    &&& exists|document: AstNode|
        parses_to(document, content) && #[trigger] derived_from(page, document)
}

impl Page {
    /// A page with the given parts.
    pub fn new(
        path: &str,
        relative_path: &str,
        url: &str,
        title: &str,
        body: &str,
        html: &str,
        breadcrumb: Vec<Link>,
        table_of_contents: TableOfContents,
        search_index: SearchIndex,
        order: Option<usize>,
    ) -> (page: Self)
        ensures
            page.path@ == path@,
            page.relative_path@ == relative_path@,
            page.url@ == url@,
            page.title@ == title@,
            page.body@ == body@,
            page.html@ == html@,
            page.breadcrumb == breadcrumb,
            page.table_of_contents == table_of_contents,
            page.search_index == search_index,
            page.order == order,
    {
        Self {
            path: path.to_owned(),
            relative_path: relative_path.to_owned(),
            url: url.to_owned(),
            title: title.to_owned(),
            body: body.to_owned(),
            html: html.to_owned(),
            breadcrumb,
            table_of_contents,
            search_index,
            order,
        }
    }

    /// The page of a parsed document: its URL is derived from its path
    /// below the root, and its table of contents, HTML and search index
    /// from the document.
    pub fn assemble(
        path: &str,
        relative_path: String,
        title: String,
        body: String,
        document: &AstNode,
        breadcrumb: &Vec<(String, String)>,
        order: Option<usize>,
    ) -> (page: Self)
        ensures
            page.path@ == path@,
            page.relative_path@ == relative_path@,
            page.url@ == url_of(relative_path@),
            page.title@ == title@,
            page.body@ == body@,
            page.html@ == html_of_document(*document),
            link_pairs(page.breadcrumb@) == crumb_pairs(breadcrumb@),
            page.table_of_contents.wf(),
            page.table_of_contents.outline() == headings_of(document.children@),
            page.search_index@ == search_documents(title@, document.children@),
            page.search_index.0@.len() >= 1,
            page.order == order,
            derived_from(page, *document),
    {
        let table_of_contents = TableOfContents::parse(document);
        let html = render(document);
        let search_index = build_search_index_for_page(title.as_str(), document);
        let url = page_url(relative_path.as_str());
        Page {
            path: path.to_owned(),
            relative_path,
            url,
            title,
            body,
            html,
            breadcrumb: links_of(breadcrumb),
            table_of_contents,
            search_index,
            order,
        }
    }

    /// The page of a Markdown file, from the path of the file, its whole
    /// text, its front matter and the text after the front matter.
    ///
    /// An order of zero is refused with the path of the page. A path that
    /// does not lie under the project root is refused as well. Otherwise
    /// there is a page: its title is that of the front matter, else the one
    /// that the file gives itself, else the one that its path gives.
    pub fn from_source(
        path: &str,
        file: &str,
        front: FrontMatter,
        content: String,
        breadcrumb: &Vec<(String, String)>,
        config: &SiteConfig,
    ) -> (result: Result<Self, Error>)
        ensures
            !front.order_ok() ==> (result matches Err(e) && e@ == ErrorView::ZeroOrder(path@)),
            front.order_ok() && relative_to(path@, config.root@) is None ==> (result matches Err(e)
                && e@ == ErrorView::Prefix(path@)),
            front.order_ok() && relative_to(path@, config.root@) is Some ==> (result matches Ok(
                page,
            ) && page_from(page, path@, file@, front, content@, crumb_pairs(breadcrumb@), *config)),
    {
        let order = front.order;
        if !front.has_valid_order() {
            return Err(Error::ZeroOrder(path.to_owned()));
        }
        let title = infer_page_title(front, path, file, &config.title_config);
        let relative_path = match strip_prefix(path, config.root.as_str()) {
            Some(rest) => rest,
            None => {
                return Err(Error::Prefix(path.to_owned()));
            },
        };
        let tree = ast(content.as_str());
        let page = Page::assemble(path, relative_path, title, content, &tree, breadcrumb, order);
        assert(parses_to(tree, content@) && derived_from(page, tree));
        Ok(page)
    }

    /// Where the page is written below an output directory.
    pub fn html_path(&self, root: &str) -> (path: String)
        ensures
            path@ == joined_path(root@, self.relative_path@),
    {
        join(root, self.relative_path.as_str())
    }

    /// Whether the page is the index page of the project root.
    pub fn is_index(&self) -> (yes: bool)
        ensures
            yes == (self.relative_path@ == "index.md"@),
    {
        same_text(self.relative_path.as_str(), "index.md")
    }

    /// The rank of the page: 0 for the index page of the root, else its
    /// order, else 1.
    pub fn rank(&self) -> (rank: usize)
        ensures
            rank == rank_of(self.relative_path@, self.order),
    {
        if self.is_index() {
            0
        } else {
            match self.order {
                Some(o) => o,
                None => 1,
            }
        }
    }

    /// Whether the page has its place before another: the index page of the
    /// root first, then by order, a page without one as if it had order 1;
    /// among pages of one rank, the title that comes later in the alphabet first.
    pub fn precedes(&self, other: &Page) -> (before: bool)
        ensures
            before == sorts_before(*self, *other),
    {
        let a = self.rank();
        let b = other.rank();
        a < b || (a == b && text_less(other.title.as_str(), self.title.as_str()))
    }
}

impl WithTitle for Page {
    open spec fn title_text(&self) -> Seq<char> {
        self.title@
    }

    fn title(&self) -> (title: String) {
        self.title.clone()
    }
}

} // verus!
