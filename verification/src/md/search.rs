//! The search index of a page: one document for the text before the first
//! section heading, and one for each section heading with the text below it.

use vstd::prelude::*;
use vstd::string::StringExecFns;
use crate::md::headings::{
    headings_upto, lemma_units_count, unit_views, units_upto, HeadingsWithTextAfter,
};
use crate::md::node::{joined_text, text_of, AstNode};
use crate::text::{trim, trimmed};

verus! {

/// One unit of searchable text within a page.
#[derive(Clone, Debug, PartialEq, Eq)]
pub struct SearchDocument {
    pub level: u8,
    pub page_title: String,
    pub title: String,
    pub content: String,
}

/// What a search document holds.
pub ghost struct SearchDocumentView {
    pub level: u8,
    pub page_title: Seq<char>,
    pub title: Seq<char>,
    pub content: Seq<char>,
}

impl View for SearchDocument {
    type V = SearchDocumentView;

    open spec fn view(&self) -> SearchDocumentView {
        SearchDocumentView {
            level: self.level,
            page_title: self.page_title@,
            title: self.title@,
            content: self.content@,
        }
    }
}

/// The search documents of one page, in document order.
#[derive(Clone, Debug, PartialEq, Eq)]
pub struct SearchIndex(pub Vec<SearchDocument>);

/// What each document of a list holds.
pub open spec fn document_views(documents: Seq<SearchDocument>) -> Seq<SearchDocumentView> {
    documents.map_values(|d: SearchDocument| d@)
}

impl View for SearchIndex {
    type V = Seq<SearchDocumentView>;

    open spec fn view(&self) -> Seq<SearchDocumentView> {
        document_views(self.0@)
    }
}

impl SearchDocument {
    pub fn new(level: u8, page_title: &str, title: &str, content: &str) -> (document: Self)
        ensures
            document@ == (SearchDocumentView {
                level,
                page_title: page_title@,
                title: title@,
                content: content@,
            }),
    {
        Self {
            level,
            page_title: page_title.to_owned(),
            title: title.to_owned(),
            content: content.to_owned(),
        }
    }

    /// A copy of the document.
    pub fn duplicate(&self) -> (document: Self)
        ensures
            document@ == self@,
    {
        Self {
            level: self.level,
            page_title: self.page_title.clone(),
            title: self.title.clone(),
            content: self.content.clone(),
        }
    }
}

/// The first index from `from` on at which a heading other than a page title
/// (level 1) stands, or the number of nodes if there is none.
pub open spec fn preamble_end(nodes: Seq<AstNode>, from: int) -> int
    decreases nodes.len() - from,
{
    if from < 0 || from >= nodes.len() {
        nodes.len() as int
    } else if nodes[from].heading_level() matches Some(level) && level != 1 {
        from
    } else {
        preamble_end(nodes, from + 1)
    }
}

/// The nodes among the first `n` that are no headings.
pub open spec fn body_nodes_upto(nodes: Seq<AstNode>, n: int) -> Seq<AstNode>
    decreases n,
{
    if n <= 0 {
        Seq::empty()
    } else if nodes[n - 1].heading_level() is Some {
        body_nodes_upto(nodes, n - 1)
    } else {
        body_nodes_upto(nodes, n - 1).push(nodes[n - 1])
    }
}

/// The text before the first section heading: that of the top-level nodes
/// in front of it, page titles left out, joined by single spaces.
pub open spec fn preamble_text(nodes: Seq<AstNode>) -> Seq<char> {
    joined_text(body_nodes_upto(nodes, preamble_end(nodes, 0)))
}

/// The document of the `k`-th unit of a page.
pub open spec fn unit_document(
    page_title: Seq<char>,
    unit: ((u8, Seq<char>), Seq<char>),
) -> SearchDocumentView {
    SearchDocumentView {
        level: unit.0.0,
        page_title,
        title: unit.0.1,
        content: trimmed(unit.1),
    }
}

/// The search documents of a page with the given title and top-level nodes:
/// first the preamble under the page's title at level 1, then each section
/// heading with the trimmed text that belongs to it.
pub open spec fn search_documents(page_title: Seq<char>, nodes: Seq<AstNode>) -> Seq<
    SearchDocumentView,
> {
    seq![
        SearchDocumentView {
            level: 1,
            page_title,
            title: page_title,
            content: preamble_text(nodes),
        },
    ] + units_upto(nodes, nodes.len() as int).map_values(
        |unit: ((u8, Seq<char>), Seq<char>)| unit_document(page_title, unit),
    )
}

/// A page has one search document more than it has section headings.
pub proof fn search_document_count(page_title: Seq<char>, nodes: Seq<AstNode>)
    ensures
        search_documents(page_title, nodes).len() == 1 + headings_upto(
            nodes,
            nodes.len() as int,
        ).len(),
{
    lemma_units_count(nodes, nodes.len() as int);
}

/// The search documents of a page come in document order: the preamble
/// first, then the `k`-th section heading at place `k + 1`, under its own
/// level and text.
pub proof fn search_document_order(page_title: Seq<char>, nodes: Seq<AstNode>, k: int)
    requires
        0 <= k < headings_upto(nodes, nodes.len() as int).len(),
    ensures
        search_documents(page_title, nodes)[0].level == 1,
        search_documents(page_title, nodes)[0].title == page_title,
        search_documents(page_title, nodes)[k + 1].level == headings_upto(
            nodes,
            nodes.len() as int,
        )[k].0,
        search_documents(page_title, nodes)[k + 1].title == headings_upto(
            nodes,
            nodes.len() as int,
        )[k].1,
        search_documents(page_title, nodes)[k + 1].page_title == page_title,
{
    lemma_units_count(nodes, nodes.len() as int);
    lemma_unit_headings(nodes, nodes.len() as int, k);
}

/// The heading of the `k`-th unit is the `k`-th section heading.
pub proof fn lemma_unit_headings(nodes: Seq<AstNode>, n: int, k: int)
    requires
        0 <= n <= nodes.len(),
        0 <= k < headings_upto(nodes, n).len(),
    ensures
        units_upto(nodes, n).len() == headings_upto(nodes, n).len(),
        units_upto(nodes, n)[k].0 == headings_upto(nodes, n)[k],
    decreases n,
{
    lemma_units_count(nodes, n);
    if n > 0 {
        lemma_units_count(nodes, n - 1);
        if k < headings_upto(nodes, n - 1).len() {
            lemma_unit_headings(nodes, n - 1, k);
        }
    }
}

/// The text before the first section heading of a document: that of the
/// top-level nodes in front of it, page titles left out, joined by single spaces.
pub fn preamble(node: &AstNode) -> (text: String)
    ensures
        text@ == preamble_text(node.children@),
{
    let mut out = String::new();
    let n = node.children.len();
    let mut i: usize = 0;
    let mut any = false;
    let ghost nodes = node.children@;
    while i < n
        invariant
            nodes == node.children@,
            any == (body_nodes_upto(nodes, i as int).len() > 0),
            n == nodes.len(),
            i <= n,
            preamble_end(nodes, i as int) == preamble_end(nodes, 0),
            out@ == joined_text(body_nodes_upto(nodes, i as int)),
        decreases n - i,
    {
        match node.children[i].heading() {
            Some(level) => {
                if level != 1 {
                    return out;
                }
            },
            None => {
                proof {
                    let upto = body_nodes_upto(nodes, i as int + 1);
                    assert(upto.drop_last() =~= body_nodes_upto(nodes, i as int));
                    assert(upto.last() == nodes[i as int]);
                    reveal_strlit(" ");
                    assert(" "@ =~= seq![' ']);
                    assert(Seq::<char>::empty() + text_of(nodes[i as int]) =~= text_of(
                        nodes[i as int],
                    ));
                }
                if any {
                    out.append(" ");
                }
                node.children[i].collect_text_into(&mut out);
                any = true;
            },
        }
        i += 1;
    }
    out
}


/// The search index of a page: the preamble under the page's title at level
/// 1, then one document for each section heading, at the heading's level and
/// under its text, with the trimmed text between it and the next heading.
pub fn build_search_index_for_page(page_title: &str, document: &AstNode) -> (index: SearchIndex)
    ensures
        index@ == search_documents(page_title@, document.children@),
        index.0@.len() == 1 + headings_upto(
            document.children@,
            document.children@.len() as int,
        ).len(),
{
    let mut documents: Vec<SearchDocument> = Vec::new();
    let intro = preamble(document);
    documents.push(SearchDocument::new(1, page_title, page_title, intro.as_str()));
    let units = HeadingsWithTextAfter(document.children.as_slice()).collect();
    let ghost nodes = document.children@;
    let ghost expected = units_upto(nodes, nodes.len() as int);
    let n = units.len();
    let mut i: usize = 0;
    proof {
        lemma_units_count(nodes, nodes.len() as int);
        assert(document_views(documents@) =~= search_documents(page_title@, nodes).subrange(0, 1));
    }
    while i < n
        invariant
            nodes == document.children@,
            expected == units_upto(nodes, nodes.len() as int),
            unit_views(units@) == expected,
            n == units@.len(),
            i <= n,
            document_views(documents@) == search_documents(page_title@, nodes).subrange(
                0,
                i as int + 1,
            ),
        decreases n - i,
    {
        let unit = &units[i];
        let content = trim(unit.1.as_str());
        let doc = SearchDocument::new(
            unit.0.level,
            page_title,
            unit.0.text.as_str(),
            content.as_str(),
        );
        let ghost before = documents@;
        documents.push(doc);
        proof {
            assert(unit_views(units@)[i as int] == (units@[i as int].0.outline(), units@[i as int].1@));
            assert(doc@ == unit_document(page_title@, expected[i as int]));
            assert(document_views(documents@) =~= document_views(before).push(doc@));
            assert(search_documents(page_title@, nodes).subrange(0, i as int + 2)
                =~= search_documents(page_title@, nodes).subrange(0, i as int + 1).push(doc@));
        }
        i += 1;
    }
    proof {
        let all = search_documents(page_title@, nodes);
        assert(all.subrange(0, all.len() as int) =~= all);
    }
    SearchIndex(documents)
}

} // verus!
