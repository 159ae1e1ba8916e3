//! The title that a document gives itself.

use vstd::prelude::*;
use crate::md::node::{option_view, text_of, AstNode};
use crate::md::parse::{ast, parses_to};

verus! {

/// The first index from `from` on at which a heading of level 1 stands, or
/// the number of nodes if there is none.
pub open spec fn first_title(nodes: Seq<AstNode>, from: int) -> int
    decreases nodes.len() - from,
{
    if from < 0 || from >= nodes.len() {
        nodes.len() as int
    } else if nodes[from].heading_level() == Some(1u8) {
        from
    } else {
        first_title(nodes, from + 1)
    }
}

/// The title of a document with the given top-level nodes: the text of its
/// first heading of level 1, wherever it stands among them.
pub open spec fn title_of(nodes: Seq<AstNode>) -> Option<Seq<char>> {
    let first = first_title(nodes, 0);
    if first < nodes.len() {
        Some(text_of(nodes[first]))
    } else {
        None
    }
}

/// Whether a title is the one that a Markdown text gives itself: that of the
/// document that the text parses to.
pub open spec fn is_title_of(title: Option<Seq<char>>, body: Seq<char>) -> bool {
    exists|document: AstNode| #[trigger]
        parses_to(document, body) && title == title_of(document.children@)
}

/// The title of a parsed document: the plain text of its first heading of
/// level 1; headings of other levels before it are passed over.
pub fn document_title(document: &AstNode) -> (title: Option<String>)
    ensures
        title is Some <==> title_of(document.children@) is Some,
        title matches Some(t) ==> Some(t@) == title_of(document.children@),
{
    let n = document.children.len();
    let mut i: usize = 0;
    while i < n
        invariant
            n == document.children@.len(),
            i <= n,
            first_title(document.children@, i as int) == first_title(document.children@, 0),
        decreases n - i,
    {
        if let Some(level) = document.children[i].heading() {
            if level == 1 {
                return Some(document.children[i].collect_text());
            }
        }
        i += 1;
    }
    None
}

/// The title that a Markdown text gives itself: it is parsed, and the title
/// is that of the parsed document.
pub fn get_document_title(body: &str) -> (title: Option<String>)
    ensures
        is_title_of(option_view(title), body@),
{
    let document = ast(body);
    let title = document_title(&document);
    assert(parses_to(document, body@) && option_view(title) == title_of(document.children@));
    title
}

} // verus!
