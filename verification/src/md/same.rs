//! Documents that hold the same: what is derived from them is the same.

use vstd::prelude::*;
use crate::md::admonition::kind_name;
use crate::md::headings::{
    h_attrs_of, headings_of, headings_upto, slug_of, text_after, unit_end, units_upto,
    FancyHeading,
};
use crate::md::image::{alt_of, alts_of, img_attrs_of, own_alt};
use crate::md::node::{
    joined_text, option_view, own_text, text_of, texts_of, AstNode, KindView, NodeKind,
};
use crate::md::parse::{kind_read, parses_to, reads_as, MAX_DEPTH};
use crate::md::render::{
    heading_tag, html_of_document, link_attrs_of, list_attrs_of, open_tag, rendered_all,
    rendered_block, rendered_onto, span_tag, with_cr,
};
use crate::md::search::{body_nodes_upto, preamble_end, preamble_text, search_documents};
use crate::md::syntax::{parsed, SyntaxTree};
use crate::md::toc::{same_entries, toc_is_determined, TableOfContents};

verus! {

/// Whether two nodes hold the same: kinds that hold the same, over
/// children that hold the same.
pub open spec fn same_node(a: AstNode, b: AstNode) -> bool
    decreases a,
{
    &&& a.kind@ == b.kind@
    &&& same_nodes(a.children@, b.children@)
}

/// Whether two lists hold the same nodes in the same order.
pub open spec fn same_nodes(a: Seq<AstNode>, b: Seq<AstNode>) -> bool
    decreases a,
{
    &&& a.len() == b.len()
    &&& forall|i: int| 0 <= i < a.len() ==> same_node(#[trigger] a[i], b[i])
}

/// Two nodes that one tree is read as hold the same.
pub proof fn lemma_one_reading(a: AstNode, b: AstNode, tree: SyntaxTree, depth: nat)
    requires
        reads_as(a, tree, depth),
        reads_as(b, tree, depth),
    ensures
        same_node(a, b),
    decreases depth,
{
    if a.children@.len() > 0 {
        assert forall|i: int| 0 <= i < a.children@.len() implies same_node(
            #[trigger] a.children@[i],
            b.children@[i],
        ) by {
            lemma_one_reading(a.children@[i], b.children@[i], tree.children[i], (depth - 1) as nat);
        }
    }
}

/// Kinds that hold the same give the same text and the same level.
pub proof fn lemma_same_kind(a: AstNode, b: AstNode)
    requires
        a.kind@ == b.kind@,
    ensures
        own_text(a.kind) == own_text(b.kind),
        own_alt(a.kind) == own_alt(b.kind),
        a.heading_level() == b.heading_level(),
{
}

/// Lists of the same nodes stay so without their last, and over any stretch.
pub proof fn lemma_same_stretch(a: Seq<AstNode>, b: Seq<AstNode>, from: int, to: int)
    requires
        same_nodes(a, b),
        0 <= from <= to <= a.len(),
    ensures
        same_nodes(a.subrange(from, to), b.subrange(from, to)),
{
    let x = a.subrange(from, to);
    let y = b.subrange(from, to);
    assert forall|i: int| 0 <= i < x.len() implies same_node(#[trigger] x[i], y[i]) by {
        assert(x[i] == a[from + i]);
        assert(y[i] == b[from + i]);
    }
}

/// Nodes that hold the same have the same plain text.
pub proof fn lemma_same_text(a: AstNode, b: AstNode)
    requires
        same_node(a, b),
    ensures
        text_of(a) == text_of(b),
        alt_of(a) == alt_of(b),
    decreases a, 1int,
{
    lemma_same_kind(a, b);
    assert(a.children@ =~= a.children@.subrange(0, a.children@.len() as int));
    lemma_same_texts(a.children@, b.children@, a);
}

/// Lists of the same nodes have the same plain text.
pub proof fn lemma_same_texts(a: Seq<AstNode>, b: Seq<AstNode>, parent: AstNode)
    requires
        same_nodes(a, b),
        a.len() <= parent.children@.len(),
        a == parent.children@.subrange(0, a.len() as int),
    ensures
        texts_of(a) == texts_of(b),
        alts_of(a) == alts_of(b),
    decreases parent, 0int, a.len(),
{
    if a.len() > 0 {
        lemma_same_stretch(a, b, 0, a.len() - 1);
        assert(a.drop_last() =~= parent.children@.subrange(0, a.len() - 1));
        assert(b.drop_last() =~= b.subrange(0, b.len() - 1));
        assert(a.drop_last() =~= a.subrange(0, a.len() - 1));
        lemma_same_texts(a.drop_last(), b.drop_last(), parent);
        assert(a.last() == parent.children@[a.len() - 1]);
        assert(same_node(a[a.len() - 1], b[a.len() - 1]));
        lemma_same_text(a.last(), b.last());
    } else {
        assert(b.len() == 0);
    }
}


/// Nodes that hold the same are rendered the same onto any output.
pub proof fn lemma_same_render(a: AstNode, b: AstNode)
    requires
        same_node(a, b),
    ensures
        forall|buf: Seq<char>| #![trigger rendered_onto(a, buf)] rendered_onto(a, buf) == rendered_onto(b, buf),
    decreases a, 1int,
{
    lemma_same_kind(a, b);
    lemma_same_text(a, b);
    assert(a.children@ =~= a.children@.subrange(0, a.children@.len() as int));
    lemma_same_renders(a.children@, b.children@, a);
    assert forall|buf: Seq<char>| #![trigger rendered_onto(a, buf)] rendered_onto(a, buf) == rendered_onto(b, buf) by {
        lemma_same_render_at(a, b, buf);
    }
}

/// Nodes that hold the same, over children that are rendered the same, are
/// rendered the same onto an output.
pub proof fn lemma_same_render_at(a: AstNode, b: AstNode, buf: Seq<char>)
    requires
        a.kind@ == b.kind@,
        text_of(a) == text_of(b),
        alt_of(a) == alt_of(b),
        forall|onto: Seq<char>|
            #![trigger rendered_all(a.children@, onto)]
            rendered_all(a.children@, onto) == rendered_all(b.children@, onto),
    ensures
        rendered_onto(a, buf) == rendered_onto(b, buf),
{
    match a.kind {
        NodeKind::Root => {
            assert(b.kind is Root);
            let onto = buf;
            assert(rendered_all(a.children@, onto) == rendered_all(b.children@, onto));
        },
        NodeKind::Text(_) => {
            assert(b.kind is Text);
        },
        NodeKind::Softbreak => {
            assert(b.kind is Softbreak);
        },
        NodeKind::Hardbreak => {
            assert(b.kind is Hardbreak);
        },
        NodeKind::Emphasis => {
            assert(b.kind is Emphasis);
            let onto = buf + open_tag(span_tag(a.kind), Seq::empty());
            assert(rendered_all(a.children@, onto) == rendered_all(b.children@, onto));
        },
        NodeKind::Strong => {
            assert(b.kind is Strong);
            let onto = buf + open_tag(span_tag(a.kind), Seq::empty());
            assert(rendered_all(a.children@, onto) == rendered_all(b.children@, onto));
        },
        NodeKind::Strikethrough => {
            assert(b.kind is Strikethrough);
            let onto = buf + open_tag(span_tag(a.kind), Seq::empty());
            assert(rendered_all(a.children@, onto) == rendered_all(b.children@, onto));
        },
        NodeKind::InlineCode => {
            assert(b.kind is InlineCode);
            let onto = buf + open_tag(span_tag(a.kind), Seq::empty());
            assert(rendered_all(a.children@, onto) == rendered_all(b.children@, onto));
        },
        NodeKind::Link { url, title } => {
            assert(b.kind is Link);
            let onto = buf + open_tag("a"@, link_attrs_of(url@, option_view(title)));
            assert(rendered_all(a.children@, onto) == rendered_all(b.children@, onto));
        },
        NodeKind::Paragraph => {
            assert(b.kind is Paragraph);
            let onto = with_cr(buf) + open_tag("p"@, Seq::empty());
            assert(rendered_all(a.children@, onto) == rendered_all(b.children@, onto));
        },
        NodeKind::Blockquote => {
            assert(b.kind is Blockquote);
            lemma_same_block(a, b, "blockquote"@, Seq::empty(), buf);
        },
        NodeKind::BulletList => {
            assert(b.kind is BulletList);
            lemma_same_block(a, b, "ul"@, Seq::empty(), buf);
        },
        NodeKind::OrderedList { start } => {
            assert(b.kind is OrderedList);
            lemma_same_block(a, b, "ol"@, list_attrs_of(start), buf);
        },
        NodeKind::ListItem => {
            assert(b.kind is ListItem);
            let onto = buf + open_tag("li"@, Seq::empty());
            assert(rendered_all(a.children@, onto) == rendered_all(b.children@, onto));
        },
        NodeKind::Heading(FancyHeading { level }) => {
            assert(b.kind is Heading);
            let onto = with_cr(buf) + open_tag(heading_tag(level), h_attrs_of(slug_of(text_of(a))));
            assert(rendered_all(a.children@, onto) == rendered_all(b.children@, onto));
        },
        NodeKind::CodeBlock(block) => {
            assert(b.kind is CodeBlock);
            assert(block.language() == b.kind->CodeBlock_0.language());
        },
        NodeKind::Image(image) => {
            assert(b.kind is Image);
            assert(img_attrs_of(image, alt_of(a)) == img_attrs_of(b.kind->Image_0, alt_of(b)));
        },
        NodeKind::Admonition(admonition) => {
            assert(b.kind is Admonition);
            let onto = with_cr(buf) + open_tag(
                "div"@,
                seq![("admonition-type"@, kind_name(admonition.kind))],
            );
            assert(rendered_all(a.children@, onto) == rendered_all(b.children@, onto));
        },
        NodeKind::Generic { .. } => {
            assert(b.kind is Generic);
        },
    }
}

/// Nodes whose children are rendered the same are rendered the same between two tags.
pub proof fn lemma_same_block(
    a: AstNode,
    b: AstNode,
    tag: Seq<char>,
    attrs: Seq<(Seq<char>, Seq<char>)>,
    buf: Seq<char>,
)
    requires
        forall|onto: Seq<char>|
            #![trigger rendered_all(a.children@, onto)]
            rendered_all(a.children@, onto) == rendered_all(b.children@, onto),
    ensures
        rendered_block(a, tag, attrs, buf) == rendered_block(b, tag, attrs, buf),
{
    let onto = with_cr(with_cr(buf) + open_tag(tag, attrs));
    assert(rendered_all(a.children@, onto) == rendered_all(b.children@, onto));
}

/// Lists of the same nodes are rendered the same onto any output.
pub proof fn lemma_same_renders(a: Seq<AstNode>, b: Seq<AstNode>, parent: AstNode)
    requires
        same_nodes(a, b),
        a.len() <= parent.children@.len(),
        a == parent.children@.subrange(0, a.len() as int),
    ensures
        forall|buf: Seq<char>| #![trigger rendered_all(a, buf)] rendered_all(a, buf) == rendered_all(b, buf),
    decreases parent, 0int, a.len(),
{
    if a.len() > 0 {
        lemma_same_stretch(a, b, 0, a.len() - 1);
        assert(a.drop_last() =~= parent.children@.subrange(0, a.len() - 1));
        assert(b.drop_last() =~= b.subrange(0, b.len() - 1));
        assert(a.drop_last() =~= a.subrange(0, a.len() - 1));
        lemma_same_renders(a.drop_last(), b.drop_last(), parent);
        assert(a.last() == parent.children@[a.len() - 1]);
        assert(same_node(a[a.len() - 1], b[a.len() - 1]));
        lemma_same_render(a.last(), b.last());
        assert forall|buf: Seq<char>| #![trigger rendered_all(a, buf)] rendered_all(a, buf) == rendered_all(b, buf) by {
            let before = rendered_all(a.drop_last(), buf);
            assert(before == rendered_all(b.drop_last(), buf));
            assert(rendered_onto(a.last(), before) == rendered_onto(b.last(), before));
        }
    } else {
        assert(b.len() == 0);
    }
}


/// Nodes at one place in two lists of the same nodes have the same level and text.
pub proof fn lemma_same_at(a: Seq<AstNode>, b: Seq<AstNode>, i: int)
    requires
        same_nodes(a, b),
        0 <= i < a.len(),
    ensures
        a[i].heading_level() == b[i].heading_level(),
        text_of(a[i]) == text_of(b[i]),
{
    assert(same_node(a[i], b[i]));
    lemma_same_kind(a[i], b[i]);
    lemma_same_text(a[i], b[i]);
}

/// Lists of the same nodes have the same section headings.
pub proof fn lemma_same_headings(a: Seq<AstNode>, b: Seq<AstNode>, n: int)
    requires
        same_nodes(a, b),
        0 <= n <= a.len(),
    ensures
        headings_upto(a, n) == headings_upto(b, n),
    decreases n,
{
    if n > 0 {
        lemma_same_headings(a, b, n - 1);
        lemma_same_at(a, b, n - 1);
    }
}

/// In lists of the same nodes the next heading stands at the same place.
pub proof fn lemma_same_unit_end(a: Seq<AstNode>, b: Seq<AstNode>, from: int)
    requires
        same_nodes(a, b),
        0 <= from <= a.len(),
    ensures
        unit_end(a, from) == unit_end(b, from),
        from <= unit_end(a, from) <= a.len(),
    decreases a.len() - from,
{
    if from < a.len() {
        lemma_same_at(a, b, from);
        if a[from].heading_level() is None {
            lemma_same_unit_end(a, b, from + 1);
        }
    }
}

/// In lists of the same nodes the preamble ends at the same place.
pub proof fn lemma_same_preamble_end(a: Seq<AstNode>, b: Seq<AstNode>, from: int)
    requires
        same_nodes(a, b),
        0 <= from <= a.len(),
    ensures
        preamble_end(a, from) == preamble_end(b, from),
        from <= preamble_end(a, from) <= a.len(),
    decreases a.len() - from,
{
    if from < a.len() {
        lemma_same_at(a, b, from);
        if !(a[from].heading_level() matches Some(level) && level != 1) {
            lemma_same_preamble_end(a, b, from + 1);
        }
    }
}

/// Lists of the same nodes have the same joined text.
pub proof fn lemma_same_joined(a: Seq<AstNode>, b: Seq<AstNode>)
    requires
        same_nodes(a, b),
    ensures
        joined_text(a) == joined_text(b),
    decreases a.len(),
{
    if a.len() > 0 {
        lemma_same_at(a, b, a.len() - 1);
        lemma_same_at(a, b, 0);
        lemma_same_stretch(a, b, 0, a.len() - 1);
        assert(a.drop_last() =~= a.subrange(0, a.len() - 1));
        assert(b.drop_last() =~= b.subrange(0, b.len() - 1));
        lemma_same_joined(a.drop_last(), b.drop_last());
    }
}

/// Lists of the same nodes have the same nodes that are no headings.
pub proof fn lemma_same_body(a: Seq<AstNode>, b: Seq<AstNode>, n: int)
    requires
        same_nodes(a, b),
        0 <= n <= a.len(),
    ensures
        same_nodes(body_nodes_upto(a, n), body_nodes_upto(b, n)),
    decreases n,
{
    if n > 0 {
        lemma_same_body(a, b, n - 1);
        lemma_same_at(a, b, n - 1);
        let x = body_nodes_upto(a, n);
        let y = body_nodes_upto(b, n);
        let before_x = body_nodes_upto(a, n - 1);
        let before_y = body_nodes_upto(b, n - 1);
        assert forall|i: int| 0 <= i < x.len() implies same_node(#[trigger] x[i], y[i]) by {
            if i < before_x.len() {
                assert(x[i] == before_x[i] && y[i] == before_y[i]);
            } else {
                assert(same_node(a[n - 1], b[n - 1]));
            }
        }
    }
}

/// Lists of the same nodes have the same units: the same section headings
/// with the same text after each.
pub proof fn lemma_same_units(a: Seq<AstNode>, b: Seq<AstNode>, n: int)
    requires
        same_nodes(a, b),
        0 <= n <= a.len(),
    ensures
        units_upto(a, n) == units_upto(b, n),
    decreases n,
{
    if n > 0 {
        lemma_same_units(a, b, n - 1);
        lemma_same_at(a, b, n - 1);
        lemma_same_unit_end(a, b, n);
        let end = unit_end(a, n);
        lemma_same_stretch(a, b, n, end);
        lemma_same_joined(a.subrange(n, end), b.subrange(n, end));
        assert(text_after(a, n - 1) == text_after(b, n - 1));
    }
}

/// Documents that hold the same give the same HTML, the same section
/// headings and, under one page title, the same search documents.
pub proof fn lemma_same_outputs(a: AstNode, b: AstNode, page_title: Seq<char>)
    requires
        same_node(a, b),
    ensures
        html_of_document(a) == html_of_document(b),
        headings_of(a.children@) == headings_of(b.children@),
        search_documents(page_title, a.children@) == search_documents(page_title, b.children@),
{
    let x = a.children@;
    let y = b.children@;
    lemma_same_render(a, b);
    assert(rendered_onto(a, Seq::empty()) == rendered_onto(b, Seq::empty()));
    lemma_same_headings(x, y, x.len() as int);
    lemma_same_units(x, y, x.len() as int);
    lemma_same_preamble_end(x, y, 0);
    lemma_same_body(x, y, preamble_end(x, 0));
    lemma_same_joined(body_nodes_upto(x, preamble_end(x, 0)), body_nodes_upto(y, preamble_end(y, 0)));
    assert(preamble_text(x) == preamble_text(y));
}

/// What is derived from a text depends on the text alone: two documents
/// that one text parses to give the same HTML, the same section headings
/// for the table of contents and, under one page title, the same search
/// documents.
pub proof fn same_text_same_outputs(
    text: Seq<char>,
    first: AstNode,
    second: AstNode,
    page_title: Seq<char>,
)
    requires
        parses_to(first, text),
        parses_to(second, text),
    ensures
        same_node(first, second),
        html_of_document(first) == html_of_document(second),
        headings_of(first.children@) == headings_of(second.children@),
        search_documents(page_title, first.children@) == search_documents(
            page_title,
            second.children@,
        ),
{
    let tree = parsed(text);
    if kind_read(tree) matches Some((KindView::Root, _)) {
        lemma_one_reading(first, second, tree, MAX_DEPTH as nat);
    } else {
        lemma_one_reading(first.children@[0], second.children@[0], tree, MAX_DEPTH as nat);
        assert(same_nodes(first.children@, second.children@));
    }
    lemma_same_outputs(first, second, page_title);
}


/// The table of contents of a text depends on the text alone: two tables
/// of the documents that one text parses to hold the same entries.
pub proof fn same_text_same_table(
    text: Seq<char>,
    first: AstNode,
    second: AstNode,
    a: TableOfContents,
    b: TableOfContents,
)
    requires
        parses_to(first, text),
        parses_to(second, text),
        a.wf(),
        b.wf(),
        a.outline() == headings_of(first.children@),
        b.outline() == headings_of(second.children@),
    ensures
        same_entries(a.entries@, b.entries@),
{
    same_text_same_outputs(text, first, second, Seq::empty());
    toc_is_determined(a.entries@, b.entries@, 1);
}

} // verus!
