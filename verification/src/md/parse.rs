//! Parsing: Markdown text goes through `markdown_it`, and what it yields is
//! read into the library's own document tree.

use vstd::prelude::*;
use crate::md::code::{asks_line_numbers, file_of, language_of, FancyCodeBlockRule};
use crate::md::headings::FancyHeading;
use crate::md::image::FancyImage;
use crate::md::node::{levels_ok, AstNode, KindView, NodeKind};
use crate::md::syntax::{
    as_block_kind, as_code_block, as_code_fence, as_container_kind, as_heading, as_image,
    as_break_kind, as_inline_kind, as_link, as_ordered_list, as_text, child_at, child_count,
    html_of, is_leaf_block, parse_markdown, parsed, text_of_subtree, tree_of, SyntaxTree,
};

verus! {

/// How deep below the root a node may stand and still be read by kind;
/// whatever lies deeper is kept as a generic node.
pub const MAX_DEPTH: usize = 64;

/// The kind under which a parsed node is read, and whether its children
/// are read too; nothing if it is read as a generic node. Text comes first,
/// then a heading of level 1 to 6 (one of another level is generic), an
/// image, a link, an indented code block, a fenced one with what its
/// information string says, a numbered list, and last the kinds without
/// data. Text, code blocks and line breaks are read without children.
pub open spec fn kind_read(tree: SyntaxTree) -> Option<(KindView, bool)> {
    if tree.text is Some {
        Some((KindView::Text(tree.text->0), false))
    } else if tree.heading is Some {
        if 1 <= tree.heading->0 <= 6 {
            Some((KindView::Heading(tree.heading->0), true))
        } else {
            None
        }
    } else if tree.image is Some {
        let target = tree.image->0;
        Some((KindView::Image { url: target.0, title: target.1 }, true))
    } else if tree.link is Some {
        let target = tree.link->0;
        Some((KindView::Link { url: target.0, title: target.1 }, true))
    } else if tree.code_block is Some {
        Some(
            (
                KindView::CodeBlock {
                    language: None,
                    show_line_numbers: false,
                    file: None,
                    content: tree.code_block->0,
                },
                false,
            ),
        )
    } else if tree.code_fence is Some {
        let fence = tree.code_fence->0;
        let info = fence.0;
        Some(
            (
                KindView::CodeBlock {
                    language: language_of(info),
                    show_line_numbers: asks_line_numbers(info),
                    file: file_of(info),
                    content: fence.1,
                },
                false,
            ),
        )
    } else if tree.ordered_list is Some {
        Some((KindView::OrderedList { start: tree.ordered_list->0 }, true))
    } else {
        match tree.plain {
            Some(KindView::Root) => Some((KindView::Root, true)),
            Some(KindView::Paragraph) => Some((KindView::Paragraph, true)),
            Some(KindView::Blockquote) => Some((KindView::Blockquote, true)),
            Some(KindView::BulletList) => Some((KindView::BulletList, true)),
            Some(KindView::ListItem) => Some((KindView::ListItem, true)),
            Some(KindView::Softbreak) => Some((KindView::Softbreak, false)),
            Some(KindView::Hardbreak) => Some((KindView::Hardbreak, false)),
            Some(KindView::Emphasis) => Some((KindView::Emphasis, true)),
            Some(KindView::Strong) => Some((KindView::Strong, true)),
            Some(KindView::Strikethrough) => Some((KindView::Strikethrough, true)),
            Some(KindView::InlineCode) => Some((KindView::InlineCode, true)),
            _ => None,
        }
    }
}

/// Whether a parsed tree is a block, which begins on a line of its own: a
/// thematic break, a table, a setext heading, or a tree that is read as a
/// paragraph, a block quote, a list, a heading or a code block.
pub open spec fn on_own_line(tree: SyntaxTree) -> bool {
    tree.leaf_block || match kind_read(tree) {
        Some((kind, _)) => kind is Paragraph || kind is Blockquote || kind is BulletList
            || kind is OrderedList || kind is Heading || kind is CodeBlock,
        None => false,
    }
}

/// Whether a node of a document is what a parsed tree is read as, down to
/// `depth` levels. A tree that is read by kind gives a node of that kind,
/// over one node for each of its children where they are read, each read
/// one level less deep. A tree that is not read by kind, or lies at depth
/// 0, gives a generic node with the HTML and the plain text of the tree,
/// marked as a block if the tree is one.
pub open spec fn reads_as(out: AstNode, tree: SyntaxTree, depth: nat) -> bool
    decreases depth,
{
    if depth == 0 || kind_read(tree) is None {
        &&& out.kind@ == (KindView::Generic {
            html: tree.html,
            text: tree.plain_text,
            own_line: on_own_line(tree),
        })
        &&& out.children@.len() == 0
    } else {
        let read = kind_read(tree)->0;
        &&& out.kind@ == read.0
        &&& if read.1 {
            &&& out.children@.len() == tree.children.len()
            &&& forall|i: int|
                0 <= i < tree.children.len() ==> reads_as(
                    #[trigger] out.children@[i],
                    tree.children[i],
                    (depth - 1) as nat,
                )
        } else {
            out.children@.len() == 0
        }
    }
}

/// Whether a document is what a Markdown text parses to: what the parsed
/// tree is read as, if that is a root; else a root over it.
pub open spec fn parses_to(document: AstNode, input: Seq<char>) -> bool {
    let tree = parsed(input);
    if kind_read(tree) matches Some((KindView::Root, _)) {
        reads_as(document, tree, MAX_DEPTH as nat)
    } else {
        &&& document.kind is Root
        &&& document.children@.len() == 1
        &&& reads_as(document.children@[0], tree, MAX_DEPTH as nat)
    }
}

/// A parsed node kept whole, as its HTML and its plain text.
fn generic(node: &markdown_it::Node) -> (out: AstNode)
    ensures
        out.kind@ == (KindView::Generic {
            html: tree_of(*node).html,
            text: tree_of(*node).plain_text,
            own_line: on_own_line(tree_of(*node)),
        }),
        out.children@.len() == 0,
        levels_ok(out),
{
    let own_line = is_leaf_block(node) || match kind_of(node) {
        Some((kind, _)) => match kind {
            NodeKind::Paragraph
            | NodeKind::Blockquote
            | NodeKind::BulletList
            | NodeKind::OrderedList { .. }
            | NodeKind::Heading(_)
            | NodeKind::CodeBlock(_) => true,
            _ => false,
        },
        None => false,
    };
    AstNode::new(NodeKind::Generic { html: html_of(node), text: text_of_subtree(node), own_line })
}

/// The kind under which a parsed node is read, if it is read by kind: text,
/// headings of level 1 to 6, images, links, code blocks, lists, and the
/// kinds without data. The second part says whether its children are read too.
fn kind_of(node: &markdown_it::Node) -> (found: Option<(NodeKind, bool)>)
    ensures
        found is Some <==> kind_read(tree_of(*node)) is Some,
        found matches Some((kind, with_children)) ==> Some((kind@, with_children)) == kind_read(
            tree_of(*node),
        ),
        found matches Some((NodeKind::Heading(h), _)) ==> 1 <= h.level <= 6,
{
    if let Some(content) = as_text(node) {
        Some((NodeKind::Text(content), false))
    } else if let Some(level) = as_heading(node) {
        if 1 <= level && level <= 6 {
            Some((NodeKind::Heading(FancyHeading { level }), true))
        } else {
            None
        }
    } else if let Some((url, title)) = as_image(node) {
        Some((NodeKind::Image(FancyImage { url, title }), true))
    } else if let Some((url, title)) = as_link(node) {
        Some((NodeKind::Link { url, title }, true))
    } else if let Some(content) = as_code_block(node) {
        Some((NodeKind::CodeBlock(FancyCodeBlockRule::run(None, content)), false))
    } else if let Some((info, content)) = as_code_fence(node) {
        Some((NodeKind::CodeBlock(FancyCodeBlockRule::run(Some(info.as_str()), content)), false))
    } else if let Some(start) = as_ordered_list(node) {
        Some((NodeKind::OrderedList { start }, true))
    } else {
        match as_block_kind(node) {
            Some(NodeKind::Root) => Some((NodeKind::Root, true)),
            Some(NodeKind::Paragraph) => Some((NodeKind::Paragraph, true)),
            _ => match as_container_kind(node) {
                Some(NodeKind::Blockquote) => Some((NodeKind::Blockquote, true)),
                Some(NodeKind::BulletList) => Some((NodeKind::BulletList, true)),
                Some(NodeKind::ListItem) => Some((NodeKind::ListItem, true)),
                _ => match as_break_kind(node) {
                    Some(NodeKind::Softbreak) => Some((NodeKind::Softbreak, false)),
                    Some(NodeKind::Hardbreak) => Some((NodeKind::Hardbreak, false)),
                    _ => match as_inline_kind(node) {
                        Some(NodeKind::Emphasis) => Some((NodeKind::Emphasis, true)),
                        Some(NodeKind::Strong) => Some((NodeKind::Strong, true)),
                        Some(NodeKind::Strikethrough) => Some((NodeKind::Strikethrough, true)),
                        Some(NodeKind::InlineCode) => Some((NodeKind::InlineCode, true)),
                        _ => None,
                    },
                },
            },
        }
    }
}

/// Reads a parsed node and what lies below it, down to `depth` levels, into
/// a document tree.
fn read_node(node: &markdown_it::Node, depth: usize) -> (out: AstNode)
    ensures
        reads_as(out, tree_of(*node), depth as nat),
        levels_ok(out),
    decreases depth,
{
    if depth == 0 {
        return generic(node);
    }
    match kind_of(node) {
        None => generic(node),
        Some((kind, with_children)) => {
            let mut children: Vec<AstNode> = Vec::new();
            if with_children {
                let n = child_count(node);
                let mut i: usize = 0;
                while i < n
                    invariant
                        depth > 0,
                        n == tree_of(*node).children.len(),
                        i <= n,
                        children@.len() == i,
                        forall|k: int| 0 <= k < children@.len() ==> levels_ok(#[trigger] children@[k]),
                        forall|k: int|
                            0 <= k < children@.len() ==> reads_as(
                                #[trigger] children@[k],
                                tree_of(*node).children[k],
                                (depth - 1) as nat,
                            ),
                    decreases n - i,
                {
                    if let Some(child) = child_at(node, i) {
                        children.push(read_node(child, depth - 1));
                    }
                    i += 1;
                }
            }
            AstNode::with_children(kind, children)
        },
    }
}

/// The document tree of a Markdown text. Parsing never fails: what is no
/// heading, code block or image of the expected form is an ordinary
/// paragraph, or is kept as a generic node.
pub fn ast(input: &str) -> (document: AstNode)
    ensures
        parses_to(document, input@),
        document.wf(),
        document.kind is Root,
{
    let tree = parse_markdown(input);
    let node = read_node(&tree, MAX_DEPTH);
    match &node.kind {
        NodeKind::Root => node,
        _ => {
            let mut children: Vec<AstNode> = Vec::new();
            children.push(node);
            AstNode::with_children(NodeKind::Root, children)
        },
    }
}

} // verus!
