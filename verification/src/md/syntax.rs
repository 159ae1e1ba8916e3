//! What the library asks of `markdown_it`: parsing, and reading one parsed node.

use vstd::prelude::*;
use crate::md::node::{option_view, KindView, NodeKind};

verus! {

#[verifier::external_type_specification]
#[verifier::external_body]
pub struct ExSyntaxNode(markdown_it::Node);

/// What a parsed node holds, as far as the library reads it.
pub ghost struct SyntaxTree {
    /// The content, where the node is `Text`.
    pub text: Option<Seq<char>>,
    /// The level, where the node is `ATXHeading`.
    pub heading: Option<u8>,
    /// The target and the title, where the node is `Image`.
    pub image: Option<(Seq<char>, Option<Seq<char>>)>,
    /// The target and the title, where the node is `Link`.
    pub link: Option<(Seq<char>, Option<Seq<char>>)>,
    /// The source, where the node is `CodeBlock`, an indented block.
    pub code_block: Option<Seq<char>>,
    /// The information string and the source, where the node is `CodeFence`.
    pub code_fence: Option<(Seq<char>, Seq<char>)>,
    /// The first number, where the node is `OrderedList`.
    pub ordered_list: Option<u32>,
    /// Which it is, where the node is of one of the types that carry no
    /// data that the library reads: the root, a paragraph, a block quote,
    /// a bullet list, a list item, a soft break, a hard break, emphasis,
    /// strong emphasis, strikethrough or inline code.
    pub plain: Option<KindView>,
    /// Whether the node is a thematic break, a table or a setext heading:
    /// the blocks that the library does not read by kind.
    pub leaf_block: bool,
    /// What `Node::render` gives for the node with all below it.
    pub html: Seq<char>,
    /// What `Node::collect_text` gives for the node with all below it.
    pub plain_text: Seq<char>,
    /// What the children of the node hold, in order.
    pub children: Seq<SyntaxTree>,
}

/// What a parsed node holds.
pub uninterp spec fn tree_of(node: markdown_it::Node) -> SyntaxTree;

/// What the tree holds that `markdown_it` parses a text to, under the rules
/// that the library parses with.
pub uninterp spec fn parsed(input: Seq<char>) -> SyntaxTree;

/// What an optional pair of a text and an optional text holds.
pub open spec fn target_view(pair: Option<(String, Option<String>)>) -> Option<
    (Seq<char>, Option<Seq<char>>),
> {
    match pair {
        Some((url, title)) => Some((url@, option_view(title))),
        None => None,
    }
}

/// What an optional pair of texts holds.
pub open spec fn fence_view(pair: Option<(String, String)>) -> Option<(Seq<char>, Seq<char>)> {
    match pair {
        Some((info, content)) => Some((info@, content@)),
        None => None,
    }
}

/// What an optional kind holds.
pub open spec fn found_view(kind: Option<NodeKind>) -> Option<KindView> {
    match kind {
        Some(k) => Some(k@),
        None => None,
    }
}

/// The kind of a node that is the root or a paragraph.
pub open spec fn block_part(plain: Option<KindView>) -> Option<KindView> {
    match plain {
        Some(KindView::Root) => Some(KindView::Root),
        Some(KindView::Paragraph) => Some(KindView::Paragraph),
        _ => None,
    }
}

/// The kind of a node that is a block quote, a bullet list or a list item.
pub open spec fn container_part(plain: Option<KindView>) -> Option<KindView> {
    match plain {
        Some(KindView::Blockquote) => Some(KindView::Blockquote),
        Some(KindView::BulletList) => Some(KindView::BulletList),
        Some(KindView::ListItem) => Some(KindView::ListItem),
        _ => None,
    }
}

/// The kind of a node that is a soft break or a hard break.
pub open spec fn break_part(plain: Option<KindView>) -> Option<KindView> {
    match plain {
        Some(KindView::Softbreak) => Some(KindView::Softbreak),
        Some(KindView::Hardbreak) => Some(KindView::Hardbreak),
        _ => None,
    }
}

/// The kind of a node that is emphasis, strong emphasis, strikethrough or
/// inline code.
pub open spec fn inline_part(plain: Option<KindView>) -> Option<KindView> {
    match plain {
        Some(KindView::Emphasis) => Some(KindView::Emphasis),
        Some(KindView::Strong) => Some(KindView::Strong),
        Some(KindView::Strikethrough) => Some(KindView::Strikethrough),
        Some(KindView::InlineCode) => Some(KindView::InlineCode),
        _ => None,
    }
}

/// Parses with `markdown_it`: the CommonMark rules, and of the extra ones
/// strikethrough, link beautifying, tables and the typographer. The tree
/// depends on the text alone, so the contract names what it holds.
#[verifier::external_body]
pub(crate) fn parse_markdown(input: &str) -> (tree: markdown_it::Node)
    ensures
        tree_of(tree) == parsed(input@),
{
    let md = &mut markdown_it::MarkdownIt::new();
    markdown_it::plugins::cmark::add(md);
    markdown_it::plugins::extra::strikethrough::add(md);
    markdown_it::plugins::extra::beautify_links::add(md);
    markdown_it::plugins::extra::tables::add(md);
    markdown_it::plugins::extra::typographer::add(md);
    md.parse(input)
}

/// The number of children of a parsed node (the length of `Node::children`).
#[verifier::external_body]
pub(crate) fn child_count(node: &markdown_it::Node) -> (count: usize)
    ensures
        count == tree_of(*node).children.len(),
{
    node.children.len()
}

/// The child of a parsed node at an index, if it has that many (`get` on
/// `Node::children`).
#[verifier::external_body]
pub(crate) fn child_at(node: &markdown_it::Node, index: usize) -> (child: Option<
    &markdown_it::Node,
>)
    ensures
        child is Some <==> index < tree_of(*node).children.len(),
        child matches Some(c) ==> tree_of(*c) == tree_of(*node).children[index as int],
{
    node.children.get(index)
}

/// The content of a parsed node if `Node::cast` finds it to be `Text`.
#[verifier::external_body]
pub(crate) fn as_text(node: &markdown_it::Node) -> (found: Option<String>)
    ensures
        option_view(found) == tree_of(*node).text,
{
    node.cast::<markdown_it::parser::inline::Text>().map(|t| t.content.clone())
}

/// The level of a parsed node if `Node::cast` finds it to be `ATXHeading`.
#[verifier::external_body]
pub(crate) fn as_heading(node: &markdown_it::Node) -> (found: Option<u8>)
    ensures
        found == tree_of(*node).heading,
{
    node.cast::<markdown_it::plugins::cmark::block::heading::ATXHeading>().map(|h| h.level)
}

/// The target and title of a parsed node if `Node::cast` finds it to be `Image`.
#[verifier::external_body]
pub(crate) fn as_image(node: &markdown_it::Node) -> (found: Option<(String, Option<String>)>)
    ensures
        target_view(found) == tree_of(*node).image,
{
    node.cast::<markdown_it::plugins::cmark::inline::image::Image>().map(
        |i| (i.url.clone(), i.title.clone()),
    )
}

/// The target and title of a parsed node if `Node::cast` finds it to be `Link`.
#[verifier::external_body]
pub(crate) fn as_link(node: &markdown_it::Node) -> (found: Option<(String, Option<String>)>)
    ensures
        target_view(found) == tree_of(*node).link,
{
    node.cast::<markdown_it::plugins::cmark::inline::link::Link>().map(
        |l| (l.url.clone(), l.title.clone()),
    )
}

/// The source of a parsed node if `Node::cast` finds it to be `CodeBlock`, an indented block.
#[verifier::external_body]
pub(crate) fn as_code_block(node: &markdown_it::Node) -> (found: Option<String>)
    ensures
        option_view(found) == tree_of(*node).code_block,
{
    node.cast::<markdown_it::plugins::cmark::block::code::CodeBlock>().map(|c| c.content.clone())
}

/// The information string and the source of a parsed node if `Node::cast`
/// finds it to be `CodeFence`.
#[verifier::external_body]
pub(crate) fn as_code_fence(node: &markdown_it::Node) -> (found: Option<(String, String)>)
    ensures
        fence_view(found) == tree_of(*node).code_fence,
{
    node.cast::<markdown_it::plugins::cmark::block::fence::CodeFence>().map(
        |c| (c.info.clone(), c.content.clone()),
    )
}

/// The kind of a parsed node if `Node::is` finds it to be the root or a paragraph.
#[verifier::external_body]
pub(crate) fn as_block_kind(node: &markdown_it::Node) -> (found: Option<NodeKind>)
    ensures
        found_view(found) == block_part(tree_of(*node).plain),
{
    if node.is::<markdown_it::parser::core::Root>() {
        return Some(NodeKind::Root);
    }
    if node.is::<markdown_it::plugins::cmark::block::paragraph::Paragraph>() {
        return Some(NodeKind::Paragraph);
    }
    None
}

/// The kind of a parsed node if `Node::is` finds it to be a block quote, a
/// bullet list or a list item.
#[verifier::external_body]
pub(crate) fn as_container_kind(node: &markdown_it::Node) -> (found: Option<NodeKind>)
    ensures
        found_view(found) == container_part(tree_of(*node).plain),
{
    if node.is::<markdown_it::plugins::cmark::block::blockquote::Blockquote>() {
        return Some(NodeKind::Blockquote);
    }
    if node.is::<markdown_it::plugins::cmark::block::list::BulletList>() {
        return Some(NodeKind::BulletList);
    }
    node.is::<markdown_it::plugins::cmark::block::list::ListItem>().then_some(NodeKind::ListItem)
}

/// The first number of a parsed node if `Node::cast` finds it to be `OrderedList`.
#[verifier::external_body]
pub(crate) fn as_ordered_list(node: &markdown_it::Node) -> (found: Option<u32>)
    ensures
        found == tree_of(*node).ordered_list,
{
    node.cast::<markdown_it::plugins::cmark::block::list::OrderedList>().map(|l| l.start)
}

/// The kind of a parsed node if `Node::is` finds it to be a soft break or a hard break.
#[verifier::external_body]
pub(crate) fn as_break_kind(node: &markdown_it::Node) -> (found: Option<NodeKind>)
    ensures
        found_view(found) == break_part(tree_of(*node).plain),
{
    if node.is::<markdown_it::plugins::cmark::inline::newline::Softbreak>() {
        return Some(NodeKind::Softbreak);
    }
    node.is::<markdown_it::plugins::cmark::inline::newline::Hardbreak>().then_some(NodeKind::Hardbreak)
}

/// Whether `Node::is` finds a parsed node to be a thematic break, a table
/// or a setext heading.
#[verifier::external_body]
pub(crate) fn is_leaf_block(node: &markdown_it::Node) -> (yes: bool)
    ensures
        yes == tree_of(*node).leaf_block,
{
    node.is::<markdown_it::plugins::cmark::block::hr::ThematicBreak>()
        || node.is::<markdown_it::plugins::extra::tables::Table>()
        || node.is::<markdown_it::plugins::cmark::block::lheading::SetextHeader>()
}

/// The kind of a parsed node if `Node::is` finds it to be emphasis, strong
/// emphasis, strikethrough or inline code.
#[verifier::external_body]
pub(crate) fn as_inline_kind(node: &markdown_it::Node) -> (found: Option<NodeKind>)
    ensures
        found_view(found) == inline_part(tree_of(*node).plain),
{
    if node.is::<markdown_it::plugins::cmark::inline::emphasis::Em>() {
        return Some(NodeKind::Emphasis);
    }
    if node.is::<markdown_it::plugins::cmark::inline::emphasis::Strong>() {
        return Some(NodeKind::Strong);
    }
    if node.is::<markdown_it::plugins::extra::strikethrough::Strikethrough>() {
        return Some(NodeKind::Strikethrough);
    }
    node.is::<markdown_it::plugins::cmark::inline::backticks::CodeInline>().then_some(NodeKind::InlineCode)
}

/// The HTML that `Node::render` gives for a parsed node with all below it.
#[verifier::external_body]
pub(crate) fn html_of(node: &markdown_it::Node) -> (html: String)
    ensures
        html@ == tree_of(*node).html,
{
    node.render()
}

/// The text that `Node::collect_text` gives for a parsed node with all below it.
#[verifier::external_body]
pub(crate) fn text_of_subtree(node: &markdown_it::Node) -> (text: String)
    ensures
        text@ == tree_of(*node).plain_text,
{
    node.collect_text()
}

} // verus!
