//! The document tree: a closed set of node kinds, and the plain text of a subtree.

use vstd::prelude::*;
use vstd::string::StringExecFns;
use crate::md::admonition::{Admonition, AdmonitionKind};
use crate::md::code::FancyCodeBlock;
use crate::md::headings::FancyHeading;
use crate::md::image::FancyImage;
use crate::text::{push_char, trim, trimmed};

verus! {

/// What a node of a document is.
#[derive(Debug, PartialEq, Eq)]
pub enum NodeKind {
    /// The document itself; its children are the top-level blocks.
    Root,
    /// Plain text.
    Text(String),
    /// A line break inside a paragraph that the source wrote as a newline.
    Softbreak,
    /// A line break that the source asked for.
    Hardbreak,
    Emphasis,
    Strong,
    Strikethrough,
    InlineCode,
    /// A link around its children.
    Link { url: String, title: Option<String> },
    Paragraph,
    /// A block quote around its blocks.
    Blockquote,
    /// A list of items, each marked by a bullet.
    BulletList,
    /// A list of numbered items; the first has the number `start`.
    OrderedList { start: u32 },
    /// An item of a list.
    ListItem,
    /// A heading; its children are its inline content.
    Heading(FancyHeading),
    /// An indented or fenced code block.
    CodeBlock(FancyCodeBlock),
    /// An image; its children are the inline content of its description.
    Image(FancyImage),
    /// A callout; its children are its blocks.
    Admonition(Admonition),
    /// Any other node, kept as the HTML and the plain text that the parser
    /// gave for its whole subtree; `own_line` says whether it is a block,
    /// which begins on a line of its own.
    Generic { html: String, text: String, own_line: bool },
}

/// What a node kind holds, as contracts speak of it.
pub ghost enum KindView {
    Root,
    Text(Seq<char>),
    Softbreak,
    Hardbreak,
    Emphasis,
    Strong,
    Strikethrough,
    InlineCode,
    Link { url: Seq<char>, title: Option<Seq<char>> },
    Paragraph,
    Blockquote,
    BulletList,
    OrderedList { start: u32 },
    ListItem,
    Heading(u8),
    CodeBlock {
        language: Option<Seq<char>>,
        show_line_numbers: bool,
        file: Option<Seq<char>>,
        content: Seq<char>,
    },
    Image { url: Seq<char>, title: Option<Seq<char>> },
    Admonition(AdmonitionKind),
    Generic { html: Seq<char>, text: Seq<char>, own_line: bool },
}

/// What an optional text holds.
pub open spec fn option_view(text: Option<String>) -> Option<Seq<char>> {
    match text {
        Some(t) => Some(t@),
        None => None,
    }
}

impl View for NodeKind {
    type V = KindView;

    open spec fn view(&self) -> KindView {
        match *self {
            NodeKind::Root => KindView::Root,
            NodeKind::Text(content) => KindView::Text(content@),
            NodeKind::Softbreak => KindView::Softbreak,
            NodeKind::Hardbreak => KindView::Hardbreak,
            NodeKind::Emphasis => KindView::Emphasis,
            NodeKind::Strong => KindView::Strong,
            NodeKind::Strikethrough => KindView::Strikethrough,
            NodeKind::InlineCode => KindView::InlineCode,
            NodeKind::Link { url, title } => KindView::Link {
                url: url@,
                title: option_view(title),
            },
            NodeKind::Paragraph => KindView::Paragraph,
            NodeKind::Blockquote => KindView::Blockquote,
            NodeKind::BulletList => KindView::BulletList,
            NodeKind::OrderedList { start } => KindView::OrderedList { start },
            NodeKind::ListItem => KindView::ListItem,
            NodeKind::Heading(h) => KindView::Heading(h.level),
            NodeKind::CodeBlock(block) => KindView::CodeBlock {
                language: option_view(block.meta.language),
                show_line_numbers: block.meta.show_line_numbers,
                file: option_view(block.meta.file),
                content: block.content@,
            },
            NodeKind::Image(image) => KindView::Image {
                url: image.url@,
                title: option_view(image.title),
            },
            NodeKind::Admonition(admonition) => KindView::Admonition(admonition.kind),
            NodeKind::Generic { html, text, own_line } => KindView::Generic {
                html: html@,
                text: text@,
                own_line,
            },
        }
    }
}

/// A node of a document with the nodes below it.
#[derive(Debug, PartialEq, Eq)]
pub struct AstNode {
    pub kind: NodeKind,
    pub children: Vec<AstNode>,
}

/// The text that a node contributes by itself, apart from its children.
pub open spec fn own_text(kind: NodeKind) -> Seq<char> {
    match kind {
        NodeKind::Text(content) => content@,
        NodeKind::Softbreak => seq!['\n'],
        NodeKind::Generic { html: _, text, own_line: _ } => text@,
        _ => Seq::empty(),
    }
}

/// The plain text of a subtree: the text of each node in document order.
pub open spec fn text_of(node: AstNode) -> Seq<char>
    decreases node,
{
    own_text(node.kind) + texts_of(node.children@)
}

/// The plain text of a list of subtrees, one after the other.
pub open spec fn texts_of(nodes: Seq<AstNode>) -> Seq<char>
    decreases nodes,
{
    if nodes.len() == 0 {
        Seq::empty()
    } else {
        texts_of(nodes.drop_last()) + text_of(nodes.last())
    }
}

/// The plain text of each subtree of a list, joined by single spaces.
pub open spec fn joined_text(nodes: Seq<AstNode>) -> Seq<char>
    decreases nodes.len(),
{
    if nodes.len() == 0 {
        Seq::empty()
    } else if nodes.len() == 1 {
        text_of(nodes[0])
    } else {
        joined_text(nodes.drop_last()) + seq![' '] + text_of(nodes.last())
    }
}

/// What a node adds to the readable text of its parent: text and code as
/// they are; a line break, soft or hard, as a space; what is emphasised, struck through,
/// linked, inline code or a heading as its own readable text; a paragraph as
/// its readable text between two spaces; any other node as its first child
/// if that is text.
pub open spec fn readable_piece(node: AstNode) -> Seq<char>
    decreases node, 1int,
{
    match node.kind {
        NodeKind::Text(content) => content@,
        NodeKind::CodeBlock(block) => block.content@,
        NodeKind::InlineCode
        | NodeKind::Link { .. }
        | NodeKind::Strong
        | NodeKind::Emphasis
        | NodeKind::Strikethrough
        | NodeKind::Heading(_) => readable_text(node),
        NodeKind::Softbreak | NodeKind::Hardbreak => seq![' '],
        NodeKind::Paragraph => seq![' '] + readable_text(node) + seq![' '],
        _ => {
            if node.children@.len() > 0 && node.children@[0].kind is Text {
                node.children@[0].kind->Text_0@
            } else {
                Seq::empty()
            }
        },
    }
}

/// What the nodes of a list add to the readable text of their parent, one after the other.
pub open spec fn readable_pieces(nodes: Seq<AstNode>) -> Seq<char>
    decreases nodes,
{
    if nodes.len() == 0 {
        Seq::empty()
    } else {
        readable_pieces(nodes.drop_last()) + readable_piece(nodes.last())
    }
}

/// The readable text of a node: what its children add, without the white
/// space at either end.
pub open spec fn readable_text(node: AstNode) -> Seq<char>
    decreases node, 0int,
{
    trimmed(readable_pieces(node.children@))
}

/// The readable text of a node: text and code of its children in order,
/// paragraphs set apart by spaces, without white space at either end.
pub fn node_to_string(node: &AstNode) -> (text: String)
    ensures
        text@ == readable_text(*node),
    decreases node,
{
    let mut text = String::new();
    let n = node.children.len();
    let mut i: usize = 0;
    assert(node.children@.subrange(0, 0) =~= Seq::<AstNode>::empty());
    while i < n
        invariant
            n == node.children@.len(),
            i <= n,
            text@ == readable_pieces(node.children@.subrange(0, i as int)),
        decreases n - i,
    {
        let sub = &node.children[i];
        let ghost before = text@;
        proof {
            let upto = node.children@.subrange(0, i as int + 1);
            assert(upto.drop_last() =~= node.children@.subrange(0, i as int));
            assert(upto.last() == *sub);
            reveal_strlit(" ");
            assert(" "@ =~= seq![' ']);
        }
        match &sub.kind {
            NodeKind::Text(content) => {
                text.append(content.as_str());
            },
            NodeKind::CodeBlock(block) => {
                text.append(block.content.as_str());
            },
            NodeKind::InlineCode
            | NodeKind::Link { .. }
            | NodeKind::Strong
            | NodeKind::Emphasis
            | NodeKind::Strikethrough
            | NodeKind::Heading(_) => {
                let inner = node_to_string(sub);
                text.append(inner.as_str());
            },
            NodeKind::Softbreak | NodeKind::Hardbreak => {
                text.append(" ");
            },
            NodeKind::Paragraph => {
                let inner = node_to_string(sub);
                text.append(" ");
                text.append(inner.as_str());
                text.append(" ");
                assert(text@ =~= before + (seq![' '] + readable_text(*sub) + seq![' ']));
            },
            _ => {
                if sub.children.len() > 0 {
                    if let NodeKind::Text(content) = &sub.children[0].kind {
                        text.append(content.as_str());
                    } else {
                        assert(text@ =~= before + Seq::<char>::empty());
                    }
                } else {
                    assert(text@ =~= before + Seq::<char>::empty());
                }
            },
        }
        assert(text@ == before + readable_piece(*sub));
        i += 1;
    }
    assert(node.children@.subrange(0, n as int) =~= node.children@);
    trim(text.as_str())
}

/// Every heading in the subtree has a level from 1 to 6.
pub open spec fn levels_ok(node: AstNode) -> bool
    decreases node,
{
    &&& node.kind matches NodeKind::Heading(h) ==> 1 <= h.level <= 6
    &&& forall|i: int| 0 <= i < node.children@.len() ==> levels_ok(#[trigger] node.children@[i])
}

impl AstNode {
    /// A node of the given kind without children.
    pub fn new(kind: NodeKind) -> (node: Self)
        ensures
            node.kind == kind,
            node.children@.len() == 0,
    {
        Self { kind, children: Vec::new() }
    }

    /// A node of the given kind over the given children.
    pub fn with_children(kind: NodeKind, children: Vec<AstNode>) -> (node: Self)
        ensures
            node.kind == kind,
            node.children == children,
    {
        Self { kind, children }
    }

    /// Every heading in the subtree has a level from 1 to 6.
    pub open spec fn wf(&self) -> bool {
        levels_ok(*self)
    }

    /// The level of the node if it is a heading.
    pub open spec fn heading_level(&self) -> Option<u8> {
        match self.kind {
            NodeKind::Heading(h) => Some(h.level),
            _ => None,
        }
    }

    /// The level of the node if it is a heading.
    pub fn heading(&self) -> (level: Option<u8>)
        ensures
            level == self.heading_level(),
    {
        match &self.kind {
            NodeKind::Heading(h) => Some(h.level),
            _ => None,
        }
    }

    /// Appends the plain text of the subtree to `out`.
    pub fn collect_text_into(&self, out: &mut String)
        ensures
            final(out)@ == old(out)@ + text_of(*self),
        decreases self,
    {
        match &self.kind {
            NodeKind::Text(content) => {
                out.append(content.as_str());
            },
            NodeKind::Softbreak => {
                push_char(out, '\n');
                assert(old(out)@.push('\n') =~= old(out)@ + seq!['\n']);
            },
            NodeKind::Generic { html: _, text, own_line: _ } => {
                out.append(text.as_str());
            },
            _ => {
                assert(old(out)@ + Seq::<char>::empty() =~= old(out)@);
            },
        }
        let n = self.children.len();
        let mut i: usize = 0;
        assert(self.children@.subrange(0, 0) =~= Seq::<AstNode>::empty());
        assert(old(out)@ + own_text(self.kind) + Seq::<char>::empty() =~= old(out)@ + own_text(
            self.kind,
        ));
        while i < n
            invariant
                n == self.children@.len(),
                i <= n,
                out@ == old(out)@ + own_text(self.kind) + texts_of(
                    self.children@.subrange(0, i as int),
                ),
            decreases n - i,
        {
            let ghost before = out@;
            self.children[i].collect_text_into(out);
            proof {
                let upto = self.children@.subrange(0, i as int + 1);
                assert(upto.drop_last() =~= self.children@.subrange(0, i as int));
                assert(upto.last() == self.children@[i as int]);
                assert(old(out)@ + own_text(self.kind) + texts_of(
                    self.children@.subrange(0, i as int),
                ) + text_of(self.children@[i as int]) =~= old(out)@ + own_text(self.kind)
                    + texts_of(upto));
            }
            i += 1;
        }
        proof {
            assert(self.children@.subrange(0, n as int) =~= self.children@);
            assert(old(out)@ + own_text(self.kind) + texts_of(self.children@) =~= old(out)@ + (
            own_text(self.kind) + texts_of(self.children@)));
        }
    }

    /// The plain text of the subtree: every text node in document order, a
    /// newline for each soft break.
    pub fn collect_text(&self) -> (text: String)
        ensures
            text@ == text_of(*self),
    {
        let mut out = String::new();
        self.collect_text_into(&mut out);
        assert(Seq::<char>::empty() + text_of(*self) =~= text_of(*self));
        out
    }
}

} // verus!
