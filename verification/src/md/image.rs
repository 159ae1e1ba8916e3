//! Images, which are rendered as figures that link to the full image.

use vstd::prelude::*;
use vstd::string::StringExecFns;
use crate::md::node::{AstNode, NodeKind};

verus! {

/// An image: where it points, and its optional title.
#[derive(Debug, PartialEq, Eq)]
pub struct FancyImage {
    pub url: String,
    pub title: Option<String>,
}


/// The text that a node contributes to a description by itself.
pub open spec fn own_alt(kind: NodeKind) -> Seq<char> {
    match kind {
        NodeKind::Text(content) => content@,
        NodeKind::Generic { html: _, text, own_line: _ } => text@,
        _ => Seq::empty(),
    }
}

/// The description of an image: the text nodes below it, in document order.
pub open spec fn alt_of(node: AstNode) -> Seq<char>
    decreases node,
{
    own_alt(node.kind) + alts_of(node.children@)
}

/// The descriptions that a list of subtrees gives, one after the other.
pub open spec fn alts_of(nodes: Seq<AstNode>) -> Seq<char>
    decreases nodes,
{
    if nodes.len() == 0 {
        Seq::empty()
    } else {
        alts_of(nodes.drop_last()) + alt_of(nodes.last())
    }
}

/// The attributes of the `img` element: the source, the title if there is
/// one, and the description unless it is empty.
pub open spec fn img_attrs_of(image: FancyImage, alt: Seq<char>) -> Seq<(Seq<char>, Seq<char>)> {
    let with_title = match image.title {
        Some(t) => seq![("src"@, image.url@), ("title"@, t@)],
        None => seq![("src"@, image.url@)],
    };
    if alt.len() > 0 {
        with_title.push(("alt"@, alt))
    } else {
        with_title
    }
}

/// Appends the description that a subtree gives to `out`.
pub fn collect_alt_into(node: &AstNode, out: &mut String)
    ensures
        final(out)@ == old(out)@ + alt_of(*node),
    decreases node,
{
    match &node.kind {
        NodeKind::Text(content) => {
            out.append(content.as_str());
        },
        NodeKind::Generic { html: _, text, own_line: _ } => {
            out.append(text.as_str());
        },
        _ => {
            assert(old(out)@ + Seq::<char>::empty() =~= old(out)@);
        },
    }
    let n = node.children.len();
    let mut i: usize = 0;
    assert(node.children@.subrange(0, 0) =~= Seq::<AstNode>::empty());
    assert(old(out)@ + own_alt(node.kind) + Seq::<char>::empty() =~= old(out)@ + own_alt(
        node.kind,
    ));
    while i < n
        invariant
            n == node.children@.len(),
            i <= n,
            out@ == old(out)@ + own_alt(node.kind) + alts_of(node.children@.subrange(0, i as int)),
        decreases n - i,
    {
        collect_alt_into(&node.children[i], out);
        proof {
            let upto = node.children@.subrange(0, i as int + 1);
            assert(upto.drop_last() =~= node.children@.subrange(0, i as int));
            assert(upto.last() == node.children@[i as int]);
            assert(old(out)@ + own_alt(node.kind) + alts_of(
                node.children@.subrange(0, i as int),
            ) + alt_of(node.children@[i as int]) =~= old(out)@ + own_alt(node.kind) + alts_of(
                upto,
            ));
        }
        i += 1;
    }
    proof {
        assert(node.children@.subrange(0, n as int) =~= node.children@);
        assert(old(out)@ + own_alt(node.kind) + alts_of(node.children@) =~= old(out)@ + (own_alt(
            node.kind,
        ) + alts_of(node.children@)));
    }
}

} // verus!
