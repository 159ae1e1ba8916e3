//! Rendering of a document tree to HTML.

use vstd::prelude::*;
use vstd::string::StringExecFns;
use crate::md::admonition::kind_name;
use crate::md::headings::{
    a_attrs, a_attrs_of, attr_pairs, h_attrs, h_attrs_of, slug_of, slugify,
};
use crate::md::highlight::{highlighted, Highlighter};
use crate::md::image::{alt_of, collect_alt_into, img_attrs_of};
use crate::md::node::{text_of, AstNode, NodeKind};
use crate::text::{decimal, decimal_of, ends_with_char, push_char, replace_char, replaced};

verus! {

/// What one character becomes inside HTML text or a double-quoted attribute.
pub open spec fn escape_char(c: char) -> Seq<char> {
    if c == '&' {
        "&amp;"@
    } else if c == '<' {
        "&lt;"@
    } else if c == '>' {
        "&gt;"@
    } else if c == '"' {
        "&quot;"@
    } else {
        seq![c]
    }
}

/// A text with `&`, `<`, `>` and `"` replaced by their entities.
pub open spec fn escaped(s: Seq<char>) -> Seq<char>
    decreases s.len(),
{
    if s.len() == 0 {
        Seq::empty()
    } else {
        escaped(s.drop_last()) + escape_char(s.last())
    }
}

/// Calls `markdown_it::common::utils::escape_html`, which replaces `&`, `<`,
/// `>` and `"` by `&amp;`, `&lt;`, `&gt;` and `&quot;` and keeps every other
/// character.
#[verifier::external_body]
pub(crate) fn escape_html(s: &str) -> (out: String)
    ensures
        out@ == escaped(s@),
{
    markdown_it::common::utils::escape_html(s).into_owned()
}

/// One attribute inside a tag: a space, the name, and the value in double quotes.
pub open spec fn attr_html(attr: (Seq<char>, Seq<char>)) -> Seq<char> {
    seq![' '] + escaped(attr.0) + "=\""@ + escaped(attr.1) + "\""@
}

/// The attributes of a tag, one after the other.
pub open spec fn attrs_html(attrs: Seq<(Seq<char>, Seq<char>)>) -> Seq<char>
    decreases attrs.len(),
{
    if attrs.len() == 0 {
        Seq::empty()
    } else {
        attrs_html(attrs.drop_last()) + attr_html(attrs.last())
    }
}

/// An opening tag with its attributes.
pub open spec fn open_tag(tag: Seq<char>, attrs: Seq<(Seq<char>, Seq<char>)>) -> Seq<char> {
    "<"@ + tag + attrs_html(attrs) + ">"@
}

/// A closing tag.
pub open spec fn close_tag(tag: Seq<char>) -> Seq<char> {
    "</"@ + tag + ">"@
}

/// The output with a line break at its end, unless it is empty or ends in one.
pub open spec fn with_cr(buf: Seq<char>) -> Seq<char> {
    if buf.len() == 0 || buf.last() == '\n' {
        buf
    } else {
        buf.push('\n')
    }
}

/// The tag of a section heading; a level beyond 6 is rendered as level 6.
pub open spec fn heading_tag(level: u8) -> Seq<char> {
    if level == 2 {
        "h2"@
    } else if level == 3 {
        "h3"@
    } else if level == 4 {
        "h4"@
    } else if level == 5 {
        "h5"@
    } else {
        "h6"@
    }
}

/// The tag of a node that is rendered as its children between two tags.
pub open spec fn span_tag(kind: NodeKind) -> Seq<char> {
    match kind {
        NodeKind::Emphasis => "em"@,
        NodeKind::Strong => "strong"@,
        NodeKind::Strikethrough => "s"@,
        _ => "code"@,
    }
}

/// The attributes of a link.
pub open spec fn link_attrs_of(url: Seq<char>, title: Option<Seq<char>>) -> Seq<
    (Seq<char>, Seq<char>),
> {
    match title {
        Some(t) => seq![("href"@, url), ("title"@, t)],
        None => seq![("href"@, url)],
    }
}

/// The output after the children of a node have been rendered onto it
/// between two tags that stand on lines of their own.
pub open spec fn rendered_block(
    node: AstNode,
    tag: Seq<char>,
    attrs: Seq<(Seq<char>, Seq<char>)>,
    buf: Seq<char>,
) -> Seq<char>
    decreases node, 0int,
{
    with_cr(
        with_cr(rendered_all(node.children@, with_cr(with_cr(buf) + open_tag(tag, attrs))))
            + close_tag(tag),
    )
}

/// The attributes of a numbered list: its first number, unless that is 1.
pub open spec fn list_attrs_of(start: u32) -> Seq<(Seq<char>, Seq<char>)> {
    if start != 1 {
        seq![("start"@, decimal_of(start as nat))]
    } else {
        Seq::empty()
    }
}

/// What stands inside the `code` element of a code block: the highlighted
/// source, or the message of the error where highlighting fails.
pub open spec fn code_html(language: Seq<char>, content: Seq<char>) -> Seq<char> {
    match highlighted(language, content) {
        Some(Ok(html)) => html,
        Some(Err(message)) => "syntect error: "@ + message,
        None => "highlight error: "@ + ("no syntax found for language "@ + language),
    }
}

/// The output after a node has been rendered onto it.
///
/// Text is escaped; a soft break is a line break; a paragraph, a heading, a
/// code block and an admonition stand on lines of their own, and so do a
/// block quote and a list with their tags. A heading of
/// level 1 is left out. A section heading carries the slug of its text as
/// its id and ends in a link to `#` and that slug. A code block holds its
/// source highlighted under the class `language-` and its language. An
/// image is a figure with a link to the image around it. A generic node is
/// the HTML that the parser gave for it, on a line of its own if it is a block.
pub open spec fn rendered_onto(node: AstNode, buf: Seq<char>) -> Seq<char>
    decreases node, 1int,
{
    match node.kind {
        NodeKind::Root => rendered_all(node.children@, buf),
        NodeKind::Text(content) => buf + escaped(content@),
        NodeKind::Softbreak => with_cr(buf),
        NodeKind::Hardbreak => with_cr(buf + open_tag("br"@, Seq::empty())),
        NodeKind::Emphasis | NodeKind::Strong | NodeKind::Strikethrough | NodeKind::InlineCode => {
            rendered_all(node.children@, buf + open_tag(span_tag(node.kind), Seq::empty()))
                + close_tag(span_tag(node.kind))
        },
        NodeKind::Link { url, title } => {
            let title = match title {
                Some(t) => Some(t@),
                None => None,
            };
            rendered_all(node.children@, buf + open_tag("a"@, link_attrs_of(url@, title)))
                + close_tag("a"@)
        },
        NodeKind::Paragraph => {
            with_cr(
                rendered_all(node.children@, with_cr(buf) + open_tag("p"@, Seq::empty()))
                    + close_tag("p"@),
            )
        },
        NodeKind::Blockquote => rendered_block(node, "blockquote"@, Seq::empty(), buf),
        NodeKind::BulletList => rendered_block(node, "ul"@, Seq::empty(), buf),
        NodeKind::OrderedList { start } => rendered_block(node, "ol"@, list_attrs_of(start), buf),
        NodeKind::ListItem => {
            with_cr(
                rendered_all(node.children@, buf + open_tag("li"@, Seq::empty())) + close_tag(
                    "li"@,
                ),
            )
        },
        NodeKind::Heading(h) => {
            if h.level == 1 {
                buf
            } else {
                let slug = slug_of(text_of(node));
                with_cr(
                    rendered_all(
                        node.children@,
                        with_cr(buf) + open_tag(heading_tag(h.level), h_attrs_of(slug)),
                    ) + open_tag("a"@, a_attrs_of(slug)) + escaped("#"@) + close_tag("a"@)
                        + close_tag(heading_tag(h.level)),
                )
            }
        },
        NodeKind::CodeBlock(block) => {
            with_cr(
                with_cr(buf) + open_tag(
                    "pre"@,
                    seq![("class"@, "language-"@ + block.language())],
                ) + open_tag("code"@, Seq::empty()) + code_html(block.language(), block.content@)
                    + close_tag("code"@) + close_tag("pre"@),
            )
        },
        NodeKind::Image(image) => {
            buf + open_tag("figure"@, Seq::empty()) + open_tag(
                "a"@,
                seq![("href"@, image.url@)],
            ) + open_tag("img"@, img_attrs_of(image, alt_of(node))) + close_tag("a"@)
                + close_tag("figure"@)
        },
        NodeKind::Admonition(admonition) => {
            with_cr(
                rendered_all(
                    node.children@,
                    with_cr(buf) + open_tag(
                        "div"@,
                        seq![("admonition-type"@, kind_name(admonition.kind))],
                    ),
                ) + close_tag("div"@),
            )
        },
        NodeKind::Generic { html, text: _, own_line } => {
            if own_line {
                with_cr(buf) + html@
            } else {
                buf + html@
            }
        },
    }
}

/// The output after each node of a list has been rendered onto it in turn.
pub open spec fn rendered_all(nodes: Seq<AstNode>, buf: Seq<char>) -> Seq<char>
    decreases nodes,
{
    if nodes.len() == 0 {
        buf
    } else {
        rendered_onto(nodes.last(), rendered_all(nodes.drop_last(), buf))
    }
}

/// The HTML of a document: what rendering it onto nothing gives, with each
/// NUL character replaced by U+FFFD.
pub open spec fn html_of_document(document: AstNode) -> Seq<char> {
    replaced(rendered_onto(document, Seq::empty()), '\0', '\u{FFFD}')
}

/// Ends the line, unless the output is empty or the line has just ended.
pub fn cr(out: &mut String)
    ensures
        final(out)@ == with_cr(old(out)@),
{
    if !out.as_str().is_empty() && !ends_with_char(out.as_str(), '\n') {
        push_char(out, '\n');
    }
}

/// Writes an opening tag with its attributes.
pub fn open(out: &mut String, tag: &str, attrs: &Vec<(&'static str, String)>)
    ensures
        final(out)@ == old(out)@ + open_tag(tag@, attr_pairs(attrs@)),
{
    out.append("<");
    out.append(tag);
    let ghost start = out@;
    let n = attrs.len();
    let mut i: usize = 0;
    assert(attr_pairs(attrs@).subrange(0, 0) =~= Seq::<(Seq<char>, Seq<char>)>::empty());
    assert(start + Seq::<char>::empty() =~= start);
    while i < n
        invariant
            n == attrs@.len(),
            i <= n,
            out@ == start + attrs_html(attr_pairs(attrs@).subrange(0, i as int)),
        decreases n - i,
    {
        let name = escape_html(attrs[i].0);
        let value = escape_html(attrs[i].1.as_str());
        let ghost before = out@;
        push_char(out, ' ');
        out.append(name.as_str());
        out.append("=\"");
        out.append(value.as_str());
        out.append("\"");
        proof {
            let upto = attr_pairs(attrs@).subrange(0, i as int + 1);
            assert(upto.drop_last() =~= attr_pairs(attrs@).subrange(0, i as int));
            assert(upto.last() == (attrs@[i as int].0@, attrs@[i as int].1@));
            assert(out@ =~= before + attr_html(upto.last()));
            assert(out@ =~= start + attrs_html(upto));
        }
        i += 1;
    }
    out.append(">");
    proof {
        assert(attr_pairs(attrs@).subrange(0, n as int) =~= attr_pairs(attrs@));
        assert(out@ =~= old(out)@ + open_tag(tag@, attr_pairs(attrs@)));
    }
}

/// Writes a closing tag.
pub fn close(out: &mut String, tag: &str)
    ensures
        final(out)@ == old(out)@ + close_tag(tag@),
{
    out.append("</");
    out.append(tag);
    out.append(">");
    assert(out@ =~= old(out)@ + close_tag(tag@));
}


/// Renders each node of a list onto the output.
fn render_all(nodes: &Vec<AstNode>, out: &mut String, highlighter: &Highlighter, Ghost(parent): Ghost<AstNode>)
    requires
        nodes@ == parent.children@,
    ensures
        final(out)@ == rendered_all(nodes@, old(out)@),
    decreases parent, 0int, 0int,
{
    let n = nodes.len();
    let mut i: usize = 0;
    assert(nodes@.subrange(0, 0) =~= Seq::<AstNode>::empty());
    while i < n
        invariant
            n == nodes@.len(),
            i <= n,
            nodes@ == parent.children@,
            out@ == rendered_all(nodes@.subrange(0, i as int), old(out)@),
        decreases n - i,
    {
        proof {
            let upto = nodes@.subrange(0, i as int + 1);
            assert(upto.drop_last() =~= nodes@.subrange(0, i as int));
            assert(upto.last() == nodes@[i as int]);
        }
        render_into(&nodes[i], out, highlighter);
        i += 1;
    }
    assert(nodes@.subrange(0, n as int) =~= nodes@);
}

/// Renders the children of a node between two tags that stand on lines of their own.
fn render_block(
    node: &AstNode,
    tag: &str,
    attrs: &Vec<(&'static str, String)>,
    out: &mut String,
    highlighter: &Highlighter,
)
    ensures
        final(out)@ == rendered_block(*node, tag@, attr_pairs(attrs@), old(out)@),
    decreases *node, 0int, 1int,
{
    cr(out);
    open(out, tag, attrs);
    cr(out);
    render_all(&node.children, out, highlighter, Ghost(*node));
    cr(out);
    close(out, tag);
    cr(out);
}

/// Renders a node, with all below it, onto the output.
pub fn render_into(node: &AstNode, out: &mut String, highlighter: &Highlighter)
    ensures
        final(out)@ == rendered_onto(*node, old(out)@),
    decreases *node, 1int, 0int,
{
    let none: Vec<(&'static str, String)> = Vec::new();
    assert(attr_pairs(none@) =~= Seq::<(Seq<char>, Seq<char>)>::empty());
    match &node.kind {
        NodeKind::Root => {
            render_all(&node.children, out, highlighter, Ghost(*node));
        },
        NodeKind::Text(content) => {
            let text = escape_html(content.as_str());
            out.append(text.as_str());
        },
        NodeKind::Softbreak => {
            cr(out);
        },
        NodeKind::Hardbreak => {
            open(out, "br", &none);
            cr(out);
        },
        NodeKind::Emphasis => {
            open(out, "em", &none);
            render_all(&node.children, out, highlighter, Ghost(*node));
            close(out, "em");
        },
        NodeKind::Strong => {
            open(out, "strong", &none);
            render_all(&node.children, out, highlighter, Ghost(*node));
            close(out, "strong");
        },
        NodeKind::Strikethrough => {
            open(out, "s", &none);
            render_all(&node.children, out, highlighter, Ghost(*node));
            close(out, "s");
        },
        NodeKind::InlineCode => {
            open(out, "code", &none);
            render_all(&node.children, out, highlighter, Ghost(*node));
            close(out, "code");
        },
        NodeKind::Link { url, title } => {
            let mut attrs: Vec<(&'static str, String)> = Vec::new();
            attrs.push(("href", url.clone()));
            if let Some(t) = title {
                attrs.push(("title", t.clone()));
            }
            proof {
                let title_view = match title {
                    Some(t) => Some(t@),
                    None => None,
                };
                assert(attr_pairs(attrs@) =~= link_attrs_of(url@, title_view));
            }
            open(out, "a", &attrs);
            render_all(&node.children, out, highlighter, Ghost(*node));
            close(out, "a");
        },
        NodeKind::Paragraph => {
            cr(out);
            open(out, "p", &none);
            render_all(&node.children, out, highlighter, Ghost(*node));
            close(out, "p");
            cr(out);
        },
        NodeKind::Blockquote => {
            render_block(node, "blockquote", &none, out, highlighter);
        },
        NodeKind::BulletList => {
            render_block(node, "ul", &none, out, highlighter);
        },
        NodeKind::OrderedList { start } => {
            let mut attrs: Vec<(&'static str, String)> = Vec::new();
            if *start != 1 {
                attrs.push(("start", decimal(*start)));
            }
            assert(attr_pairs(attrs@) =~= list_attrs_of(*start));
            render_block(node, "ol", &attrs, out, highlighter);
        },
        NodeKind::ListItem => {
            open(out, "li", &none);
            render_all(&node.children, out, highlighter, Ghost(*node));
            close(out, "li");
            cr(out);
        },
        NodeKind::Heading(h) => {
            if h.level != 1 {
                let text = node.collect_text();
                let slug = slugify(text.as_str());
                let tag = if h.level == 2 {
                    "h2"
                } else if h.level == 3 {
                    "h3"
                } else if h.level == 4 {
                    "h4"
                } else if h.level == 5 {
                    "h5"
                } else {
                    "h6"
                };
                let h_attrs = h_attrs(slug.as_str());
                let a_attrs = a_attrs(slug.as_str());
                cr(out);
                open(out, tag, &h_attrs);
                render_all(&node.children, out, highlighter, Ghost(*node));
                open(out, "a", &a_attrs);
                let hash = escape_html("#");
                out.append(hash.as_str());
                close(out, "a");
                close(out, tag);
                cr(out);
            }
        },
        NodeKind::CodeBlock(block) => {
            let default_lang = "text".to_owned();
            let lang: &String = match &block.meta.language {
                Some(l) => l,
                None => &default_lang,
            };
            let mut attrs: Vec<(&'static str, String)> = Vec::new();
            attrs.push(("class", crate::text::joined("language-", lang.as_str())));
            assert(attr_pairs(attrs@) =~= seq![("class"@, "language-"@ + block.language())]);
            let code = match highlighter.highlight(lang.as_str(), block.content.as_str()) {
                Ok(html) => html,
                Err(e) => e.message(),
            };
            assert(code@ == code_html(block.language(), block.content@));
            cr(out);
            open(out, "pre", &attrs);
            open(out, "code", &none);
            out.append(code.as_str());
            close(out, "code");
            close(out, "pre");
            cr(out);
        },
        NodeKind::Image(image) => {
            let mut img_attrs: Vec<(&'static str, String)> = Vec::new();
            img_attrs.push(("src", image.url.clone()));
            if let Some(title) = &image.title {
                img_attrs.push(("title", title.clone()));
            }
            let mut a_attrs: Vec<(&'static str, String)> = Vec::new();
            a_attrs.push(("href", image.url.clone()));
            assert(attr_pairs(a_attrs@) =~= seq![("href"@, image.url@)]);
            let mut alt = String::new();
            collect_alt_into(node, &mut alt);
            assert(alt@ =~= alt_of(*node));
            if !alt.as_str().is_empty() {
                img_attrs.push(("alt", alt));
            }
            assert(attr_pairs(img_attrs@) =~= img_attrs_of(*image, alt_of(*node)));
            open(out, "figure", &none);
            open(out, "a", &a_attrs);
            open(out, "img", &img_attrs);
            close(out, "a");
            close(out, "figure");
        },
        NodeKind::Admonition(admonition) => {
            let mut attrs: Vec<(&'static str, String)> = Vec::new();
            attrs.push(("admonition-type", admonition.kind.to_string()));
            assert(attr_pairs(attrs@) =~= seq![("admonition-type"@, kind_name(admonition.kind))]);
            cr(out);
            open(out, "div", &attrs);
            render_all(&node.children, out, highlighter, Ghost(*node));
            close(out, "div");
            cr(out);
        },
        NodeKind::Generic { html, text: _, own_line } => {
            if *own_line {
                cr(out);
            }
            out.append(html.as_str());
        },
    }
}

/// The HTML of a document.
pub fn render(ast: &AstNode) -> (html: String)
    ensures
        html@ == html_of_document(*ast),
{
    let highlighter = Highlighter::default();
    let mut out = String::new();
    render_into(ast, &mut out, &highlighter);
    replace_char(out.as_str(), '\0', '\u{FFFD}')
}

} // verus!
