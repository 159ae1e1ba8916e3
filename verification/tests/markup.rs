use jelly::error::Error;
use jelly::md::admonition::{Admonition, AdmonitionKind, AdmonitionScanner};
use jelly::md::code::{FancyCodeBlock, FancyCodeBlockRule, Metadata};
use jelly::md::headings::{a_attrs, h_attrs, nodes_to_string, FancyHeading};
use jelly::md::highlight::{lines_with_endings, Highlighter};
use jelly::md::image::{collect_alt_into, FancyImage};
use jelly::md::node::{AstNode, NodeKind};
use jelly::md::parse::ast;
use jelly::md::render::{close, cr, open, render, render_into};
use jelly::text::{chars_of, joined, same_text, text_between};

fn text(s: &str) -> AstNode {
    AstNode::new(NodeKind::Text(s.to_string()))
}

#[test]
fn hello_world_heading_has_id_and_anchor() {
    let html = render(&ast("## Hello world"));
    assert!(html.starts_with("<h2 id=\"hello-world\""));
    assert!(html.contains("<a href=\"#hello-world\""));
    assert!(html.ends_with("#</a></h2>\n"));
}

#[test]
fn parsed_document_is_a_root() {
    assert_eq!(ast("").kind, NodeKind::Root);
    assert!(ast("").children.is_empty());
    let tree = ast("# T\n\ntext\n");
    assert_eq!(tree.kind, NodeKind::Root);
    assert_eq!(tree.children.len(), 2);
    assert_eq!(tree.children[0].kind, NodeKind::Heading(FancyHeading { level: 1 }));
    assert_eq!(tree.children[1].kind, NodeKind::Paragraph);
    assert_eq!(tree.children[1].children[0].kind, NodeKind::Text("text".to_string()));
}

#[test]
fn page_title_heading_is_not_rendered() {
    assert_eq!(render(&ast("# Title\n\nText.\n")), "<p>Text.</p>\n");
    assert_eq!(render(&ast("")), "");
}

#[test]
fn heading_attributes() {
    assert_eq!(
        h_attrs("my-slug"),
        vec![
            ("id", "my-slug".to_string()),
            ("x-data", "{ open: false }".to_string()),
            ("@mouseover", "open = true".to_string()),
            ("@mouseout", "open = false".to_string()),
        ]
    );
    assert_eq!(
        a_attrs("my-slug"),
        vec![
            ("href", "#my-slug".to_string()),
            ("x-show", "open".to_string()),
            ("x-transition.duration.200ms", String::new()),
            ("class", "ml-2 text-primary not-prose".to_string()),
        ]
    );
}

#[test]
fn text_is_escaped() {
    assert_eq!(
        render(&ast("a < b & c > d \"q\"")),
        "<p>a &lt; b &amp; c &gt; d &quot;q&quot;</p>\n"
    );
    let node = AstNode::with_children(NodeKind::Paragraph, vec![text("<&>\"x")]);
    assert_eq!(render(&node), "<p>&lt;&amp;&gt;&quot;x</p>\n");
}

#[test]
fn inline_kinds_render_between_tags() {
    assert_eq!(
        render(&ast("*a* **b** ~~c~~ `d` [e](https://x.y \"t\")")),
        "<p><em>a</em> <strong>b</strong> <s>c</s> <code>d</code> <a href=\"https://x.y\" title=\"t\">e</a></p>\n"
    );
    assert_eq!(render(&ast("one\ntwo")), "<p>one\ntwo</p>\n");
}

#[test]
fn other_blocks_are_kept_as_the_parser_renders_them() {
    assert_eq!(render(&ast("- a\n- b\n")), "<ul>\n<li>a</li>\n<li>b</li>\n</ul>\n");
    assert_eq!(render(&ast("> q\n")), "<blockquote>\n<p>q</p>\n</blockquote>\n");
    let tree = ast("- a\n- b\n");
    assert_eq!(tree.children[0].kind, NodeKind::BulletList);
    assert_eq!(tree.children[0].children[0].kind, NodeKind::ListItem);
    assert_eq!(tree.children[0].collect_text(), "ab");
    assert_eq!(render(&ast("---\n")), "<hr>\n");
    assert!(matches!(ast("---\n").children[0].kind, NodeKind::Generic { .. }));
    assert_eq!(render(&ast("a\\\nb\n")), "<p>a<br>\nb</p>\n");
}

#[test]
fn numbered_lists_keep_their_start() {
    assert_eq!(render(&ast("1. a\n2. b\n")), "<ol>\n<li>a</li>\n<li>b</li>\n</ol>\n");
    assert_eq!(
        render(&ast("3. a\n4. b\n")),
        "<ol start=\"3\">\n<li>a</li>\n<li>b</li>\n</ol>\n"
    );
    assert_eq!(
        render(&ast("120. a\n")),
        "<ol start=\"120\">\n<li>a</li>\n</ol>\n"
    );
    assert_eq!(ast("0. a\n").children[0].kind, NodeKind::OrderedList { start: 0 });
    assert_eq!(render(&ast("0. a\n")), "<ol start=\"0\">\n<li>a</li>\n</ol>\n");
}

#[test]
fn headings_images_and_code_inside_lists_and_quotes() {
    assert_eq!(
        render(&ast("> ## Quoted\n")),
        "<blockquote>\n<h2 id=\"quoted\" x-data=\"{ open: false }\" @mouseover=\"open = true\" @mouseout=\"open = false\">Quoted<a href=\"#quoted\" x-show=\"open\" x-transition.duration.200ms=\"\" class=\"ml-2 text-primary not-prose\">#</a></h2>\n</blockquote>\n"
    );
    assert_eq!(
        render(&ast("- ![x](u)\n")),
        "<ul>\n<li><figure><a href=\"u\"><img src=\"u\" alt=\"x\"></a></figure></li>\n</ul>\n"
    );
    assert_eq!(
        render(&ast("- item\n\n  ```txt\n  code\n  ```\n")),
        "<ul>\n<li>\n<p>item</p>\n<pre class=\"language-txt\"><code><span class=\"text plain\">code\n</span></code></pre>\n</li>\n</ul>\n"
    );
}

fn parser_html(input: &str) -> String {
    let md = &mut markdown_it::MarkdownIt::new();
    markdown_it::plugins::cmark::add(md);
    markdown_it::plugins::extra::strikethrough::add(md);
    markdown_it::plugins::extra::beautify_links::add(md);
    markdown_it::plugins::extra::tables::add(md);
    markdown_it::plugins::extra::typographer::add(md);
    md.parse(input).render()
}

#[test]
fn plain_documents_render_as_the_parser_renders_them() {
    let cases = vec![
        "",
        "Just a paragraph.\n",
        "one\ntwo\n\nthree\n",
        "*a* **b** ~~c~~ `d` [e](https://x.y \"t\") <https://auto.link>\n",
        "- a\n- b\n",
        "- a\n\n- b\n",
        "1. a\n2. b\n",
        "7. a\n   - nested *item*\n   - other\n8. b\n",
        "> quoted\n> text\n>\n> - with\n> - list\n",
        "a < b & c > d \"q\"\n\n---\n\nend\n",
        "| a | b |\n|---|:-:|\n| 1 | 2 |\n\nafter\n",
        "text (c) ... +- done\n",
        "line\\\nbreak and &amp; entity \\* escaped\n",
        "hard  \nbreak\n",
        "- item\n\n  ---\n\n  after\n",
        "- item\n  ---\n- next\n",
        "- a\n\n  | t | u |\n  |---|---|\n  | 1 | 2 |\n",
        "> text\n>\n> ---\n>\n> more\n",
        "> Title\n> =====\n>\n> text\n",
        "- Title\n  -----\n",
        "Title\n=====\n\ntext\n\nSub\n---\n",
        "- a  \n  b\n- c\n",
        "1. one\n\n   > quote\n   > ---\n\n2. two\n",
        "- - - a\n    - b\n\n      ---\n",
        "* a\n\n  text\n\n  ***\n* b\n",
    ];
    for md in cases {
        assert_eq!(render(&ast(md)), parser_html(md));
    }
}

#[test]
fn code_block_is_highlighted_under_its_language() {
    let html = render(&ast("```rust\nlet x = 5;\n```\n"));
    assert!(html.starts_with("<pre class=\"language-rust\"><code><span class=\"source rust\">"));
    assert!(html.ends_with("</code></pre>\n"));
    assert!(html.contains("<span class=\"storage type rust\">let</span>"));
}

#[test]
fn code_block_without_language_is_text() {
    assert_eq!(
        render(&ast("```txt\na < b\n```\n")),
        "<pre class=\"language-txt\"><code><span class=\"text plain\">a &lt; b\n</span></code></pre>\n"
    );
    assert_eq!(
        render(&ast("```\na < b\n```\n")),
        "<pre class=\"language-text\"><code>highlight error: no syntax found for language text</code></pre>\n"
    );
    assert_eq!(
        render(&ast("    indented\n")),
        "<pre class=\"language-text\"><code>highlight error: no syntax found for language text</code></pre>\n"
    );
}

#[test]
fn unknown_language_shows_the_error_in_place() {
    assert_eq!(
        render(&ast("```nosuchlanguage\nx\n```\n\nAfter.\n")),
        "<pre class=\"language-nosuchlanguage\"><code>highlight error: no syntax found for language nosuchlanguage</code></pre>\n<p>After.</p>\n"
    );
    let highlighter = Highlighter::default();
    assert_eq!(
        highlighter.highlight("nosuchlanguage", "x"),
        Err(Error::Highlight("no syntax found for language nosuchlanguage".to_string()))
    );
    assert_eq!(
        highlighter.highlight("txt", "x\n"),
        Ok("<span class=\"text plain\">x\n</span>".to_string())
    );
}

#[test]
fn fence_metadata() {
    assert_eq!(Metadata::parse(""), Metadata { language: None, show_line_numbers: false, file: None });
    assert_eq!(Metadata::parse("   "), Metadata::default());
    assert_eq!(
        Metadata::parse("rust"),
        Metadata { language: Some("rust".to_string()), show_line_numbers: false, file: None }
    );
    assert_eq!(
        Metadata::parse("  python   showLineNumbers "),
        Metadata { language: Some("python".to_string()), show_line_numbers: true, file: None }
    );
    assert_eq!(
        Metadata::parse("showLineNumbers"),
        Metadata { language: Some("showLineNumbers".to_string()), show_line_numbers: false, file: None }
    );
    assert_eq!(
        Metadata::parse("file = \"main.rs\""),
        Metadata {
            language: Some("file".to_string()),
            show_line_numbers: false,
            file: Some("main.rs".to_string()),
        }
    );
    assert_eq!(
        Metadata::parse("rust file=a.rs"),
        Metadata { language: Some("rust".to_string()), show_line_numbers: false, file: None }
    );
    assert_eq!(Metadata::parse("file=a=b x").file, None);
    assert_eq!(Metadata::parse("file=a.rs").file, None);
    assert_eq!(Metadata::parse("file= \"\"a.rs\"  x").file, Some("a.rs\"  x".to_string()));
}

#[test]
fn code_block_rule() {
    assert_eq!(
        FancyCodeBlockRule::run(None, "x".to_string()),
        FancyCodeBlock { meta: Metadata::default(), content: "x".to_string() }
    );
    assert_eq!(
        FancyCodeBlockRule::run(Some("js showLineNumbers"), "y".to_string()),
        FancyCodeBlock {
            meta: Metadata { language: Some("js".to_string()), show_line_numbers: true, file: None },
            content: "y".to_string(),
        }
    );
    let tree = ast("```js showLineNumbers\ny\n```\n");
    assert_eq!(
        tree.children[0].kind,
        NodeKind::CodeBlock(FancyCodeBlock {
            meta: Metadata { language: Some("js".to_string()), show_line_numbers: true, file: None },
            content: "y\n".to_string(),
        })
    );
}

#[test]
fn image_description_comes_from_text_nodes() {
    assert_eq!(
        render(&ast("![Some *bold* title](https://example.com/foo.png)")),
        "<p><figure><a href=\"https://example.com/foo.png\"><img src=\"https://example.com/foo.png\" alt=\"Some bold title\"></a></figure></p>\n"
    );
    let node = AstNode::with_children(
        NodeKind::Image(FancyImage { url: "u".to_string(), title: None }),
        vec![text("a"), AstNode::new(NodeKind::Softbreak), text("b")],
    );
    let mut alt = String::from(">");
    collect_alt_into(&node, &mut alt);
    assert_eq!(alt, ">ab");
    assert_eq!(node.collect_text(), "a\nb");
    assert_eq!(render(&node), "<figure><a href=\"u\"><img src=\"u\" alt=\"ab\"></a></figure>");
}

#[test]
fn admonition_renders_as_a_division() {
    let node = AstNode::with_children(
        NodeKind::Admonition(Admonition { kind: AdmonitionKind::Warning }),
        vec![AstNode::with_children(NodeKind::Paragraph, vec![text("Careful.")])],
    );
    assert_eq!(render(&node), "<div admonition-type=\"warning\">\n<p>Careful.</p>\n</div>\n");
}

#[test]
fn admonition_kinds() {
    assert_eq!(AdmonitionKind::default(), AdmonitionKind::Info);
    assert_eq!(AdmonitionKind::from("danger"), AdmonitionKind::Danger);
    assert_eq!(AdmonitionKind::from("info"), AdmonitionKind::Info);
    assert_eq!(AdmonitionKind::from("success"), AdmonitionKind::Success);
    assert_eq!(AdmonitionKind::from("warning"), AdmonitionKind::Warning);
    assert_eq!(AdmonitionKind::from("alert"), AdmonitionKind::Info);
    assert_eq!(AdmonitionKind::Danger.to_string(), "danger");
    assert_eq!(AdmonitionKind::Info.to_string(), "info");
    assert_eq!(AdmonitionKind::Success.to_string(), "success");
    assert_eq!(AdmonitionKind::Warning.to_string(), "warning");
}

#[test]
fn nul_is_replaced_in_the_output() {
    let node = AstNode::with_children(NodeKind::Paragraph, vec![text("a\0b")]);
    assert_eq!(render(&node), "<p>a\u{fffd}b</p>\n");
}

#[test]
fn rendering_pieces() {
    let mut out = String::new();
    cr(&mut out);
    assert_eq!(out, "");
    open(&mut out, "a", &vec![("href", "x\"y".to_string()), ("class", "k".to_string())]);
    assert_eq!(out, "<a href=\"x&quot;y\" class=\"k\">");
    close(&mut out, "a");
    cr(&mut out);
    cr(&mut out);
    assert_eq!(out, "<a href=\"x&quot;y\" class=\"k\"></a>\n");
    let highlighter = Highlighter::default();
    render_into(
        &AstNode::with_children(NodeKind::Heading(FancyHeading { level: 6 }), vec![text("End")]),
        &mut out,
        &highlighter,
    );
    assert!(out.ends_with("\n<h6 id=\"end\" x-data=\"{ open: false }\" @mouseover=\"open = true\" @mouseout=\"open = false\">End<a href=\"#end\" x-show=\"open\" x-transition.duration.200ms=\"\" class=\"ml-2 text-primary not-prose\">#</a></h6>\n"));
}

#[test]
fn same_text_gives_same_outputs() {
    let md = "# T\n\nIntro.\n\n## A\n\n![x](y)\n\n```rust\nfn f() {}\n```\n";
    let first = ast(md);
    let second = ast(md);
    assert_eq!(first, second);
    assert_eq!(render(&first), render(&second));
}

#[test]
fn joined_text_of_nodes() {
    let tree = ast("Some normal text.\n\n## And then a header\n");
    assert_eq!(nodes_to_string(&tree.children), "Some normal text. And then a header");
    assert_eq!(nodes_to_string(&[]), "");
    let one = ast("A link to [Google](https://google.com)");
    assert_eq!(nodes_to_string(&one.children), "A link to Google");
    assert_eq!(one.collect_text(), "A link to Google");
    assert_eq!(one.children[0].heading(), None);
    assert_eq!(ast("### x").children[0].heading(), Some(3));
}

#[test]
fn text_helpers() {
    assert_eq!(chars_of("a\u{e9}z"), vec!['a', '\u{e9}', 'z']);
    assert_eq!(text_between(&vec!['a', 'b', 'c', 'd'], 1, 3), "bc");
    assert_eq!(text_between(&vec!['a'], 1, 1), "");
    assert_eq!(joined("ab", "cd"), "abcd");
    assert!(same_text("x", "x"));
    assert!(!same_text("x", "y"));
}

#[test]
fn error_messages() {
    let s = || "x".to_string();
    assert_eq!(Error::Highlight(s()).message(), "highlight error: x");
    assert_eq!(Error::Io(s()).message(), "I/O error: x");
    assert_eq!(Error::NoPages(s()).message(), "no pages found in directory: x");
    assert_eq!(Error::Prefix(s()).message(), "prefix error: x");
    assert_eq!(Error::Syntect(s()).message(), "syntect error: x");
    assert_eq!(Error::Utf8(s()).message(), "UTF-8 error: x");
    assert_eq!(Error::Yaml(s()).message(), "yaml parse error: x");
    assert_eq!(Error::ZeroOrder(s()).message(), "order parameter on page x is set to zero");
}

#[test]
fn admonition_lines() {
    assert_eq!(
        AdmonitionScanner::run("::alert", "::"),
        Some(Admonition { kind: AdmonitionKind::Info })
    );
    assert_eq!(
        AdmonitionScanner::run("::", "::"),
        Some(Admonition { kind: AdmonitionKind::Info })
    );
    assert_eq!(AdmonitionScanner::run("::warning", "But this does."), None);
    assert_eq!(AdmonitionScanner::run(":alert", "::"), None);
    assert_eq!(AdmonitionScanner::run("", "::"), None);
    assert_eq!(AdmonitionScanner::run("text", ":: "), None);
}

#[test]
fn render_admonitions() {
    let cases: Vec<(&str, &str)> = vec![(
        "::alert\nThis doesn't work.\n",
        "<p>::alert\nThis doesn't work.</p>\n",
    )];

    for (input, expected_html) in cases {
        let tree = ast(input);
        let html = render(&tree);
        assert_eq!(expected_html, &html);
    }

    let both = render(&ast("::alert\nThis doesn't work.\n\n::alert\nBut this does.\n::\n"));
    assert!(both.starts_with("<p>::alert\nThis doesn't work.</p>\n"));
}

#[test]
fn lines_keep_their_endings() {
    assert_eq!(lines_with_endings("a\nb\n"), vec!["a\n", "b\n"]);
    assert_eq!(lines_with_endings("a\n\nb"), vec!["a\n", "\n", "b"]);
    assert_eq!(lines_with_endings("\n"), vec!["\n"]);
    assert_eq!(lines_with_endings("one"), vec!["one"]);
    assert!(lines_with_endings("").is_empty());
    for text in ["", "x", "\n\n", "a\r\nb\r\n", "fn f() {\n    1\n}\n", "\nlast"] {
        let expected: Vec<&str> = syntect::util::LinesWithEndings::from(text).collect();
        assert_eq!(lines_with_endings(text), expected);
    }
}

#[test]
fn highlighting_goes_line_by_line() {
    let highlighter = Highlighter::default();
    let html = highlighter.highlight("rs", "fn f() {\n    1\n}\n").unwrap();
    let set = syntect::parsing::SyntaxSet::load_defaults_newlines();
    let syntax = set.find_syntax_by_token("rs").unwrap();
    let mut generator = syntect::html::ClassedHTMLGenerator::new_with_class_style(
        syntax,
        &set,
        syntect::html::ClassStyle::Spaced,
    );
    for line in syntect::util::LinesWithEndings::from("fn f() {\n    1\n}\n") {
        generator.parse_html_for_line_which_includes_newline(line).unwrap();
    }
    assert_eq!(html, generator.finalize());
    assert_eq!(highlighter.highlight("txt", ""), Ok(String::new()));
}
