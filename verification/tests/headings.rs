use jelly::md::headings::{FancyHeadingsRule, Heading, Headings, HeadingsWithIdx, HeadingsWithTextAfter};
use jelly::md::parse::ast;

#[test]
fn headings_search_index() {
    let cases: Vec<(&str, Vec<(&str, &str)>)> = vec![(
        "## Heading 1\n\nHere is some text.\n\n### Heading 2\n\n## Heading 3\n\nHere is some other text.\n\n### Heading 4\n\n**Bold**, _italics_, and `code`.\n\nSome other info.\n",
        vec![
            ("Heading 1", "Here is some text."),
            ("Heading 2", ""),
            ("Heading 3", "Here is some other text."),
            ("Heading 4", "Bold, italics, and code. Some other info."),
        ],
    )];

    for (md, documents) in cases {
        let tree = ast(md);
        let headings: Vec<(Heading, String)> = HeadingsWithTextAfter(&tree.children).collect();
        let docs: Vec<(&str, &str)> = headings
            .iter()
            .map(|(heading, s)| (heading.text.as_str(), s.as_str()))
            .collect();

        assert_eq!(docs, documents);
    }
}

#[test]
fn headings_md_to_headings() {
    let cases: Vec<(&str, Vec<Heading>)> = vec![
        ("", vec![]),
        (
            "Some text.\n\n## Heading 2\n\nOther text.\n\n### Heading 3\n\nMore text.\n\n## Back to heading 2\n",
            vec![
                Heading::new(2, "Heading 2"),
                Heading::new(3, "Heading 3"),
                Heading::new(2, "Back to heading 2"),
            ],
        ),
        (
            "# h1 gets ignored\n\n## h2 with `bold`\n\n### h3 with `italics`\n\n# h1 gets ignored\n\n## h2 has a `code sample`\n\n#### h4\n\n##### h5\n\n## h2\n\n###### h6 has a [link with `code in it`](https://example.com)\n\n####### This won't show up\n",
            vec![
                Heading::new(2, "h2 with bold"),
                Heading::new(3, "h3 with italics"),
                Heading::new(2, "h2 has a code sample"),
                Heading::new(4, "h4"),
                Heading::new(5, "h5"),
                Heading::new(2, "h2"),
                Heading::new(6, "h6 has a link with code in it"),
            ],
        ),
    ];

    for (md, expected_headings) in cases {
        let tree = ast(md);
        let headings: Vec<Heading> = Headings(&tree.children).collect();

        assert_eq!(headings.len(), expected_headings.len());
        for (idx, heading) in headings.iter().enumerate() {
            assert_eq!(heading, &expected_headings[idx]);
        }
    }
}

#[test]
fn headings_with_their_places() {
    let tree = ast("Intro.\n\n## One\n\nText.\n\n# Title\n\n### Two\n");
    let found = HeadingsWithIdx(&tree.children).collect();
    assert_eq!(found.len(), 2);
    assert_eq!(found[0], (1, Heading::new(2, "One")));
    assert_eq!(found[1], (4, Heading::new(3, "Two")));
}

#[test]
fn heading_slug_is_derived_from_text() {
    let heading = Heading::new(2, "Let's go even deeper");
    assert_eq!(heading.level, 2);
    assert_eq!(heading.text, "Let's go even deeper");
    assert_eq!(heading.slug, "let-s-go-even-deeper");
}

fn run(line: &str) -> Option<(u8, String)> {
    FancyHeadingsRule::run(line).map(|(h, content)| (h.level, content))
}

#[test]
fn heading_line_levels() {
    assert_eq!(run("# a"), Some((1, " a".to_string())));
    assert_eq!(run("## Hello world"), Some((2, " Hello world".to_string())));
    assert_eq!(run("###### six"), Some((6, " six".to_string())));
    assert_eq!(run("####### seven"), None);
    assert_eq!(run("#"), Some((1, String::new())));
    assert_eq!(run("###"), Some((3, String::new())));
    assert_eq!(run("#\tTabbed"), Some((1, "\tTabbed".to_string())));
}

#[test]
fn heading_line_rejects_other_lines() {
    assert_eq!(run(""), None);
    assert_eq!(run("text"), None);
    assert_eq!(run("#text"), None);
    assert_eq!(run(" # indented"), None);
    assert_eq!(run("#5 bolt"), None);
}

#[test]
fn heading_line_closing_sequence() {
    assert_eq!(run("## foo ##"), Some((2, " foo ".to_string())));
    assert_eq!(run("## foo ##   "), Some((2, " foo ".to_string())));
    assert_eq!(run("## foo##"), Some((2, " foo##".to_string())));
    assert_eq!(run("## ##"), Some((2, String::new())));
    assert_eq!(run("##   "), Some((2, String::new())));
    assert_eq!(run("# foo # bar"), Some((1, " foo # bar".to_string())));
    assert_eq!(run("## caf\u{e9} \u{2014} ##"), Some((2, " caf\u{e9} \u{2014} ".to_string())));
}
