use jelly::md::headings::FancyHeadingsRule;
use jelly::md::node::node_to_string;
use jelly::md::parse::ast;
use jelly::content::page::{char_code, text_less};
use jelly::text::{decimal, digit, is_whitespace, pieces, replace_char, trim, trim_char, words};

#[test]
fn node_to_string_fn() {
    let cases: Vec<(&str, &str)> = vec![
        ("", ""),
        (
            r#"## Some `code` and some **bold** and some *italics*"#,
            "Some code and some bold and some italics",
        ),
        (
            r#"A link to [Google](https://google.com)"#,
            "A link to Google",
        ),
        (
            "Some normal text.\n\n## And then a header\n",
            "Some normal text. And then a header",
        ),
        (
            "Some text.\n\n## And then a header with `code`\n",
            "Some text. And then a header with code",
        ),
        (
            "Some text plus **bold**.\n\n```python\nx = 5\n```\n",
            "Some text plus bold. x = 5",
        ),
    ];

    for (md, expected) in cases {
        let tree = ast(md);
        let output = &node_to_string(&tree);
        assert_eq!(output, expected);
    }
}

#[test]
fn readable_text_of_breaks_and_images() {
    assert_eq!(node_to_string(&ast("one\ntwo\n")), "one two");
    assert_eq!(node_to_string(&ast("a  \nb\n")), "a b");
    assert_eq!(node_to_string(&ast("a\\\nb\n")), "a b");
    assert_eq!(node_to_string(&ast("![alt text](u)\n")), "alt text");
    assert_eq!(node_to_string(&ast("- a\n- b\n")), "");
}

#[test]
fn trimming() {
    assert_eq!(trim("  a b \n"), "a b");
    assert_eq!(trim("\t\u{a0}x\u{2003}"), "x");
    assert_eq!(trim("   "), "");
    assert_eq!(trim(""), "");
    assert_eq!(trim("a"), "a");
    assert_eq!(trim_char("\"\"a\"b\"", '"'), "a\"b");
    assert_eq!(trim_char("xxx", 'x'), "");
    assert_eq!(trim_char("abc", 'x'), "abc");
    assert_eq!(trim_char("", 'x'), "");
}

#[test]
fn replacing() {
    assert_eq!(replace_char("a-b--c", '-', ' '), "a b  c");
    assert_eq!(replace_char("", '-', ' '), "");
    assert_eq!(replace_char("abc", '-', ' '), "abc");
    assert_eq!(replace_char("a\0b", '\0', '\u{fffd}'), "a\u{fffd}b");
}

#[test]
fn heading_rule_agrees_with_the_parser() {
    let lines = vec![
        "# a",
        "## Hello world",
        "###### six",
        "####### seven",
        "#text",
        "text",
        "## foo ##",
        "## foo##",
        "### foo ###   ",
        "#\tTabbed",
        "## ##",
        "#",
    ];
    for line in lines {
        let tree = ast(line);
        let parsed = tree.children.first().and_then(|n| n.heading().map(|l| (l, n.collect_text())));
        let ruled = FancyHeadingsRule::run(line).map(|(h, c)| (h.level, c.trim().to_string()));
        assert_eq!(parsed, ruled);
    }
}

#[test]
fn words_and_pieces() {
    assert_eq!(words("  python   showLineNumbers "), vec!["python", "showLineNumbers"]);
    assert_eq!(words("one"), vec!["one"]);
    assert_eq!(words("a\tb\nc"), vec!["a", "b", "c"]);
    assert!(words("").is_empty());
    assert!(words(" \t ").is_empty());
    assert_eq!(pieces("file=a.rs", '='), vec!["file", "a.rs"]);
    assert_eq!(pieces("a==b=", '='), vec!["a", "", "b", ""]);
    assert_eq!(pieces("", '='), vec![""]);
    assert_eq!(pieces("=", '='), vec!["", ""]);
    assert_eq!(pieces("abc", '='), vec!["abc"]);
    let text = " x = y\u{a0}z=  ";
    let expected_words: Vec<&str> = text.split_whitespace().collect();
    let expected_pieces: Vec<&str> = text.split('=').collect();
    assert_eq!(words(text), expected_words);
    assert_eq!(pieces(text, '='), expected_pieces);
}

#[test]
fn white_space_is_the_unicode_property() {
    for n in 0u32..0x11000 {
        if let Some(c) = char::from_u32(n) {
            assert_eq!(is_whitespace(c), c.is_whitespace());
        }
    }
    assert!(is_whitespace(' '));
    assert!(is_whitespace('\u{3000}'));
    assert!(!is_whitespace('a'));
    assert!(!is_whitespace('\u{200b}'));
}

#[test]
fn decimal_notation() {
    assert_eq!(decimal(0), "0");
    assert_eq!(decimal(7), "7");
    assert_eq!(decimal(10), "10");
    assert_eq!(decimal(120), "120");
    assert_eq!(decimal(4294967295), "4294967295");
    assert_eq!(digit(0), '0');
    assert_eq!(digit(9), '9');
    for n in [1u32, 9, 11, 99, 100, 1001, 65535, 1000000] {
        assert_eq!(decimal(n), n.to_string());
    }
}

#[test]
fn text_order_is_that_of_str() {
    let texts = vec!["", "a", "ab", "abc", "abd", "b", "B", "Zeta", "alpha", "\u{e9}", "e\u{301}", "\u{1f600}", "z"];
    for a in &texts {
        for b in &texts {
            assert_eq!(text_less(a, b), a < b);
        }
    }
    assert!(text_less("Alpha", "Beta"));
    assert!(!text_less("Beta", "Alpha"));
    assert!(text_less("ab", "abc"));
    assert!(!text_less("abc", "abc"));
    assert_eq!(char_code('a'), 97);
}
