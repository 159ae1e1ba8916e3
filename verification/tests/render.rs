use jelly::md::parse::ast;
use jelly::md::render::render;

fn check_html(cases: Vec<(&str, &str)>) {
    for case in cases {
        let tree = ast(case.0);
        let html = render(&tree);
        assert_eq!(html, case.1);
    }
}

#[test]
fn headings_fancy_headings() {
    let cases: Vec<(&str, &str)> = vec![
        (
            "## Hello world",
            "<h2 id=\"hello-world\" x-data=\"{ open: false }\" @mouseover=\"open = true\" @mouseout=\"open = false\">Hello world<a href=\"#hello-world\" x-show=\"open\" x-transition.duration.200ms=\"\" class=\"ml-2 text-primary not-prose\">#</a></h2>\n",
        ),
        (
            "### A heading with some `code`",
            "<h3 id=\"a-heading-with-some-code\" x-data=\"{ open: false }\" @mouseover=\"open = true\" @mouseout=\"open = false\">A heading with some <code>code</code><a href=\"#a-heading-with-some-code\" x-show=\"open\" x-transition.duration.200ms=\"\" class=\"ml-2 text-primary not-prose\">#</a></h3>\n",
        ),
    ];

    check_html(cases);
}

#[test]
fn image_image_render() {
    let cases: Vec<(&str, &str)> = vec![(
        "![](https://example.com/foo.png)",
        "<p><figure><a href=\"https://example.com/foo.png\"><img src=\"https://example.com/foo.png\"></a></figure></p>\n",
    ), (
        "![Some title](https://example.com/foo.png \"bar\")",
        "<p><figure><a href=\"https://example.com/foo.png\"><img src=\"https://example.com/foo.png\" title=\"bar\" alt=\"Some title\"></a></figure></p>\n",
    )];

    check_html(cases);
}
