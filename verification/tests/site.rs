use jelly::config::{SectionConfigInput, SiteConfig};
use jelly::content::breadcrumb::Link;
use jelly::content::front::FrontMatter;
use jelly::content::page::Page;
use jelly::content::section::Section;
use jelly::content::site::Site;
use jelly::content::source::{SourceDir, SourceFile};
use jelly::md::parse::ast;
use jelly::md::search::{SearchDocument, SearchIndex};
use jelly::md::toc::{TableOfContents, TocEntry};

fn source(path: &str, front: &str, title: Option<&str>, order: Option<usize>, body: &str) -> SourceFile {
    SourceFile {
        path: path.to_string(),
        file: format!("{front}{body}"),
        front: FrontMatter { title: title.map(String::from), order },
        content: body.to_string(),
    }
}

const WELCOME: &str = "# Welcome\n\nWelcome to the site.\n\n## About this site\n\nSome info here.\n";
const SETUP: &str = "# Setup\n\nHere is how to set things up.\n\nHere is some other info.\n";

fn project(dir: &str) -> SourceDir {
    if dir == "basic" {
        SourceDir {
            path: "tests/full/basic".to_string(),
            config: None,
            index: Some(format!("---\norder: 5\n---\n{WELCOME}")),
            files: vec![
                source(
                    "tests/full/basic/contact.md",
                    "---\ntitle: Contact us\norder: 1\n---\n",
                    Some("Contact us"),
                    Some(1),
                    "Send us a fax.\n",
                ),
                source("tests/full/basic/index.md", "---\norder: 5\n---\n", None, Some(5), WELCOME),
                source(
                    "tests/full/basic/about.md",
                    "---\norder: 2\n---\n",
                    None,
                    Some(2),
                    "# About\n\nAbout this thing.\n",
                ),
            ],
            dirs: vec![],
        }
    } else {
        SourceDir {
            path: "tests/full/medium".to_string(),
            config: Some(SectionConfigInput { title: Some("Medium-sized project".to_string()) }),
            index: Some(WELCOME.to_string()),
            files: vec![source("tests/full/medium/index.md", "", None, None, WELCOME)],
            dirs: vec![SourceDir {
                path: "tests/full/medium/setup".to_string(),
                config: None,
                index: Some(SETUP.to_string()),
                files: vec![source("tests/full/medium/setup/index.md", "", None, None, SETUP)],
                dirs: vec![],
            }],
        }
    }
}

fn build_site(dir: &str) -> Site {
    let tree = project(dir);
    let config = SiteConfig::new(tree.path.clone());
    Site::from_source(&tree, &config).unwrap()
}

#[test]
fn build_real_site() {
    let cases: Vec<(&str, Site)> = vec![
        (
            "basic",
            Site(Section::new(
                "Welcome",
                "tests/full/basic",
                Some(vec![
                    Page::new(
                        "tests/full/basic/contact.md",
                        "contact.md",
                        "contact",
                        "Contact us",
                        "", // Omit for testing
                        "", // Omit for testing
                        vec![Link::new("tests/full/basic", "Welcome")],
                        TableOfContents::new(vec![]),
                        SearchIndex(vec![SearchDocument::new(
                            1,
                            "Contact us",
                            "Contact us",
                            "Send us a fax.",
                        )]),
                        Some(1),
                    ),
                    Page::new(
                        "tests/full/basic/index.md",
                        "index.md",
                        "",
                        "Welcome",
                        "", // Omit for testing
                        "", // Omit for testing
                        vec![Link::new("tests/full/basic", "Welcome")],
                        TableOfContents::new(vec![TocEntry::new(
                            2,
                            "About this site",
                            TableOfContents::empty(),
                        )]),
                        SearchIndex(vec![
                            SearchDocument::new(1, "Welcome", "Welcome", "Welcome to the site."),
                            SearchDocument::new(2, "Welcome", "About this site", "Some info here."),
                        ]),
                        Some(5),
                    ),
                    Page::new(
                        "tests/full/basic/about.md",
                        "about.md",
                        "about",
                        "About",
                        "", // Omit for testing
                        "", // Omit for testing
                        vec![Link::new("tests/full/basic", "Welcome")],
                        TableOfContents::new(vec![]),
                        SearchIndex(vec![SearchDocument::new(
                            1,
                            "About",
                            "About",
                            "About this thing.",
                        )]),
                        Some(2),
                    ),
                ]),
                None,
            )),
        ),
        (
            "medium",
            Site(Section::new(
                "Medium-sized project",
                "tests/full/medium",
                Some(vec![Page::new(
                    "tests/full/medium/index.md",
                    "index.md",
                    "",
                    "Welcome",
                    "", // Omit for testing
                    "", // Omit for testing
                    vec![Link::new("tests/full/medium", "Medium-sized project")],
                    TableOfContents::new(vec![TocEntry::new(
                        2,
                        "About this site",
                        TableOfContents::empty(),
                    )]),
                    SearchIndex(vec![
                        SearchDocument::new(1, "Welcome", "Welcome", "Welcome to the site."),
                        SearchDocument::new(2, "Welcome", "About this site", "Some info here."),
                    ]),
                    None,
                )]),
                Some(vec![Section::new(
                    "Setup",
                    "tests/full/medium/setup",
                    Some(vec![Page::new(
                        "tests/full/medium/setup/index.md",
                        "setup/index.md",
                        "setup",
                        "Setup",
                        "", // Omit for testing
                        "", // Omit for testing
                        vec![
                            Link::new("tests/full/medium", "Medium-sized project"),
                            Link::new("tests/full/medium/setup", "Setup"),
                        ],
                        TableOfContents::empty(),
                        SearchIndex(vec![SearchDocument::new(
                            1,
                            "Setup",
                            "Setup",
                            "Here is how to set things up. Here is some other info.",
                        )]),
                        None,
                    )]),
                    None,
                )]),
            )),
        ),
    ];

    for (dir, expected_site) in cases {
        let content = build_site(dir).0;
        assert_eq!(content.title, expected_site.0.title);
        assert_eq!(content.pages().len(), expected_site.pages().len());

        for (idx, page) in content.pages().iter().enumerate() {
            let expected = expected_site.pages()[idx];

            assert_eq!(page.path, expected.path);
            assert_eq!(page.relative_path, expected.relative_path);
            assert_eq!(page.url, expected.url);
            assert_eq!(page.title, expected.title);
            assert_eq!(page.breadcrumb, expected.breadcrumb);
            assert_eq!(page.table_of_contents, expected.table_of_contents);
            assert_eq!(page.search_index, expected.search_index);
            assert_eq!(page.order, expected.order);
        }
    }
}

#[test]
fn build_toc() {
    let md = "Here is some text.\n\n## Now a heading 2\n\nMore text.\n\n### Now a heading 3\n\nMore text.\n\n#### Let's go even deeper\n\nFiller here.\n\n## And now back to a heading 2\n\nMore text.\n\n## And yet another heading 2\n";

    let tree = ast(md);

    let toc = TableOfContents::parse(&tree);

    assert_eq!(toc.entries.len(), 3);
    let first = &toc.entries[0];
    assert_eq!(
        (first.level, first.text.as_str(), first.slug.as_str()),
        (2, "Now a heading 2", "now-a-heading-2")
    );
    assert_eq!(first.children.entries.len(), 1);
    let second = &first.children.entries[0];
    assert_eq!(
        (second.level, second.text.as_str(), second.slug.as_str()),
        (3, "Now a heading 3", "now-a-heading-3")
    );
    assert_eq!(second.children.entries.len(), 1);
    let third = &second.children.entries[0];
    assert_eq!(
        (third.level, third.text.as_str(), third.slug.as_str()),
        (4, "Let's go even deeper", "let-s-go-even-deeper")
    );
    assert_eq!(third.children, TableOfContents::new(vec![]));
    let back = &toc.entries[1];
    assert_eq!(
        (back.level, back.text.as_str(), back.slug.as_str()),
        (2, "And now back to a heading 2", "and-now-back-to-a-heading-2")
    );
    assert_eq!(back.children, TableOfContents::new(vec![]));
    let last = &toc.entries[2];
    assert_eq!(
        (last.level, last.text.as_str(), last.slug.as_str()),
        (2, "And yet another heading 2", "and-yet-another-heading-2")
    );
    assert_eq!(last.children, TableOfContents::new(vec![]));
}
