use jelly::md::parse::ast;
use jelly::md::search::{build_search_index_for_page, preamble, SearchDocument, SearchIndex};
use jelly::md::title::{document_title, get_document_title};

#[test]
fn search_search_index() {
    let cases: Vec<(&str, &str, SearchIndex)> = vec![
        (
            "First page",
            "",
            SearchIndex(vec![SearchDocument::new(1, "First page", "First page", "")]),
        ),
        (
            "Second page",
            "Some text.\n\n## h2\n\nSome text content.\n\n### h3\n\nAnd some more.\n\nAnd some text from another paragraph.\n",
            SearchIndex(vec![
                SearchDocument::new(1, "Second page", "Second page", "Some text."),
                SearchDocument::new(2, "Second page", "h2", "Some text content."),
                SearchDocument::new(
                    3,
                    "Second page",
                    "h3",
                    "And some more. And some text from another paragraph.",
                ),
            ]),
        ),
    ];

    for (page_title, md, expected_index) in cases {
        let tree = ast(md);
        let index = build_search_index_for_page(page_title, &tree);
        assert_eq!(index.0.len(), expected_index.0.len());
        for (idx, doc) in index.0.iter().enumerate() {
            assert_eq!(doc, &expected_index.0[idx]);
        }
    }
}

#[test]
fn search_documents_of_a_small_page() {
    let tree = ast("Intro text.\n\n## Section A\n\nBody A.\n\n### Sub\n\nMore.\n");
    let index = build_search_index_for_page("Doc", &tree);
    assert_eq!(
        index,
        SearchIndex(vec![
            SearchDocument::new(1, "Doc", "Doc", "Intro text."),
            SearchDocument::new(2, "Doc", "Section A", "Body A."),
            SearchDocument::new(3, "Doc", "Sub", "More."),
        ])
    );
}

#[test]
fn search_document_count_follows_headings() {
    let tree = ast("# Title\n\na\n\n## One\n\n### Two\n\n# Again\n\nb\n\n## Three\n\nc\n");
    let index = build_search_index_for_page("P", &tree);
    assert_eq!(index.0.len(), 1 + 3);
    let levels: Vec<u8> = index.0.iter().map(|d| d.level).collect();
    assert_eq!(levels, vec![1, 2, 3, 2]);
    let titles: Vec<&str> = index.0.iter().map(|d| d.title.as_str()).collect();
    assert_eq!(titles, vec!["P", "One", "Two", "Three"]);
}

#[test]
fn search_unit_ends_at_any_heading() {
    let tree = ast("## One\n\nfirst\n\n# Title\n\nlost\n\n## Two\n\nsecond\n");
    let index = build_search_index_for_page("P", &tree);
    assert_eq!(
        index,
        SearchIndex(vec![
            SearchDocument::new(1, "P", "P", ""),
            SearchDocument::new(2, "P", "One", "first"),
            SearchDocument::new(2, "P", "Two", "second"),
        ])
    );
}

#[test]
fn preamble_leaves_page_titles_out() {
    let tree = ast("# Welcome\n\nWelcome to the site.\n\nMore.\n\n## About this site\n\nSome info here.\n");
    assert_eq!(preamble(&tree), "Welcome to the site. More.");
    assert_eq!(preamble(&ast("")), "");
    assert_eq!(preamble(&ast("## Straight in\n\ntext\n")), "");
}

#[test]
fn document_title_is_first_level_one_heading() {
    assert_eq!(get_document_title("# Hello *there*\n\ntext"), Some("Hello there".to_string()));
    assert_eq!(get_document_title("text\n\n# Late title\n"), Some("Late title".to_string()));
    assert_eq!(get_document_title("## Section\n\n# Title\n"), Some("Title".to_string()));
    assert_eq!(get_document_title("## Sub\n\n# Title\n"), Some(String::from("Title")));
    assert_eq!(get_document_title("## Section\n\n### Deeper\n"), None);
    assert_eq!(get_document_title("no headings"), None);
    assert_eq!(get_document_title(""), None);
    assert_eq!(document_title(&ast("# A\n\n# B\n")), Some("A".to_string()));
}

#[test]
fn search_document_copy_is_equal() {
    let doc = SearchDocument::new(3, "Page", "Unit", "Some content");
    assert_eq!(doc.duplicate(), doc);
    assert_eq!(doc.level, 3);
    assert_eq!(doc.page_title, "Page");
    assert_eq!(doc.title, "Unit");
    assert_eq!(doc.content, "Some content");
}
