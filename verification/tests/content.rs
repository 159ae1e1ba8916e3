use jelly::config::{SectionConfigInput, SiteConfig, TitleConfig};
use jelly::content::breadcrumb::{links_of, Link};
use jelly::content::front::FrontMatter;
use jelly::content::page::{Page, PageEntry};
use jelly::content::paths::{is_markdown_path, page_url};
use jelly::content::section::{get_pages_in_dir, Section, SectionEntry};
use jelly::content::site::{Site, SiteAttrs, SiteIndex};
use jelly::content::sort::{by_title, sort_pages};
use jelly::content::source::{SourceDir, SourceFile};
use jelly::content::title::{
    get_section_config, infer_page_title, resolve_title, title_from_index_page, WithTitle,
};
use jelly::error::Error;
use jelly::md::search::{SearchDocument, SearchIndex};
use jelly::md::toc::{TableOfContents, TocEntry};
use jelly::utils::{capitalize_first_letter, get_or_none, name_from_path};

fn file(path: &str, title: Option<&str>, order: Option<usize>, content: &str) -> SourceFile {
    SourceFile {
        path: path.to_string(),
        file: content.to_string(),
        front: FrontMatter { title: title.map(String::from), order },
        content: content.to_string(),
    }
}

const INDEX: &str = "# Welcome\n\nWelcome to the site.\n\n## About this site\n\nSome info here.\n";

fn basic() -> SourceDir {
    SourceDir {
        path: "docs".to_string(),
        config: None,
        index: Some(INDEX.to_string()),
        files: vec![
            file("docs/contact.md", Some("Contact us"), Some(1), "Send us a fax.\n"),
            file("docs/index.md", None, Some(5), INDEX),
            file("docs/notes.txt", None, None, "not a page"),
            file("docs/about.md", Some("About"), Some(2), "About this thing.\n"),
        ],
        dirs: vec![SourceDir {
            path: "docs/setup".to_string(),
            config: None,
            index: Some("# Setup\n\nHere is how to set things up.\n\nHere is some other info.\n".to_string()),
            files: vec![file(
                "docs/setup/index.md",
                None,
                None,
                "# Setup\n\nHere is how to set things up.\n\nHere is some other info.\n",
            )],
            dirs: vec![],
        }],
    }
}

fn config() -> SiteConfig {
    SiteConfig::new("docs".to_string())
}

#[test]
fn site_of_a_small_tree() {
    let site = Site::from_source(&basic(), &config()).unwrap();
    assert_eq!(site.0.title, "Welcome");
    assert_eq!(site.0.url, "docs");
    let pages = site.pages();
    let titles: Vec<&str> = pages.iter().map(|p| p.title.as_str()).collect();
    assert_eq!(titles, vec!["Welcome", "Setup", "Contact us", "About"]);
    let index = pages[0];
    assert_eq!(index.path, "docs/index.md");
    assert_eq!(index.relative_path, "index.md");
    assert_eq!(index.url, "");
    assert_eq!(index.order, Some(5));
    assert_eq!(index.breadcrumb, vec![Link::new("docs", "Welcome")]);
    assert_eq!(
        index.table_of_contents,
        TableOfContents::new(vec![TocEntry::new(2, "About this site", TableOfContents::empty())])
    );
    assert_eq!(
        index.search_index,
        SearchIndex(vec![
            SearchDocument::new(1, "Welcome", "Welcome", "Welcome to the site."),
            SearchDocument::new(2, "Welcome", "About this site", "Some info here."),
        ])
    );
    let setup = pages[1];
    assert_eq!(setup.path, "docs/setup/index.md");
    assert_eq!(setup.relative_path, "setup/index.md");
    assert_eq!(setup.url, "setup");
    assert_eq!(setup.order, None);
    assert_eq!(
        setup.breadcrumb,
        vec![Link::new("docs", "Welcome"), Link::new("docs/setup", "Setup")]
    );
    assert_eq!(setup.table_of_contents, TableOfContents::empty());
    assert_eq!(
        setup.search_index,
        SearchIndex(vec![SearchDocument::new(
            1,
            "Setup",
            "Setup",
            "Here is how to set things up. Here is some other info.",
        )])
    );
    let contact = pages[2];
    assert_eq!(contact.url, "contact");
    assert_eq!(contact.body, "Send us a fax.\n");
    assert_eq!(contact.html, "<p>Send us a fax.</p>\n");
    assert_eq!(
        contact.search_index,
        SearchIndex(vec![SearchDocument::new(1, "Contact us", "Contact us", "Send us a fax.")])
    );
}

#[test]
fn flattened_pages_are_the_markdown_files() {
    let site = Site::from_source(&basic(), &config()).unwrap();
    let mut paths: Vec<String> = site.pages().iter().map(|p| p.path.clone()).collect();
    paths.sort();
    assert_eq!(
        paths,
        vec!["docs/about.md", "docs/contact.md", "docs/index.md", "docs/setup/index.md"]
    );
}

#[test]
fn site_documents_follow_page_order() {
    let site = Site::from_source(&basic(), &config()).unwrap();
    let documents = site.documents();
    let titles: Vec<(&str, &str)> = documents
        .iter()
        .map(|d| (d.page_title.as_str(), d.title.as_str()))
        .collect();
    assert_eq!(
        titles,
        vec![
            ("Welcome", "Welcome"),
            ("Welcome", "About this site"),
            ("Setup", "Setup"),
            ("Contact us", "Contact us"),
            ("About", "About"),
        ]
    );
    assert_eq!(site.index(), SiteIndex::new(documents));
    let pages = site.pages();
    assert_eq!(Site::documents_in(&pages), site.documents());
}

#[test]
fn site_attrs_mirror_the_sections() {
    let site = Site::from_source(&basic(), &config()).unwrap();
    let attrs = site.attrs();
    assert_eq!(
        attrs,
        SiteAttrs {
            title: "Welcome".to_string(),
            sections: Some(vec![SectionEntry {
                title: "Setup".to_string(),
                url: "docs/setup".to_string(),
                pages: Some(vec![PageEntry { title: "Setup".to_string(), url: "setup".to_string() }]),
                sections: None,
            }]),
        }
    );
    let entry = SectionEntry::from(&site.0);
    assert_eq!(entry.title, "Welcome");
    assert_eq!(entry.url, "docs");
    assert_eq!(entry.pages.as_ref().map(|p| p.len()), Some(3));
    assert_eq!(entry.sections, attrs.sections);
}

#[test]
fn zero_order_fails_with_the_page_path() {
    let mut dir = basic();
    dir.files[3].front.order = Some(0);
    let result = Site::from_source(&dir, &config());
    assert_eq!(result, Err(Error::ZeroOrder("docs/about.md".to_string())));
    let front = FrontMatter { title: None, order: Some(0) };
    assert!(!front.has_valid_order());
    let page = Page::from_source("docs/a.md", "text", front, "text".to_string(), &vec![], &config());
    assert_eq!(page, Err(Error::ZeroOrder("docs/a.md".to_string())));
    assert_eq!(
        Error::ZeroOrder("docs/a.md".to_string()).message(),
        "order parameter on page docs/a.md is set to zero"
    );
}

#[test]
fn zero_order_below_fails_the_whole_tree() {
    let mut dir = basic();
    dir.dirs[0].files[0].front.order = Some(0);
    assert_eq!(
        Site::from_source(&dir, &config()),
        Err(Error::ZeroOrder("docs/setup/index.md".to_string()))
    );
}

#[test]
fn title_is_the_first_level_one_heading() {
    let settings = TitleConfig::default();
    assert_eq!(
        infer_page_title(FrontMatter::default(), "docs/a.md", "## Sub\n\n# Title\n", &settings),
        "Title"
    );
    let index = Some("Intro.\n\n### Deep\n\n# Section title\n\n# Second\n".to_string());
    assert_eq!(get_section_config(&None, &index, "docs", &settings).title, "Section title");
}

#[test]
fn page_outside_the_root_fails() {
    let page = Page::from_source(
        "other/a.md",
        "text",
        FrontMatter::default(),
        "text".to_string(),
        &vec![],
        &config(),
    );
    assert_eq!(page, Err(Error::Prefix("other/a.md".to_string())));
}

#[test]
fn directory_without_pages_fails_but_its_subdirectory_builds() {
    let mut dir = basic();
    dir.files = vec![file("docs/notes.txt", None, None, "not a page")];
    dir.index = None;
    let result = Site::from_source(&dir, &config());
    assert_eq!(result, Err(Error::NoPages("docs".to_string())));
    let below = Section::from_source(&dir.dirs[0], None, &config()).unwrap();
    assert_eq!(below.title, "Setup");
    assert_eq!(below.pages().len(), 1);
    assert_eq!(below.sections, None);
    assert_eq!(
        get_pages_in_dir(&dir, &vec![], &config()),
        Err(Error::NoPages("docs".to_string()))
    );
}

#[test]
fn failure_below_is_reported_after_own_pages() {
    let mut dir = basic();
    dir.dirs[0].files.clear();
    assert_eq!(
        Site::from_source(&dir, &config()),
        Err(Error::NoPages("docs/setup".to_string()))
    );
    dir.files[0].front.order = Some(0);
    assert_eq!(
        Site::from_source(&dir, &config()),
        Err(Error::ZeroOrder("docs/contact.md".to_string()))
    );
}

#[test]
fn section_title_by_priority() {
    let settings = TitleConfig::default();
    let sidecar = Some(SectionConfigInput { title: Some("Medium-sized project".to_string()) });
    let index = Some(INDEX.to_string());
    assert_eq!(
        get_section_config(&sidecar, &index, "docs", &settings).title,
        "Medium-sized project"
    );
    let empty = Some(SectionConfigInput { title: None });
    assert_eq!(get_section_config(&empty, &index, "docs", &settings).title, "Welcome");
    assert_eq!(get_section_config(&None, &index, "docs", &settings).title, "Welcome");
    assert_eq!(get_section_config(&None, &None, "my-docs", &settings).title, "My docs");
    let untitled = Some("Just text.\n".to_string());
    assert_eq!(get_section_config(&None, &untitled, "my-docs", &settings).title, "My docs");
    assert_eq!(title_from_index_page(&index), Some("Welcome".to_string()));
    assert_eq!(title_from_index_page(&None), None);
}

#[test]
fn page_title_by_priority() {
    let settings = TitleConfig::default();
    let front = FrontMatter { title: Some("Explicit".to_string()), order: None };
    assert_eq!(infer_page_title(front, "docs/a-b.md", "# Heading\n", &settings), "Explicit");
    assert_eq!(
        infer_page_title(FrontMatter::default(), "docs/a-b.md", "# Heading\n", &settings),
        "Heading"
    );
    assert_eq!(
        infer_page_title(FrontMatter::default(), "docs/a-b.md", "text\n", &settings),
        "Docs/a b.md"
    );
    assert_eq!(
        resolve_title(None, Some("Doc".to_string()), "p", &settings),
        "Doc"
    );
    assert_eq!(resolve_title(Some("E".to_string()), Some("Doc".to_string()), "p", &settings), "E");
    assert_eq!(resolve_title(None, None, "p-q", &settings), "P q");
}

#[test]
fn names_from_paths() {
    let plain = TitleConfig { title_case: false, first_letter_capitalized: false };
    let capital = TitleConfig::default();
    let title = TitleConfig { title_case: true, first_letter_capitalized: true };
    assert_eq!(name_from_path("getting-started-now", &plain), "getting started now");
    assert_eq!(name_from_path("getting-started-now", &capital), "Getting started now");
    assert_eq!(name_from_path("getting-started-now", &title), "Getting Started Now");
    assert_eq!(name_from_path("", &capital), "");
    assert_eq!(capitalize_first_letter("abc"), "Abc");
    assert_eq!(capitalize_first_letter("a"), "A");
    assert_eq!(capitalize_first_letter(""), "");
    assert_eq!(capitalize_first_letter("\u{e9}cole"), "\u{c9}cole");
    assert_eq!(capitalize_first_letter("\u{df}a"), "SSa");
}

#[test]
fn lists_or_nothing() {
    assert_eq!(get_or_none(Vec::<u8>::new()), None);
    assert_eq!(get_or_none(vec![1, 2]), Some(vec![1, 2]));
}

#[test]
fn urls_of_pages() {
    assert_eq!(page_url("contact.md"), "contact");
    assert_eq!(page_url("index.md"), "");
    assert_eq!(page_url("setup/index.md"), "setup");
    assert_eq!(page_url("a/b/index.md"), "a/b");
    assert_eq!(page_url("a/b/page.md"), "a/b/page");
    assert_eq!(page_url("a/reindex.md"), "a/reindex");
    assert_eq!(page_url("index"), "");
    assert_eq!(page_url("notes.txt"), "notes.txt");
    assert_eq!(page_url(""), "");
    assert_eq!(page_url(".md"), "");
    assert_eq!(page_url("/index.md"), "");
}

#[test]
fn markdown_paths_by_extension() {
    assert!(is_markdown_path("docs/a.md"));
    assert!(is_markdown_path("docs/a.cmd"));
    assert!(!is_markdown_path("docs/a.txt"));
    assert!(!is_markdown_path("docs/md"));
    assert!(!is_markdown_path("docs/.md"));
    assert!(!is_markdown_path("docs/a.mdx"));
    assert!(!is_markdown_path("docs/a.d"));
}

fn page(relative: &str, title: &str, order: Option<usize>) -> Page {
    Page::new(
        relative,
        relative,
        "",
        title,
        "",
        "",
        vec![],
        TableOfContents::empty(),
        SearchIndex(vec![]),
        order,
    )
}

#[test]
fn page_order_index_first_then_order_then_title() {
    let pages = vec![
        page("b.md", "Beta", Some(2)),
        page("a.md", "Alpha", None),
        page("z.md", "Zeta", Some(1)),
        page("index.md", "Home", Some(9)),
        page("m.md", "Mid", Some(1)),
        page("c.md", "Gamma", Some(3)),
    ];
    let refs: Vec<&Page> = pages.iter().collect();
    let sorted = sort_pages(&refs);
    let titles: Vec<&str> = sorted.iter().map(|p| p.title.as_str()).collect();
    assert_eq!(titles, vec!["Home", "Zeta", "Mid", "Alpha", "Beta", "Gamma"]);
    assert_eq!(pages[3].rank(), 0);
    assert_eq!(pages[1].rank(), 1);
    assert_eq!(pages[0].rank(), 2);
    assert!(pages[3].is_index());
    assert!(!pages[0].is_index());
    assert!(pages[3].precedes(&pages[0]));
    assert!(!pages[0].precedes(&pages[3]));
    assert!(pages[2].precedes(&pages[4]));
    assert!(!pages[4].precedes(&pages[2]));
    assert!(!pages[1].precedes(&pages[1]));
    assert!(by_title(&pages[2], &pages[1]));
    assert!(!by_title(&pages[1], &pages[2]));
    assert!(!by_title(&pages[1], &pages[1]));
}

#[test]
fn page_order_keeps_ties_in_place() {
    let pages = vec![
        page("one.md", "Same", None),
        page("two.md", "Same", Some(1)),
        page("three.md", "Same", None),
    ];
    let refs: Vec<&Page> = pages.iter().collect();
    let sorted = sort_pages(&refs);
    let paths: Vec<&str> = sorted.iter().map(|p| p.path.as_str()).collect();
    assert_eq!(paths, vec!["one.md", "two.md", "three.md"]);
}

#[test]
fn page_output_path_and_titles() {
    let p = page("setup/index.md", "Setup", None);
    assert_eq!(p.html_path("dist"), "dist/setup/index.md");
    assert_eq!(p.title(), "Setup");
    let s = Section::new("Root", "docs", None, None);
    assert_eq!(s.title(), "Root");
    assert_eq!(s.url, "docs");
    assert!(s.pages().is_empty());
    assert_eq!(Site::new(Section::new("Root", "docs", None, None)).0, s);
}

#[test]
fn breadcrumb_links() {
    let crumbs = vec![
        ("docs".to_string(), "Welcome".to_string()),
        ("docs/setup".to_string(), "Setup".to_string()),
    ];
    assert_eq!(
        links_of(&crumbs),
        vec![Link::new("docs", "Welcome"), Link::new("docs/setup", "Setup")]
    );
    assert_eq!(links_of(&vec![]), vec![]);
}

#[test]
fn default_settings() {
    let settings = SiteConfig::default();
    assert_eq!(settings.root, "docs");
    assert!(!settings.title_config.title_case);
    assert!(settings.title_config.first_letter_capitalized);
    assert_eq!(SiteConfig::new("x".to_string()).root, "x");
    assert_eq!(FrontMatter::default(), FrontMatter { title: None, order: None });
    let front = FrontMatter { title: Some("T".to_string()), order: Some(3) };
    assert_eq!(front.duplicate(), front);
    assert!(front.has_valid_order());
}
