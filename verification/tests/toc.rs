use jelly::md::parse::ast;
use jelly::md::toc::{TableOfContents, TocBuilder, TocEntry};

#[test]
fn toc_create_toc() {
    let cases: Vec<(&str, TableOfContents)> = vec![(
        "# This gets ignored\n\nHere is some text.\n\n## Now a heading 2\n\nMore text.\n\n### Now a heading 3\n\nMore text.\n\n#### Let's go even deeper\n\nFiller here.\n\n## And now back to a heading 2\n\nMore text.\n\n### Another heading 3\n\n## And yet another heading 2\n\n#### Let's skip a level\n",
        TableOfContents::new(vec![
            TocEntry::new(
                2,
                "Now a heading 2",
                TableOfContents::new(vec![TocEntry::new(
                    3,
                    "Now a heading 3",
                    TableOfContents::new(vec![TocEntry::new(
                        4,
                        "Let's go even deeper",
                        TableOfContents::empty(),
                    )]),
                )]),
            ),
            TocEntry::new(
                2,
                "And now back to a heading 2",
                TableOfContents::new(vec![TocEntry::new(
                    3,
                    "Another heading 3",
                    TableOfContents::empty(),
                )]),
            ),
            TocEntry::new(
                2,
                "And yet another heading 2",
                TableOfContents::new(vec![TocEntry::new(
                    4,
                    "Let's skip a level",
                    TableOfContents::empty(),
                )]),
            ),
        ]),
    )];

    for (md, expected_toc) in cases {
        let tree = ast(md);
        let toc = TableOfContents::parse(&tree);
        assert_eq!(toc, expected_toc);
    }
}

fn build(levels: &[u8]) -> TableOfContents {
    let mut builder = TocBuilder::new();
    for (i, level) in levels.iter().enumerate() {
        builder.push(*level, format!("h{}", i));
    }
    builder.into_toc()
}

#[test]
fn toc_nests_three_sections() {
    let toc = build(&[2, 3, 4, 2, 3, 2]);
    assert_eq!(toc.entries.len(), 3);
    assert_eq!(toc.entries[0].text, "h0");
    assert_eq!(toc.entries[0].children.entries.len(), 1);
    assert_eq!(toc.entries[0].children.entries[0].text, "h1");
    assert_eq!(toc.entries[0].children.entries[0].children.entries.len(), 1);
    assert_eq!(toc.entries[0].children.entries[0].children.entries[0].text, "h2");
    assert_eq!(toc.entries[1].text, "h3");
    assert_eq!(toc.entries[1].children.entries.len(), 1);
    assert_eq!(toc.entries[1].children.entries[0].text, "h4");
    assert!(toc.entries[1].children.entries[0].children.entries.is_empty());
    assert_eq!(toc.entries[2].text, "h5");
    assert!(toc.entries[2].children.entries.is_empty());
}

#[test]
fn toc_of_nothing_is_empty() {
    assert_eq!(build(&[]), TableOfContents::empty());
    assert_eq!(TableOfContents::parse(&ast("")), TableOfContents::empty());
    assert_eq!(TableOfContents::parse(&ast("# Only a title\n\nText.\n")), TableOfContents::empty());
}

#[test]
fn toc_skipped_levels_nest_directly() {
    let toc = build(&[2, 5]);
    assert_eq!(toc.entries.len(), 1);
    assert_eq!(toc.entries[0].level, 2);
    assert_eq!(toc.entries[0].children.entries.len(), 1);
    assert_eq!(toc.entries[0].children.entries[0].level, 5);
}

#[test]
fn toc_deeper_start_then_shallower() {
    let toc = build(&[4, 3, 2, 3]);
    assert_eq!(toc.entries.len(), 3);
    assert_eq!(toc.entries[0].level, 4);
    assert_eq!(toc.entries[1].level, 3);
    assert_eq!(toc.entries[2].level, 2);
    assert_eq!(toc.entries[2].children.entries.len(), 1);
    assert_eq!(toc.entries[2].children.entries[0].level, 3);
}

fn check_levels(toc: &TableOfContents, floor: u8) {
    for entry in &toc.entries {
        assert!(entry.level > floor);
        check_levels(&entry.children, entry.level);
    }
}

#[test]
fn toc_levels_grow_downwards() {
    let toc = build(&[3, 2, 6, 6, 4, 5, 2, 2, 3, 6, 4]);
    check_levels(&toc, 1);
    let tree = ast("# T\n\n## a\n\n#### b\n\n### c\n\n# U\n\n## d\n");
    check_levels(&TableOfContents::parse(&tree), 1);
}

#[test]
fn toc_entry_carries_slug() {
    let entry = TocEntry::new(2, "And now back to a heading 2", TableOfContents::empty());
    assert_eq!(entry.slug, "and-now-back-to-a-heading-2");
    assert_eq!(entry.level, 2);
    assert_eq!(entry.text, "And now back to a heading 2");
}
