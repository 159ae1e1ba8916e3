//! Sections: one directory each, with its pages and the sections below it.

use vstd::prelude::*;
use crate::config::{SiteConfig, TitleConfig};
use crate::content::breadcrumb::crumb_pairs;
use crate::content::page::{page_from, Page, PageEntry};
use crate::content::paths::is_markdown_path;
use crate::content::sort::{in_order, ordered, page_paths, page_values, sort_pages};
use crate::content::source::{
    dir_failure, dirs_failure, files_failure, lemma_dirs_failure_persists,
    lemma_files_failure_persists, markdown_file_paths, markdown_files, markdown_paths,
    markdown_paths_all, SourceDir, SourceFile,
};
use crate::content::title::{
    get_section_config, is_inferred_title, resolved_title, sidecar_title, WithTitle,
};
use crate::error::{Error, ErrorView};
use crate::utils::get_or_none;

verus! {

/// A section of the site.
#[derive(Debug, PartialEq, Eq)]
pub struct Section {
    pub title: String,
    /// The path of the directory.
    pub url: String,
    /// The pages of the directory itself.
    pub pages: Option<Vec<Page>>,
    /// One section for each subdirectory.
    pub sections: Option<Vec<Section>>,
}

/// The title and URL of a section with those of its pages and of the
/// sections below it, for navigation.
#[derive(Debug, PartialEq, Eq)]
pub struct SectionEntry {
    pub title: String,
    pub url: String,
    pub pages: Option<Vec<PageEntry>>,
    pub sections: Option<Vec<SectionEntry>>,
}

/// The pages of a section itself.
pub open spec fn own_pages(section: Section) -> Seq<Page> {
    match section.pages {
        Some(pages) => pages@,
        None => Seq::empty(),
    }
}

/// The sections directly below a section.
pub open spec fn child_sections(section: Section) -> Seq<Section> {
    match section.sections {
        Some(sections) => sections@,
        None => Seq::empty(),
    }
}

/// Every page of a section: its own, then those of each section below it in turn.
pub open spec fn flat_pages(section: Section) -> Seq<Page>
    decreases section,
{
    own_pages(section) + match section.sections {
        Some(sections) => flat_pages_all(sections@),
        None => Seq::empty(),
    }
}

/// Every page of each section of a list in turn.
pub open spec fn flat_pages_all(sections: Seq<Section>) -> Seq<Page>
    decreases sections,
{
    if sections.len() == 0 {
        Seq::empty()
    } else {
        flat_pages_all(sections.drop_last()) + flat_pages(sections.last())
    }
}

/// The breadcrumb below a section: the one above it, then the section itself.
pub open spec fn crumbs_below(
    above: Option<&Vec<(String, String)>>,
    path: Seq<char>,
    title: Seq<char>,
) -> Seq<(Seq<char>, Seq<char>)> {
    match above {
        Some(crumbs) => crumb_pairs(crumbs@).push((path, title)),
        None => seq![(path, title)],
    }
}

/// Whether a page is the page of a file below the given breadcrumb.
pub open spec fn page_of_file(
    page: Page,
    file: SourceFile,
    crumbs: Seq<(Seq<char>, Seq<char>)>,
    config: SiteConfig,
) -> bool {
    page_from(page, file.path@, file.file@, file.front, file.content@, crumbs, config)
}

/// Whether each page of a list is the page of the file at its place in a list of files.
pub open spec fn pages_of_files(
    pages: Seq<Page>,
    files: Seq<SourceFile>,
    crumbs: Seq<(Seq<char>, Seq<char>)>,
    config: SiteConfig,
) -> bool {
    &&& pages.len() == files.len()
    &&& forall|k: int|
        0 <= k < pages.len() ==> page_of_file(#[trigger] pages[k], files[k], crumbs, config)
}

/// What a breadcrumb holds, if there is one.
pub open spec fn crumbs_above(above: Option<&Vec<(String, String)>>) -> Seq<
    (Seq<char>, Seq<char>),
> {
    match above {
        Some(crumbs) => crumb_pairs(crumbs@),
        None => Seq::empty(),
    }
}

/// Whether a title is that of a directory: the one of its metadata file,
/// else the one that its index page gives, else the one that its path gives.
pub open spec fn section_title_of(title: Seq<char>, dir: SourceDir, title_config: TitleConfig) -> bool {
    match sidecar_title(dir.config) {
        Some(t) => title == t,
        None => match dir.index {
            Some(file) => is_inferred_title(title, file@, dir.path@, title_config),
            None => title == resolved_title(None, None, dir.path@, title_config),
        },
    }
}

/// Whether a section is the section of a directory below the given
/// breadcrumb: it has the path of the directory as its URL and the title
/// of the directory; its pages are the pages of the Markdown files of the
/// directory, and the sections below it those of the subdirectories, all
/// below the breadcrumb extended by the section itself.
pub open spec fn section_of(
    section: Section,
    dir: SourceDir,
    above: Seq<(Seq<char>, Seq<char>)>,
    config: SiteConfig,
) -> bool
    decreases dir,
{
    let crumbs = above.push((dir.path@, section.title@));
    &&& section.url@ == dir.path@
    &&& section_title_of(section.title@, dir, config.title_config)
    &&& section.pages is Some
    &&& pages_of_files(own_pages(section), markdown_files(dir.files@), crumbs, config)
    &&& (section.sections is None <==> dir.dirs@.len() == 0)
    &&& child_sections(section).len() == dir.dirs@.len()
    &&& forall|i: int|
        0 <= i < dir.dirs@.len() ==> section_of(
            #[trigger] child_sections(section)[i],
            dir.dirs@[i],
            crumbs,
            config,
        )
}

/// Appends every page of a section to a list.
fn collect_pages<'a>(section: &'a Section, out: &mut Vec<&'a Page>)
    ensures
        page_values(final(out)@) == page_values(old(out)@) + flat_pages(*section),
    decreases section,
{
    let ghost start = page_values(out@);
    if let Some(pages) = &section.pages {
        let n = pages.len();
        let mut i: usize = 0;
        assert(start + pages@.subrange(0, 0) =~= start);
        while i < n
            invariant
                n == pages@.len(),
                i <= n,
                page_values(out@) == start + pages@.subrange(0, i as int),
            decreases n - i,
        {
            let ghost before = out@;
            out.push(&pages[i]);
            assert(page_values(out@) =~= page_values(before).push(pages@[i as int]));
            assert(start + pages@.subrange(0, i as int + 1) =~= (start + pages@.subrange(
                0,
                i as int,
            )).push(pages@[i as int]));
            i += 1;
        }
        assert(pages@.subrange(0, n as int) =~= pages@);
    } else {
        assert(start + own_pages(*section) =~= start);
    }
    let ghost middle = page_values(out@);
    assert(middle == start + own_pages(*section));
    if let Some(sections) = &section.sections {
        let n = sections.len();
        let mut i: usize = 0;
        assert(sections@.subrange(0, 0) =~= Seq::<Section>::empty());
        assert(middle + flat_pages_all(sections@.subrange(0, 0)) =~= middle);
        while i < n
            invariant
                n == sections@.len(),
                i <= n,
                section.sections == Some(*sections),
                page_values(out@) == middle + flat_pages_all(sections@.subrange(0, i as int)),
            decreases n - i,
        {
            proof {
                let list = section.sections->0;
                assert(decreases_to!(*section => section.sections));
                assert(decreases_to!(section.sections => list));
                assert(decreases_to!(list => list@));
                assert(decreases_to!(list@ => list@[i as int]));
            }
            collect_pages(&sections[i], out);
            proof {
                let upto = sections@.subrange(0, i as int + 1);
                assert(upto.drop_last() =~= sections@.subrange(0, i as int));
                assert(upto.last() == sections@[i as int]);
                assert(middle + flat_pages_all(sections@.subrange(0, i as int)) + flat_pages(
                    sections@[i as int],
                ) =~= middle + flat_pages_all(upto));
            }
            i += 1;
        }
        assert(sections@.subrange(0, n as int) =~= sections@);
        assert(start + own_pages(*section) + flat_pages_all(sections@) =~= start + flat_pages(
            *section,
        ));
    } else {
        assert(middle =~= start + flat_pages(*section));
    }
}

/// A copy of a breadcrumb with one more place at its end.
fn extended(above: Option<&Vec<(String, String)>>, path: &str, title: &str) -> (crumbs: Vec<
    (String, String),
>)
    ensures
        crumb_pairs(crumbs@) == crumbs_below(above, path@, title@),
{
    let mut crumbs: Vec<(String, String)> = Vec::new();
    if let Some(list) = above {
        let n = list.len();
        let mut i: usize = 0;
        while i < n
            invariant
                n == list@.len(),
                i <= n,
                crumb_pairs(crumbs@) == crumb_pairs(list@).subrange(0, i as int),
            decreases n - i,
        {
            let ghost before = crumbs@;
            crumbs.push((list[i].0.clone(), list[i].1.clone()));
            assert(crumb_pairs(crumbs@) =~= crumb_pairs(before).push(
                (list@[i as int].0@, list@[i as int].1@),
            ));
            assert(crumb_pairs(list@).subrange(0, i as int + 1) =~= crumb_pairs(list@).subrange(
                0,
                i as int,
            ).push((list@[i as int].0@, list@[i as int].1@)));
            i += 1;
        }
        assert(crumb_pairs(list@).subrange(0, n as int) =~= crumb_pairs(list@));
    }
    let ghost before = crumbs@;
    crumbs.push((path.to_owned(), title.to_owned()));
    assert(crumb_pairs(crumbs@) =~= crumb_pairs(before).push((path@, title@)));
    crumbs
}

/// The pages of the Markdown files among the files of a directory, in
/// order. The first file that gives no page fails the whole; so does a
/// directory without a Markdown file, with the path of the directory.
pub fn get_pages_in_dir(
    dir: &SourceDir,
    breadcrumb: &Vec<(String, String)>,
    config: &SiteConfig,
) -> (result: Result<Vec<Page>, Error>)
    ensures
        files_failure(dir.files@, config.root@) matches Some(failure) ==> (result matches Err(e)
            && e@ == failure),
        files_failure(dir.files@, config.root@) is None && markdown_file_paths(dir.files@).len()
            == 0 ==> (result matches Err(e) && e@ == ErrorView::NoPages(dir.path@)),
        files_failure(dir.files@, config.root@) is None && markdown_file_paths(dir.files@).len()
            > 0 ==> (result matches Ok(pages) && {
            &&& page_paths(pages@) == markdown_file_paths(dir.files@)
            &&& pages_of_files(
                pages@,
                markdown_files(dir.files@),
                crumb_pairs(breadcrumb@),
                *config,
            )
        }),
{
    let mut pages: Vec<Page> = Vec::new();
    let n = dir.files.len();
    let mut i: usize = 0;
    let ghost files = dir.files@;
    let ghost root = config.root@;
    assert(files.subrange(0, 0) =~= Seq::<SourceFile>::empty());
    assert(page_paths(pages@) =~= markdown_file_paths(files.subrange(0, 0)));
    while i < n
        invariant
            files == dir.files@,
            root == config.root@,
            n == files.len(),
            i <= n,
            files_failure(files.subrange(0, i as int), root) is None,
            page_paths(pages@) == markdown_file_paths(files.subrange(0, i as int)),
            pages_of_files(
                pages@,
                markdown_files(files.subrange(0, i as int)),
                crumb_pairs(breadcrumb@),
                *config,
            ),
        decreases n - i,
    {
        let file = &dir.files[i];
        proof {
            let upto = files.subrange(0, i as int + 1);
            assert(upto.drop_last() =~= files.subrange(0, i as int));
            assert(upto.last() == files[i as int]);
        }
        if is_markdown_path(file.path.as_str()) {
            match Page::from_source(
                file.path.as_str(),
                file.file.as_str(),
                file.front.duplicate(),
                file.content.clone(),
                breadcrumb,
                config,
            ) {
                Ok(page) => {
                    let ghost before = pages@;
                    pages.push(page);
                    proof {
                        assert(page_paths(pages@) =~= page_paths(before).push(page.path@));
                        let found = markdown_files(files.subrange(0, i as int + 1));
                        assert(page_of_file(page, *file, crumb_pairs(breadcrumb@), *config));
                        assert forall|k: int| 0 <= k < pages@.len() implies page_of_file(
                            #[trigger] pages@[k],
                            found[k],
                            crumb_pairs(breadcrumb@),
                            *config,
                        ) by {
                            if k < before.len() {
                                assert(pages@[k] == before[k]);
                            }
                        }
                    }
                },
                Err(e) => {
                    proof {
                        lemma_files_failure_persists(files, root, i as int + 1);
                    }
                    return Err(e);
                },
            }
        }
        i += 1;
    }
    assert(files.subrange(0, n as int) =~= files);
    if pages.len() == 0 {
        return Err(Error::NoPages(dir.path.clone()));
    }
    Ok(pages)
}

impl Section {
    /// A section with the given parts.
    pub fn new(title: &str, url: &str, pages: Option<Vec<Page>>, sections: Option<Vec<Section>>) -> (section:
        Self)
        ensures
            section.title@ == title@,
            section.url@ == url@,
            section.pages == pages,
            section.sections == sections,
    {
        Self { title: title.to_owned(), url: url.to_owned(), pages, sections }
    }

    /// Every page of the section and of the sections below it, in order:
    /// the index page of the root first, then by order, a page without one
    /// as if it had order 1; among pages of one rank, titles later in the
    /// alphabet first. Each page is there once.
    pub fn pages(&self) -> (pages: Vec<&Page>)
        ensures
            page_values(pages@) == ordered(flat_pages(*self)),
            in_order(page_values(pages@)),
            page_values(pages@).to_multiset() == flat_pages(*self).to_multiset(),
            page_paths(page_values(pages@)).to_multiset() == page_paths(
                flat_pages(*self),
            ).to_multiset(),
    {
        let mut pages: Vec<&Page> = Vec::new();
        collect_pages(self, &mut pages);
        assert(page_values(pages@) =~= flat_pages(*self));
        sort_pages(&pages)
    }

    /// The section of a directory that was read, below the given
    /// breadcrumb.
    ///
    /// Its title is that of the metadata file, else the one that the index
    /// page gives itself, else the one that the path gives. Every Markdown
    /// file of the directory becomes a page, and every subdirectory a
    /// section, each below the breadcrumb extended by this section. What
    /// fails is the first file that gives no page, else a directory without
    /// a Markdown file, else the first subdirectory that fails.
    pub fn from_source(
        dir: &SourceDir,
        breadcrumb: Option<&Vec<(String, String)>>,
        config: &SiteConfig,
    ) -> (result: Result<Self, Error>)
        ensures
            dir_failure(*dir, config.root@) matches Some(failure) ==> (result matches Err(e) && e@
                == failure),
            dir_failure(*dir, config.root@) is None ==> (result matches Ok(section) && {
                &&& section_of(section, *dir, crumbs_above(breadcrumb), *config)
                &&& page_paths(own_pages(section)) == markdown_file_paths(dir.files@)
                &&& page_paths(flat_pages(section)) == markdown_paths(*dir)
            }),
        decreases dir,
    {
        let section_config = get_section_config(
            &dir.config,
            &dir.index,
            dir.path.as_str(),
            &config.title_config,
        );
        let title = section_config.title;
        let breadcrumb_acc = extended(breadcrumb, dir.path.as_str(), title.as_str());
        let ghost crumbs = crumbs_above(breadcrumb).push((dir.path@, title@));
        assert(crumb_pairs(breadcrumb_acc@) =~= crumbs);
        assert(section_title_of(title@, *dir, config.title_config));
        let pages = match get_pages_in_dir(dir, &breadcrumb_acc, config) {
            Ok(pages) => pages,
            Err(e) => {
                return Err(e);
            },
        };
        let mut sections: Vec<Section> = Vec::new();
        let n = dir.dirs.len();
        let mut i: usize = 0;
        let ghost dirs = dir.dirs@;
        let ghost root = config.root@;
        assert(dirs.subrange(0, 0) =~= Seq::<SourceDir>::empty());
        assert(page_paths(flat_pages_all(sections@)) =~= markdown_paths_all(dirs.subrange(0, 0)));
        while i < n
            invariant
                dirs == dir.dirs@,
                root == config.root@,
                n == dirs.len(),
                i <= n,
                dirs_failure(dirs.subrange(0, i as int), root) is None,
                sections@.len() == i,
                crumbs == crumb_pairs(breadcrumb_acc@),
                forall|k: int|
                    0 <= k < i ==> section_of(#[trigger] sections@[k], dirs[k], crumbs, *config),
                files_failure(dir.files@, root) is None,
                markdown_file_paths(dir.files@).len() > 0,
                page_paths(flat_pages_all(sections@)) == markdown_paths_all(
                    dirs.subrange(0, i as int),
                ),
            decreases n - i,
        {
            proof {
                let upto = dirs.subrange(0, i as int + 1);
                assert(upto.drop_last() =~= dirs.subrange(0, i as int));
                assert(upto.last() == dirs[i as int]);
            }
            match Section::from_source(&dir.dirs[i], Some(&breadcrumb_acc), config) {
                Ok(section) => {
                    let ghost before = sections@;
                    sections.push(section);
                    proof {
                        assert(sections@.drop_last() =~= before);
                        assert forall|k: int| 0 <= k < i + 1 implies section_of(
                            #[trigger] sections@[k],
                            dirs[k],
                            crumbs,
                            *config,
                        ) by {
                            if k < i {
                                assert(sections@[k] == before[k]);
                            }
                        }
                        assert(page_paths(flat_pages_all(before) + flat_pages(section))
                            =~= page_paths(flat_pages_all(before)) + page_paths(
                            flat_pages(section),
                        ));
                    }
                },
                Err(e) => {
                    proof {
                        lemma_dirs_failure_persists(dirs, root, i as int + 1);
                    }
                    return Err(e);
                },
            }
            i += 1;
        }
        assert(dirs.subrange(0, n as int) =~= dirs);
        let ghost all_pages = pages@;
        let ghost all_sections = sections@;
        let section = Section {
            title,
            url: dir.path.clone(),
            pages: get_or_none(pages),
            sections: get_or_none(sections),
        };
        proof {
            assert(child_sections(section) =~= all_sections);
            assert(own_pages(section) == all_pages);
            assert(section.title@ == title@);
            assert(section_of(section, *dir, crumbs_above(breadcrumb), *config));
            if all_sections.len() == 0 {
                assert(flat_pages(section) =~= all_pages);
                assert(markdown_paths(*dir) =~= markdown_file_paths(dir.files@));
            } else {
                assert(flat_pages(section) == all_pages + flat_pages_all(all_sections));
                assert(page_paths(all_pages + flat_pages_all(all_sections)) =~= page_paths(
                    all_pages,
                ) + page_paths(flat_pages_all(all_sections)));
            }
        }
        Ok(section)
    }
}

impl WithTitle for Section {
    open spec fn title_text(&self) -> Seq<char> {
        self.title@
    }

    fn title(&self) -> (title: String) {
        self.title.clone()
    }
}

} // verus!
