//! Titles of pages and sections.

use vstd::prelude::*;
use crate::config::{SectionConfigInput, SectionConfigOutput, TitleConfig};
use crate::content::front::FrontMatter;
use crate::md::title::{get_document_title, is_title_of};
use crate::utils::{name_from_path, name_of_path};

verus! {

/// What has a title.
pub trait WithTitle {
    /// The title, as contracts speak of it.
    spec fn title_text(&self) -> Seq<char>;

    /// A copy of the title.
    fn title(&self) -> (title: String)
        ensures
            title@ == self.title_text(),
    ;
}

/// The first title that is there: the explicit one, else the one that the
/// document gives itself, else the one that the path gives.
pub open spec fn resolved_title(
    explicit: Option<Seq<char>>,
    document: Option<Seq<char>>,
    path: Seq<char>,
    title_config: TitleConfig,
) -> Seq<char> {
    match explicit {
        Some(t) => t,
        None => match document {
            Some(t) => t,
            None => name_of_path(path, title_config),
        },
    }
}

/// The view of an optional text.
pub open spec fn text_view(text: Option<String>) -> Option<Seq<char>> {
    match text {
        Some(t) => Some(t@),
        None => None,
    }
}

/// The title of a page or a section by priority: the explicit title, else
/// the text of the document's first heading if it is of level 1, else the
/// name that the path gives under the title settings.
pub fn resolve_title(
    explicit: Option<String>,
    document: Option<String>,
    path: &str,
    title_config: &TitleConfig,
) -> (title: String)
    ensures
        title@ == resolved_title(text_view(explicit), text_view(document), path@, *title_config),
{
    match explicit {
        Some(t) => t,
        None => match document {
            Some(t) => t,
            None => name_from_path(path, title_config),
        },
    }
}

/// Whether a title is the one that a file gives where nothing names one
/// explicitly: the title that the file gives itself as a document, else the
/// one that the path gives.
pub open spec fn is_inferred_title(
    title: Seq<char>,
    file: Seq<char>,
    path: Seq<char>,
    title_config: TitleConfig,
) -> bool {
    exists|document: Option<Seq<char>>| #[trigger]
        is_title_of(document, file) && title == resolved_title(
            None,
            document,
            path,
            title_config,
        )
}

/// The title of a page: that of its front matter, else the one that the
/// file gives itself, else the one that its path gives. With a title in the
/// front matter the file is not read.
pub fn infer_page_title(front: FrontMatter, path: &str, file: &str, title_config: &TitleConfig) -> (title:
    String)
    ensures
        front.title matches Some(t) ==> title@ == t@,
        front.title is None ==> is_inferred_title(title@, file@, path@, *title_config),
{
    match front.title {
        Some(t) => t,
        None => {
            let document = get_document_title(file);
            let title = resolve_title(None, document, path, title_config);
            assert(is_title_of(text_view(document), file@) && title@ == resolved_title(
                None,
                text_view(document),
                path@,
                *title_config,
            ));
            title
        },
    }
}

/// The title that the index page of a directory gives it, if the directory
/// has an index page and that page gives itself a title.
pub fn title_from_index_page(index: &Option<String>) -> (title: Option<String>)
    ensures
        *index is None ==> title is None,
        *index matches Some(file) ==> is_title_of(text_view(title), file@),
{
    match index {
        Some(file) => get_document_title(file.as_str()),
        None => None,
    }
}

/// The title that a metadata file gives, if there is such a file and it gives one.
pub open spec fn sidecar_title(sidecar: Option<SectionConfigInput>) -> Option<Seq<char>> {
    match sidecar {
        Some(input) => text_view(input.title),
        None => None,
    }
}

/// What is settled for a directory: its title is that of its metadata
/// file, else the one that its index page gives, else the one that its
/// path gives.
pub fn get_section_config(
    sidecar: &Option<SectionConfigInput>,
    index: &Option<String>,
    path: &str,
    title_config: &TitleConfig,
) -> (output: SectionConfigOutput)
    ensures
        sidecar_title(*sidecar) matches Some(t) ==> output.title@ == t,
        sidecar_title(*sidecar) is None ==> (*index matches Some(file) ==> is_inferred_title(
            output.title@,
            file@,
            path@,
            *title_config,
        )),
        *index is None ==> output.title@ == resolved_title(
            sidecar_title(*sidecar),
            None,
            path@,
            *title_config,
        ),
{
    let explicit: Option<String> = match sidecar {
        Some(input) => input.title.clone(),
        None => None,
    };
    let ghost explicit_view = sidecar_title(*sidecar);
    assert(text_view(explicit) == explicit_view);
    match explicit {
        Some(t) => {
            assert(t@ == resolved_title(explicit_view, None, path@, *title_config));
            SectionConfigOutput { title: t }
        },
        None => {
            let document = title_from_index_page(index);
            let title = resolve_title(None, document, path, title_config);
            assert(title@ == resolved_title(explicit_view, text_view(document), path@, *title_config));
            SectionConfigOutput { title }
        },
    }
}

} // verus!
