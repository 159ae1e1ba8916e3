//! The settings of a project.

use vstd::prelude::*;

verus! {

/// How a title is derived from a path.
#[derive(Clone, Copy, Debug, PartialEq, Eq)]
pub struct TitleConfig {
    /// Put the derived title in title case.
    pub title_case: bool,
    /// Otherwise, put its first letter in upper case.
    pub first_letter_capitalized: bool,
}

impl Default for TitleConfig {
    fn default() -> (config: Self)
        ensures
            !config.title_case,
            config.first_letter_capitalized,
    {
        Self { title_case: false, first_letter_capitalized: true }
    }
}

/// The settings of a site: the root directory of its content, and how
/// titles are derived.
#[derive(Clone, Debug, PartialEq, Eq)]
pub struct SiteConfig {
    pub root: String,
    pub title_config: TitleConfig,
}

impl SiteConfig {
    /// The settings of a site rooted at `root`, with the default title rules.
    pub fn new(root: String) -> (config: Self)
        ensures
            config.root == root,
            !config.title_config.title_case,
            config.title_config.first_letter_capitalized,
    {
        Self { root, title_config: TitleConfig::default() }
    }
}

impl Default for SiteConfig {
    fn default() -> (config: Self)
        ensures
            config.root@ == "docs"@,
            !config.title_config.title_case,
            config.title_config.first_letter_capitalized,
    {
        Self { root: "docs".to_owned(), title_config: TitleConfig::default() }
    }
}

/// What the metadata file of a directory says.
#[derive(Clone, Debug, PartialEq, Eq)]
pub struct SectionConfigInput {
    pub title: Option<String>,
}

/// What is settled for a directory once its metadata file is read.
#[derive(Clone, Debug, PartialEq, Eq)]
pub struct SectionConfigOutput {
    pub title: String,
}

} // verus!
