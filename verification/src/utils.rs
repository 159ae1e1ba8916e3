//! Titles from paths, and other small helpers.

use vstd::prelude::*;
use crate::config::TitleConfig;
use crate::text::{chars_of, joined, replace_char, replaced, text_between};

verus! {

/// A text in title case, as `titlecase::titlecase` gives it.
pub uninterp spec fn title_cased(s: Seq<char>) -> Seq<char>;

/// Calls `titlecase::titlecase`. The result depends on the text alone, so
/// the contract names it.
#[verifier::external_body]
fn to_title_case(s: &str) -> (out: String)
    ensures
        out@ == title_cased(s@),
{
    titlecase::titlecase(s)
}

/// A text in upper case, as `str::to_uppercase` gives it.
pub uninterp spec fn upper_cased(s: Seq<char>) -> Seq<char>;

/// Calls `str::to_uppercase`. The result depends on the text alone, so the
/// contract names it.
#[verifier::external_body]
fn to_upper_case(s: &str) -> (out: String)
    ensures
        out@ == upper_cased(s@),
{
    s.to_uppercase()
}

/// A text with its first character in upper case; the empty text stays empty.
pub open spec fn capitalized(s: Seq<char>) -> Seq<char> {
    if s.len() == 0 {
        s
    } else {
        upper_cased(s.subrange(0, 1)) + s.subrange(1, s.len() as int)
    }
}

/// The title that a path gives: hyphens become spaces, and the result is
/// put in title case, or gets a capital first letter, or stays as it is,
/// as the settings say.
pub open spec fn name_of_path(path: Seq<char>, title_config: TitleConfig) -> Seq<char> {
    let deslugged = replaced(path, '-', ' ');
    if title_config.title_case {
        title_cased(deslugged)
    } else if title_config.first_letter_capitalized {
        capitalized(deslugged)
    } else {
        deslugged
    }
}

/// A text with its first character in upper case; the empty text stays empty.
pub fn capitalize_first_letter(s: &str) -> (out: String)
    ensures
        out@ == capitalized(s@),
{
    let chars = chars_of(s);
    if chars.len() == 0 {
        return s.to_owned();
    }
    let first = text_between(&chars, 0, 1);
    let rest = text_between(&chars, 1, chars.len());
    let upper = to_upper_case(first.as_str());
    joined(upper.as_str(), rest.as_str())
}

/// The title that a path gives when nothing else names one.
pub fn name_from_path(path: &str, title_config: &TitleConfig) -> (name: String)
    ensures
        name@ == name_of_path(path@, *title_config),
{
    let deslugged = replace_char(path, '-', ' ');
    if title_config.title_case {
        to_title_case(deslugged.as_str())
    } else if title_config.first_letter_capitalized {
        capitalize_first_letter(deslugged.as_str())
    } else {
        deslugged
    }
}

/// The list, unless it is empty.
pub fn get_or_none<T>(items: Vec<T>) -> (list: Option<Vec<T>>)
    ensures
        items@.len() == 0 ==> list is None,
        items@.len() > 0 ==> list == Some(items),
{
    if items.len() == 0 {
        None
    } else {
        Some(items)
    }
}

} // verus!
