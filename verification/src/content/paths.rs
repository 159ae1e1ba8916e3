//! Paths, as texts: what the library asks of `std::path`, and the URL of a page.

use vstd::prelude::*;
use crate::text::{chars_of, text_between};

verus! {

/// What is left of a path once a root is taken from its front, as
/// `Path::strip_prefix` gives it; nothing if the path does not lie under the root.
pub uninterp spec fn relative_to(path: Seq<char>, root: Seq<char>) -> Option<Seq<char>>;

/// Calls `Path::strip_prefix` on the two paths.
#[verifier::external_body]
pub(crate) fn strip_prefix(path: &str, root: &str) -> (rest: Option<String>)
    ensures
        rest is Some <==> relative_to(path@, root@) is Some,
        rest matches Some(r) ==> Some(r@) == relative_to(path@, root@),
{
    let rest = std::path::Path::new(path).strip_prefix(root).ok()?;
    Some(rest.to_string_lossy().into_owned())
}

/// The extension of a path as `Path::extension` gives it, if it has one.
pub uninterp spec fn extension_of(path: Seq<char>) -> Option<Seq<char>>;

/// Calls `Path::extension` on the path.
#[verifier::external_body]
pub(crate) fn extension(path: &str) -> (ext: Option<String>)
    ensures
        ext is Some <==> extension_of(path@) is Some,
        ext matches Some(e) ==> Some(e@) == extension_of(path@),
{
    let ext = std::path::Path::new(path).extension()?;
    Some(ext.to_string_lossy().into_owned())
}

/// A path below a root, as `Path::join` gives it.
pub uninterp spec fn joined_path(root: Seq<char>, path: Seq<char>) -> Seq<char>;

/// Calls `Path::join` on the two paths.
#[verifier::external_body]
pub(crate) fn join(root: &str, path: &str) -> (joined: String)
    ensures
        joined@ == joined_path(root@, path@),
{
    std::path::Path::new(root).join(path).to_string_lossy().into_owned()
}

/// Whether a text ends in `md`.
pub open spec fn ends_in_md(s: Seq<char>) -> bool {
    s.len() >= 2 && s[s.len() - 2] == 'm' && s[s.len() - 1] == 'd'
}

/// Whether a path names a Markdown file: it has an extension, and the extension ends in `md`.
pub open spec fn names_markdown(path: Seq<char>) -> bool {
    extension_of(path) matches Some(ext) && ends_in_md(ext)
}

/// Whether a path names a Markdown file: it has an extension, and the extension ends in `md`.
pub fn is_markdown_path(path: &str) -> (yes: bool)
    ensures
        yes == names_markdown(path@),
{
    match extension(path) {
        Some(ext) => {
            let chars = chars_of(ext.as_str());
            let n = chars.len();
            n >= 2 && chars[n - 2] == 'm' && chars[n - 1] == 'd'
        },
        None => false,
    }
}

/// Where the last segment of a path starts: after its last `/`, or at 0.
/// Segments are told apart by `/` alone.
pub open spec fn segment_start(s: Seq<char>) -> int
    decreases s.len(),
{
    if s.len() == 0 {
        0
    } else if s.last() == '/' {
        s.len() as int
    } else {
        segment_start(s.drop_last())
    }
}

/// Whether a path ends in `.md`.
pub open spec fn has_md_extension(s: Seq<char>) -> bool {
    s.len() >= 3 && s[s.len() - 3] == '.' && ends_in_md(s)
}

/// A path without the `.md` at its end, if it ends so.
pub open spec fn without_md(s: Seq<char>) -> Seq<char> {
    if has_md_extension(s) {
        s.subrange(0, s.len() - 3)
    } else {
        s
    }
}

/// The URL of a page with the given path below the project root: the path
/// without its `.md`; where the last segment is then `index`, the path of
/// the directory in its place.
pub open spec fn url_of(relative: Seq<char>) -> Seq<char> {
    let stem = without_md(relative);
    let start = segment_start(stem);
    if stem.subrange(start, stem.len() as int) == seq!['i', 'n', 'd', 'e', 'x'] {
        if start == 0 {
            Seq::empty()
        } else {
            stem.subrange(0, start - 1)
        }
    } else {
        stem
    }
}

/// The URL of a page with the given path below the project root.
pub fn page_url(relative: &str) -> (url: String)
    ensures
        url@ == url_of(relative@),
{
    let chars = chars_of(relative);
    let n = chars.len();
    let m: usize = if n >= 3 && chars[n - 3] == '.' && chars[n - 2] == 'm' && chars[n - 1] == 'd' {
        n - 3
    } else {
        n
    };
    let ghost stem = without_md(chars@);
    assert(stem =~= chars@.subrange(0, m as int));
    let mut j: usize = m;
    assert(stem.subrange(0, m as int) =~= stem);
    while j > 0 && chars[j - 1] != '/'
        invariant
            j <= m <= n,
            n == chars@.len(),
            stem == chars@.subrange(0, m as int),
            segment_start(stem) == segment_start(stem.subrange(0, j as int)),
        decreases j,
    {
        assert(stem.subrange(0, j as int).drop_last() =~= stem.subrange(0, j as int - 1));
        j -= 1;
    }
    assert(segment_start(stem) == j) by {
        if j > 0 {
            assert(stem.subrange(0, j as int).last() == chars@[j as int - 1]);
        }
    }
    let is_index = m - j == 5 && chars[j] == 'i' && chars[j + 1] == 'n' && chars[j + 2] == 'd'
        && chars[j + 3] == 'e' && chars[j + 4] == 'x';
    proof {
        let last = stem.subrange(j as int, m as int);
        let index = seq!['i', 'n', 'd', 'e', 'x'];
        if is_index {
            assert(last =~= index);
        } else if last == index {
            assert(last.len() == 5);
            assert(last[0] == 'i' && last[1] == 'n' && last[2] == 'd' && last[3] == 'e' && last[4]
                == 'x');
        }
    }
    if is_index {
        if j == 0 {
            String::new()
        } else {
            let url = text_between(&chars, 0, j - 1);
            assert(url@ =~= stem.subrange(0, j as int - 1));
            url
        }
    } else {
        text_between(&chars, 0, m)
    }
}

} // verus!
