//! The errors of a build.

use vstd::prelude::*;
use crate::text::joined;

verus! {

/// Why a build failed, or why a code block could not be highlighted.
#[derive(Clone, Debug, PartialEq, Eq)]
pub enum Error {
    /// No syntax is known for the language of a code block.
    Highlight(String),
    /// A file could not be read.
    Io(String),
    /// A directory holds no Markdown file; the text is the directory's path.
    NoPages(String),
    /// A page lies outside the project root; the text is the page's path.
    Prefix(String),
    /// The highlighter failed on a line of code.
    Syntect(String),
    /// A file is not valid UTF-8.
    Utf8(String),
    /// A front matter block or a metadata file is not valid YAML.
    Yaml(String),
    /// The front matter of a page sets its order to zero; the text is the page's path.
    ZeroOrder(String),
}

/// What an error holds.
pub ghost enum ErrorView {
    Highlight(Seq<char>),
    Io(Seq<char>),
    NoPages(Seq<char>),
    Prefix(Seq<char>),
    Syntect(Seq<char>),
    Utf8(Seq<char>),
    Yaml(Seq<char>),
    ZeroOrder(Seq<char>),
}

impl View for Error {
    type V = ErrorView;

    open spec fn view(&self) -> ErrorView {
        match *self {
            Error::Highlight(s) => ErrorView::Highlight(s@),
            Error::Io(s) => ErrorView::Io(s@),
            Error::NoPages(s) => ErrorView::NoPages(s@),
            Error::Prefix(s) => ErrorView::Prefix(s@),
            Error::Syntect(s) => ErrorView::Syntect(s@),
            Error::Utf8(s) => ErrorView::Utf8(s@),
            Error::Yaml(s) => ErrorView::Yaml(s@),
            Error::ZeroOrder(s) => ErrorView::ZeroOrder(s@),
        }
    }
}

/// The message of an error: what kind it is, then its text.
pub open spec fn message_of(error: Error) -> Seq<char> {
    match error {
        Error::Highlight(s) => "highlight error: "@ + s@,
        Error::Io(s) => "I/O error: "@ + s@,
        Error::NoPages(s) => "no pages found in directory: "@ + s@,
        Error::Prefix(s) => "prefix error: "@ + s@,
        Error::Syntect(s) => "syntect error: "@ + s@,
        Error::Utf8(s) => "UTF-8 error: "@ + s@,
        Error::Yaml(s) => "yaml parse error: "@ + s@,
        Error::ZeroOrder(s) => "order parameter on page "@ + s@ + " is set to zero"@,
    }
}

impl Error {
    /// The message of the error, as it is shown to the user.
    pub fn message(&self) -> (text: String)
        ensures
            text@ == message_of(*self),
    {
        match self {
            Error::Highlight(s) => joined("highlight error: ", s.as_str()),
            Error::Io(s) => joined("I/O error: ", s.as_str()),
            Error::NoPages(s) => joined("no pages found in directory: ", s.as_str()),
            Error::Prefix(s) => joined("prefix error: ", s.as_str()),
            Error::Syntect(s) => joined("syntect error: ", s.as_str()),
            Error::Utf8(s) => joined("UTF-8 error: ", s.as_str()),
            Error::Yaml(s) => joined("yaml parse error: ", s.as_str()),
            Error::ZeroOrder(s) => {
                let head = joined("order parameter on page ", s.as_str());
                joined(head.as_str(), " is set to zero")
            },
        }
    }
}

} // verus!
