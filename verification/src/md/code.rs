//! Code blocks and the information string of a fence.

use vstd::prelude::*;
use crate::text::{
    pieces, pieces_of, same_text, skip_leading_char, skip_trailing_char, trim, trim_char,
    text_views, trimmed, words, words_of,
};

verus! {

/// What the information string of a fenced code block says.
#[derive(Debug, PartialEq, Eq)]
pub struct Metadata {
    pub language: Option<String>,
    pub show_line_numbers: bool,
    pub file: Option<String>,
}

/// A code block: what its fence said, and its source text.
#[derive(Debug, PartialEq, Eq)]
pub struct FancyCodeBlock {
    pub meta: Metadata,
    pub content: String,
}


/// The language that an information string names: its first word, if it has one.
pub open spec fn language_of(info: Seq<char>) -> Option<Seq<char>> {
    if words_of(info).len() > 0 {
        Some(words_of(info)[0])
    } else {
        None
    }
}

/// Whether a word after the first of an information string asks for line numbers.
pub open spec fn asks_line_numbers(info: Seq<char>) -> bool {
    exists|i: int| 1 <= i < words_of(info).len() && #[trigger] words_of(info)[i] == "showLineNumbers"@
}

/// The file that an information string names: it has more than one word and
/// reads `file`, an equals sign and the name, which may stand in double quotes.
pub open spec fn file_of(info: Seq<char>) -> Option<Seq<char>> {
    let parts = pieces_of(info, '=');
    if words_of(info).len() > 1 && parts.len() == 2 && trimmed(parts[0]) == "file"@ {
        Some(skip_trailing_char(skip_leading_char(trimmed(parts[1]), '"'), '"'))
    } else {
        None
    }
}

impl Metadata {
    /// Nothing said: no language, no line numbers, no file.
    pub fn default() -> (metadata: Self)
        ensures
            metadata.language is None,
            !metadata.show_line_numbers,
            metadata.file is None,
    {
        Metadata { language: None, show_line_numbers: false, file: None }
    }

    /// Reads the information string of a fence: the first word is the
    /// language, a later word `showLineNumbers` asks for line numbers, and
    /// `file=...` names a file.
    pub fn parse(s: &str) -> (metadata: Self)
        ensures
            metadata.language is Some <==> language_of(s@) is Some,
            metadata.language matches Some(l) ==> Some(l@) == language_of(s@),
            metadata.show_line_numbers == asks_line_numbers(s@),
            metadata.file is Some <==> file_of(s@) is Some,
            metadata.file matches Some(f) ==> Some(f@) == file_of(s@),
    {
        let parts = words(s);
        assert(forall|k: int|
            0 <= k < parts@.len() ==> (#[trigger] parts@[k])@ == text_views(parts@)[k]);
        let mut metadata = Metadata { language: None, show_line_numbers: false, file: None };
        if parts.len() > 0 {
            metadata.language = Some(parts[0].clone());
        }
        let mut i: usize = 1;
        while i < parts.len()
            invariant
                1 <= i,
                i <= parts@.len() || i == 1,
                text_views(parts@) == words_of(s@),
                metadata.language is Some <==> language_of(s@) is Some,
                metadata.language matches Some(l) ==> Some(l@) == language_of(s@),
                metadata.show_line_numbers == (exists|k: int|
                    1 <= k < i && #[trigger] words_of(s@)[k] == "showLineNumbers"@),
                metadata.file is None,
            decreases parts.len() - i,
        {
            assert(parts@[i as int]@ == text_views(parts@)[i as int]);
            if same_text(parts[i].as_str(), "showLineNumbers") {
                metadata.show_line_numbers = true;
            }
            i += 1;
        }
        proof {
            if asks_line_numbers(s@) {
                let k = choose|k: int|
                    1 <= k < words_of(s@).len() && #[trigger] words_of(s@)[k]
                        == "showLineNumbers"@;
                assert(1 <= k < i);
            }
            assert(metadata.show_line_numbers == asks_line_numbers(s@));
        }
        if parts.len() > 1 {
            let halves = pieces(s, '=');
            assert(forall|k: int|
                0 <= k < halves@.len() ==> (#[trigger] halves@[k])@ == text_views(halves@)[k]);
            if halves.len() == 2 {
                let key = trim(halves[0].as_str());
                if same_text(key.as_str(), "file") {
                    let value = trim(halves[1].as_str());
                    metadata.file = Some(trim_char(value.as_str(), '"'));
                }
            }
        }
        metadata
    }
}

/// The rule that turns the code blocks of the parser into code blocks with
/// what their fences said.
pub struct FancyCodeBlockRule;

impl FancyCodeBlockRule {
    /// The code block for a source text and, where the block was fenced, the
    /// information string of its fence. An indented block says nothing.
    pub fn run(info: Option<&str>, content: String) -> (block: FancyCodeBlock)
        ensures
            block.content == content,
            info is None ==> block.meta.language is None && !block.meta.show_line_numbers
                && block.meta.file is None,
            info matches Some(s) ==> {
                &&& (block.meta.language is Some <==> language_of(s@) is Some)
                &&& (block.meta.language matches Some(l) ==> Some(l@) == language_of(s@))
                &&& block.meta.show_line_numbers == asks_line_numbers(s@)
                &&& (block.meta.file is Some <==> file_of(s@) is Some)
                &&& (block.meta.file matches Some(f) ==> Some(f@) == file_of(s@))
            },
    {
        let meta = match info {
            Some(s) => Metadata::parse(s),
            None => Metadata::default(),
        };
        FancyCodeBlock { meta, content }
    }
}

impl FancyCodeBlock {
    /// The language under which the block is highlighted: the one its fence
    /// named, else `text`.
    pub open spec fn language(&self) -> Seq<char> {
        match self.meta.language {
            Some(l) => l@,
            None => "text"@,
        }
    }
}

} // verus!
