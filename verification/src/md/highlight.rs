//! Syntax highlighting of code blocks.

use vstd::prelude::*;
use crate::error::Error;
use crate::text::{chars_of, joined, push_char, text_views};

verus! {

#[verifier::external_type_specification]
#[verifier::external_body]
pub struct ExSyntaxSet(syntect::parsing::SyntaxSet);

#[verifier::external_type_specification]
#[verifier::external_body]
pub struct ExSyntaxReference(syntect::parsing::SyntaxReference);

#[verifier::external_type_specification]
#[verifier::external_body]
pub struct ExClassedHTMLGenerator<'a>(syntect::html::ClassedHTMLGenerator<'a>);

/// Whether a set of syntaxes holds the syntaxes that `syntect` ships.
pub uninterp spec fn holds_defaults(set: syntect::parsing::SyntaxSet) -> bool;

/// The place, among the syntaxes that `syntect` ships, of the one that
/// answers to a language token, if one does.
pub uninterp spec fn known_syntax(token: Seq<char>) -> Option<nat>;

/// The place of a syntax in its set.
pub uninterp spec fn syntax_place(syntax: syntect::parsing::SyntaxReference) -> nat;

/// The place of the syntax that a generator highlights in.
pub uninterp spec fn syntax_fed(generator: syntect::html::ClassedHTMLGenerator<'_>) -> nat;

/// The lines that a generator has been fed, in order.
pub uninterp spec fn lines_fed(generator: syntect::html::ClassedHTMLGenerator<'_>) -> Seq<
    Seq<char>,
>;

/// The message of the error that a line gives in a syntax after the lines
/// before it, if it gives one.
pub uninterp spec fn line_error(syntax: nat, before: Seq<Seq<char>>, line: Seq<char>) -> Option<
    Seq<char>,
>;

/// The HTML with classed spans of some lines in a syntax.
pub uninterp spec fn classed(syntax: nat, lines: Seq<Seq<char>>) -> Seq<char>;

/// Calls `SyntaxSet::load_defaults_newlines`.
#[verifier::external_body]
fn default_syntaxes() -> (set: syntect::parsing::SyntaxSet)
    ensures
        holds_defaults(set),
{
    syntect::parsing::SyntaxSet::load_defaults_newlines()
}

/// Calls `SyntaxSet::find_syntax_by_token` on the syntaxes that `syntect` ships.
#[verifier::external_body]
fn find_syntax<'a>(set: &'a syntect::parsing::SyntaxSet, token: &str) -> (found: Option<
    &'a syntect::parsing::SyntaxReference,
>)
    requires
        holds_defaults(*set),
    ensures
        found is Some <==> known_syntax(token@) is Some,
        found matches Some(syntax) ==> Some(syntax_place(*syntax)) == known_syntax(token@),
{
    set.find_syntax_by_token(token)
}

/// Calls `ClassedHTMLGenerator::new_with_class_style`, with spaced class
/// names: the generator has the syntax and has been fed nothing.
#[verifier::external_body]
fn new_generator<'a>(
    syntax: &'a syntect::parsing::SyntaxReference,
    set: &'a syntect::parsing::SyntaxSet,
) -> (generator: syntect::html::ClassedHTMLGenerator<'a>)
    requires
        holds_defaults(*set),
    ensures
        syntax_fed(generator) == syntax_place(*syntax),
        lines_fed(generator) == Seq::<Seq<char>>::empty(),
{
    syntect::html::ClassedHTMLGenerator::new_with_class_style(
        syntax,
        set,
        syntect::html::ClassStyle::Spaced,
    )
}

/// Calls `ClassedHTMLGenerator::parse_html_for_line_which_includes_newline`:
/// the generator takes the line, or gives the message of the error that
/// the line gives after the lines before it.
#[verifier::external_body]
fn feed_line(generator: &mut syntect::html::ClassedHTMLGenerator<'_>, line: &str) -> (result:
    Result<(), String>)
    ensures
        result is Ok <==> line_error(
            syntax_fed(*old(generator)),
            lines_fed(*old(generator)),
            line@,
        ) is None,
        result matches Err(message) ==> Some(message@) == line_error(
            syntax_fed(*old(generator)),
            lines_fed(*old(generator)),
            line@,
        ),
        result is Ok ==> syntax_fed(*final(generator)) == syntax_fed(*old(generator))
            && lines_fed(*final(generator)) == lines_fed(*old(generator)).push(line@),
{
    generator.parse_html_for_line_which_includes_newline(line).map_err(|e| e.to_string())
}

/// Calls `ClassedHTMLGenerator::finalize`: the HTML of the lines fed.
#[verifier::external_body]
fn finish(generator: syntect::html::ClassedHTMLGenerator<'_>) -> (html: String)
    ensures
        html@ == classed(syntax_fed(generator), lines_fed(generator)),
{
    generator.finalize()
}

/// The lines of a text, each with the line break that ends it; the last
/// line may lack one.
pub open spec fn lines_of(code: Seq<char>) -> Seq<Seq<char>>
    decreases code.len(),
{
    if code.len() == 0 {
        Seq::empty()
    } else if code.len() >= 2 && code[code.len() - 2] != '\n' {
        let before = lines_of(code.drop_last());
        before.drop_last().push(before.last().push(code.last()))
    } else {
        lines_of(code.drop_last()).push(seq![code.last()])
    }
}

/// The message of the first error among the first `n` lines, if one of them gives an error.
pub open spec fn first_line_error(syntax: nat, lines: Seq<Seq<char>>, n: int) -> Option<Seq<char>>
    decreases n,
{
    if n <= 0 {
        None
    } else {
        match first_line_error(syntax, lines, n - 1) {
            Some(message) => Some(message),
            None => line_error(syntax, lines.subrange(0, n - 1), lines[n - 1]),
        }
    }
}

/// What highlighting gives for a language token and a source text with the
/// syntaxes that `syntect` ships: nothing if no syntax answers to the
/// token; else the message of the first error that a line of the text
/// gives; else the HTML with classed spans of its lines.
pub open spec fn highlighted(language: Seq<char>, code: Seq<char>) -> Option<
    Result<Seq<char>, Seq<char>>,
> {
    match known_syntax(language) {
        None => None,
        Some(syntax) => {
            let lines = lines_of(code);
            match first_line_error(syntax, lines, lines.len() as int) {
                Some(message) => Some(Err(message)),
                None => Some(Ok(classed(syntax, lines))),
            }
        },
    }
}

/// An error among the first `k` lines is the first error of all.
pub proof fn lemma_line_error_persists(syntax: nat, lines: Seq<Seq<char>>, k: int, n: int)
    requires
        0 <= k <= n,
        first_line_error(syntax, lines, k) is Some,
    ensures
        first_line_error(syntax, lines, n) == first_line_error(syntax, lines, k),
    decreases n - k,
{
    if k < n {
        lemma_line_error_persists(syntax, lines, k, n - 1);
    }
}

/// The lines of a text, each with the line break that ends it.
pub fn lines_with_endings(code: &str) -> (lines: Vec<String>)
    ensures
        text_views(lines@) == lines_of(code@),
{
    let chars = chars_of(code);
    let n = chars.len();
    let mut lines: Vec<String> = Vec::new();
    let mut current = String::new();
    let mut in_line = false;
    let mut i: usize = 0;
    assert(text_views(lines@) =~= lines_of(chars@.subrange(0, 0)));
    while i < n
        invariant
            n == chars@.len(),
            i <= n,
            in_line == (i > 0 && chars@[i as int - 1] != '\n'),
            !in_line ==> current@.len() == 0,
            lines_of(chars@.subrange(0, i as int)) == if in_line {
                text_views(lines@).push(current@)
            } else {
                text_views(lines@)
            },
        decreases n - i,
    {
        let c = chars[i];
        let ghost before = lines_of(chars@.subrange(0, i as int));
        let ghost old_lines = lines@;
        let ghost old_current = current@;
        proof {
            let upto = chars@.subrange(0, i as int + 1);
            assert(upto.drop_last() =~= chars@.subrange(0, i as int));
            assert(upto.last() == c);
            if i > 0 {
                assert(upto[upto.len() - 2] == chars@[i as int - 1]);
            }
            if in_line {
                assert(before.drop_last() =~= text_views(old_lines));
                assert(before.last() == old_current);
            }
        }
        push_char(&mut current, c);
        assert(!in_line ==> current@ =~= seq![c]);
        if c == '\n' {
            lines.push(current);
            current = String::new();
            assert(text_views(lines@) =~= text_views(old_lines).push(old_current.push(c)));
            in_line = false;
        } else {
            in_line = true;
        }
        i += 1;
    }
    assert(chars@.subrange(0, n as int) =~= chars@);
    if in_line {
        let ghost old_lines = lines@;
        lines.push(current);
        assert(text_views(lines@) =~= text_views(old_lines).push(current@));
    }
    lines
}

/// Highlights with the syntaxes that `syntect` ships: looks the token up
/// and feeds the code line by line to a generator of classed HTML.
fn classed_html(language: &str, code: &str) -> (outcome: Option<Result<String, String>>)
    ensures
        outcome is Some <==> highlighted(language@, code@) is Some,
        outcome matches Some(Ok(html)) ==> highlighted(language@, code@) == Some(
            Ok::<Seq<char>, Seq<char>>(html@),
        ),
        outcome matches Some(Err(message)) ==> highlighted(language@, code@) == Some(
            Err::<Seq<char>, Seq<char>>(message@),
        ),
{
    let set = default_syntaxes();
    let syntax = match find_syntax(&set, language) {
        Some(syntax) => syntax,
        None => {
            return None;
        },
    };
    let ghost place = syntax_place(*syntax);
    let lines = lines_with_endings(code);
    let ghost all = text_views(lines@);
    let mut generator = new_generator(syntax, &set);
    let n = lines.len();
    let mut i: usize = 0;
    assert(all.subrange(0, 0) =~= Seq::<Seq<char>>::empty());
    while i < n
        invariant
            n == lines@.len(),
            i <= n,
            all == text_views(lines@),
            all == lines_of(code@),
            known_syntax(language@) == Some(place),
            syntax_fed(generator) == place,
            lines_fed(generator) == all.subrange(0, i as int),
            first_line_error(place, all, i as int) is None,
        decreases n - i,
    {
        assert(all[i as int] == lines@[i as int]@);
        match feed_line(&mut generator, lines[i].as_str()) {
            Ok(()) => {
                assert(all.subrange(0, i as int + 1) =~= all.subrange(0, i as int).push(
                    all[i as int],
                ));
            },
            Err(message) => {
                proof {
                    assert(first_line_error(place, all, i as int + 1) == Some(message@));
                    lemma_line_error_persists(place, all, i as int + 1, n as int);
                }
                return Some(Err(message));
            },
        }
        i += 1;
    }
    assert(all.subrange(0, n as int) =~= all);
    Some(Ok(finish(generator)))
}

/// Highlights code with the default syntaxes.
#[derive(Clone, Copy, Debug)]
pub struct Highlighter {}

impl Highlighter {
    /// A highlighter over the default syntaxes.
    pub fn default() -> Self {
        Self {  }
    }

    /// The HTML of the code in the syntax that answers to the language
    /// token. Without such a syntax the result is a highlight error that
    /// names the token.
    pub fn highlight(&self, language: &str, code: &str) -> (result: Result<String, Error>)
        ensures
            highlighted(language@, code@) matches Some(Ok(html)) ==> (result matches Ok(h) && h@
                == html),
            highlighted(language@, code@) matches Some(Err(message)) ==> (result matches Err(
                Error::Syntect(m),
            ) && m@ == message),
            highlighted(language@, code@) is None ==> (result matches Err(Error::Highlight(m))
                && m@ == "no syntax found for language "@ + language@),
    {
        match classed_html(language, code) {
            Some(Ok(html)) => Ok(html),
            Some(Err(message)) => Err(Error::Syntect(message)),
            None => Err(Error::Highlight(joined("no syntax found for language ", language))),
        }
    }
}

} // verus!
