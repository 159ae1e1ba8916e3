//! Admonitions: callout blocks and their kinds.

use vstd::prelude::*;
use crate::text::{chars_of, same_text};

verus! {

/// The kind of a callout.
#[derive(Clone, Copy, Debug, PartialEq, Eq, Structural)]
pub enum AdmonitionKind {
    Danger,
    Info,
    Success,
    Warning,
}

/// A callout block.
#[derive(Debug, PartialEq, Eq)]
pub struct Admonition {
    pub kind: AdmonitionKind,
}


/// The name of a kind.
pub open spec fn kind_name(kind: AdmonitionKind) -> Seq<char> {
    match kind {
        AdmonitionKind::Danger => "danger"@,
        AdmonitionKind::Info => "info"@,
        AdmonitionKind::Success => "success"@,
        AdmonitionKind::Warning => "warning"@,
    }
}

/// The kind that a name stands for; a name that is none of the four stands for `Info`.
pub open spec fn kind_named(name: Seq<char>) -> AdmonitionKind {
    if name == "danger"@ {
        AdmonitionKind::Danger
    } else if name == "success"@ {
        AdmonitionKind::Success
    } else if name == "warning"@ {
        AdmonitionKind::Warning
    } else {
        AdmonitionKind::Info
    }
}

impl AdmonitionKind {
    /// The kind of a callout that names none: `Info`.
    pub fn default() -> (kind: Self)
        ensures
            kind == AdmonitionKind::Info,
    {
        AdmonitionKind::Info
    }

    /// The kind that a name stands for: `danger`, `info`, `success` or
    /// `warning`; any other name stands for `Info`.
    pub fn from(s: &str) -> (kind: Self)
        ensures
            kind == kind_named(s@),
    {
        if same_text(s, "danger") {
            AdmonitionKind::Danger
        } else if same_text(s, "success") {
            AdmonitionKind::Success
        } else if same_text(s, "warning") {
            AdmonitionKind::Warning
        } else {
            AdmonitionKind::Info
        }
    }

    /// The name of the kind.
    pub fn to_string(&self) -> (name: String)
        ensures
            name@ == kind_name(*self),
    {
        match self {
            AdmonitionKind::Danger => "danger".to_owned(),
            AdmonitionKind::Info => "info".to_owned(),
            AdmonitionKind::Success => "success".to_owned(),
            AdmonitionKind::Warning => "warning".to_owned(),
        }
    }
}

/// Whether a line opens a callout: it begins with `::`, and the last line
/// of the block that holds it is `::` alone.
pub open spec fn opens_admonition(line: Seq<char>, last_line: Seq<char>) -> bool {
    &&& line.len() >= 2
    &&& line[0] == ':'
    &&& line[1] == ':'
    &&& last_line == seq![':', ':']
}

/// The rule that recognises callouts.
pub struct AdmonitionScanner;

impl AdmonitionScanner {
    /// Reads a line together with the last line of its block. A line that
    /// opens a callout gives one of kind `Info`; whatever follows `::` on
    /// the line is not read as a kind. Any other line gives nothing.
    pub fn run(line: &str, last_line: &str) -> (found: Option<Admonition>)
        ensures
            found is Some <==> opens_admonition(line@, last_line@),
            found matches Some(admonition) ==> admonition.kind == AdmonitionKind::Info,
    {
        let chars = chars_of(line);
        proof {
            reveal_strlit("::");
            assert("::"@ =~= seq![':', ':']);
        }
        if chars.len() >= 2 && chars[0] == ':' && chars[1] == ':' && same_text(last_line, "::") {
            Some(Admonition { kind: AdmonitionKind::Info })
        } else {
            None
        }
    }
}

/// Reading the name of a kind gives the kind back.
pub proof fn kind_name_round_trip(kind: AdmonitionKind)
    ensures
        kind_named(kind_name(kind)) == kind,
{
    reveal_strlit("danger");
    reveal_strlit("info");
    reveal_strlit("success");
    reveal_strlit("warning");
    assert("danger"@[0] == 'd');
    assert("info"@[0] == 'i');
    assert("success"@[0] == 's');
    assert("warning"@[0] == 'w');
}

} // verus!
