//! Headings: the ATX heading line grammar, slugs, and the heading sequence of
//! a document.

use vstd::prelude::*;
use vstd::slice::slice_subrange;
use vstd::string::StringExecFns;
use crate::md::node::{joined_text, text_of, AstNode};
use crate::text::{chars_of, skip_trailing_char, text_between};

verus! {

/// The slug that `slug::slugify` derives from a text: lower case, runs of
/// other characters replaced by single hyphens, no hyphen at either edge.
pub uninterp spec fn slug_of(text: Seq<char>) -> Seq<char>;

/// Calls `slug::slugify`. The slug depends on the text alone, so the contract
/// names it; nothing else is claimed of it.
#[verifier::external_body]
pub(crate) fn slugify(text: &str) -> (slug: String)
    ensures
        slug@ == slug_of(text@),
{
    slug::slugify(text)
}

/// The value of a heading node: its level, from 1 to 6.
#[derive(Debug, PartialEq, Eq)]
pub struct FancyHeading {
    pub level: u8,
}

/// Whether a character is a space or a tab.
pub open spec fn is_blank(c: char) -> bool {
    c == ' ' || c == '\t'
}

/// The number of `#` characters at the start of a line.
pub open spec fn leading_hashes(line: Seq<char>) -> nat
    decreases line.len(),
{
    if line.len() > 0 && line[0] == '#' {
        1 + leading_hashes(line.drop_first())
    } else {
        0
    }
}

/// A text without the spaces and tabs at its end.
pub open spec fn skip_trailing_blank(s: Seq<char>) -> Seq<char>
    decreases s.len(),
{
    if s.len() > 0 && is_blank(s.last()) {
        skip_trailing_blank(s.drop_last())
    } else {
        s
    }
}

/// Whether a line is an ATX heading: it begins with one to six `#`
/// characters, and a space, a tab or the end of the line follows them.
pub open spec fn is_heading_line(line: Seq<char>) -> bool {
    let hashes = leading_hashes(line);
    &&& 1 <= hashes <= 6
    &&& hashes <= line.len()
    &&& (hashes == line.len() || is_blank(line[hashes as int]))
}

/// What follows the opening of a heading line once the blanks at the end
/// of the line, and the run of `#` before them, are cut off.
pub open spec fn heading_core(line: Seq<char>) -> Seq<char> {
    let hashes = leading_hashes(line) as int;
    if hashes < line.len() {
        skip_trailing_char(skip_trailing_blank(line.subrange(hashes + 1, line.len() as int)), '#')
    } else {
        Seq::empty()
    }
}

/// The inline content of a heading line, from the blank after the opening
/// `#` characters on. A closing run of `#` with the blanks after it is
/// cut off where a blank stands before it; where it follows the text
/// directly, the line is kept to its end; where nothing else is left,
/// the content is empty.
pub open spec fn heading_content(line: Seq<char>) -> Seq<char> {
    let hashes = leading_hashes(line) as int;
    let core = heading_core(line);
    if core.len() == 0 {
        Seq::empty()
    } else if is_blank(core.last()) {
        line.subrange(hashes, hashes + 1 + core.len())
    } else {
        line.subrange(hashes, line.len() as int)
    }
}

/// The rule that recognises ATX headings.
pub struct FancyHeadingsRule;

impl FancyHeadingsRule {
    /// Reads a line, taken from its first character that is no white
    /// space. A heading line gives its level, which is the number of its
    /// opening `#` characters, and its inline content; any other line,
    /// one with more than six `#` among them, gives nothing.
    pub fn run(line: &str) -> (found: Option<(FancyHeading, String)>)
        ensures
            found is Some <==> is_heading_line(line@),
            found matches Some((heading, content)) ==> {
                &&& heading.level == leading_hashes(line@)
                &&& 1 <= heading.level <= 6
                &&& content@ == heading_content(line@)
            },
    {
        let s = chars_of(line);
        let n = s.len();
        let mut i: usize = 0;
        assert(s@.subrange(0, n as int) =~= s@);
        while i < n && s[i] == '#'
            invariant
                n == s@.len(),
                i <= n,
                leading_hashes(s@) == i + leading_hashes(s@.subrange(i as int, n as int)),
            decreases n - i,
        {
            assert(s@.subrange(i as int, n as int).drop_first() =~= s@.subrange(
                i as int + 1,
                n as int,
            ));
            i += 1;
        }
        assert(leading_hashes(s@) == i) by {
            if i < n {
                assert(s@.subrange(i as int, n as int)[0] == s@[i as int]);
            }
        }
        if i == 0 || i > 6 {
            return None;
        }
        if i < n && !(s[i] == ' ' || s[i] == '\t') {
            return None;
        }
        let level: u8 = i as u8;
        if i == n {
            return Some((FancyHeading { level }, String::new()));
        }
        let ghost rest = s@.subrange(i as int + 1, n as int);
        let mut end: usize = n;
        while end > i + 1 && (s[end - 1] == ' ' || s[end - 1] == '\t')
            invariant
                i + 1 <= end <= n,
                n == s@.len(),
                skip_trailing_blank(s@.subrange(i as int + 1, end as int)) == skip_trailing_blank(
                    rest,
                ),
            decreases end,
        {
            assert(s@.subrange(i as int + 1, end as int).drop_last() =~= s@.subrange(
                i as int + 1,
                end as int - 1,
            ));
            end -= 1;
        }
        assert(skip_trailing_blank(rest) == s@.subrange(i as int + 1, end as int)) by {
            let cut = s@.subrange(i as int + 1, end as int);
            if cut.len() > 0 {
                assert(cut.last() == s@[end as int - 1]);
            }
        }
        let ghost trimmed_rest = s@.subrange(i as int + 1, end as int);
        let mut stop: usize = end;
        while stop > i + 1 && s[stop - 1] == '#'
            invariant
                i + 1 <= stop <= end <= n,
                n == s@.len(),
                skip_trailing_char(s@.subrange(i as int + 1, stop as int), '#')
                    == skip_trailing_char(trimmed_rest, '#'),
            decreases stop,
        {
            assert(s@.subrange(i as int + 1, stop as int).drop_last() =~= s@.subrange(
                i as int + 1,
                stop as int - 1,
            ));
            stop -= 1;
        }
        assert(heading_core(s@) == s@.subrange(i as int + 1, stop as int)) by {
            let cut = s@.subrange(i as int + 1, stop as int);
            if cut.len() > 0 {
                assert(cut.last() == s@[stop as int - 1]);
            }
        }
        let content = if stop == i + 1 {
            String::new()
        } else if s[stop - 1] == ' ' || s[stop - 1] == '\t' {
            assert(s@.subrange(i as int + 1, stop as int).last() == s@[stop as int - 1]);
            text_between(&s, i, stop)
        } else {
            assert(s@.subrange(i as int + 1, stop as int).last() == s@[stop as int - 1]);
            text_between(&s, i, n)
        };
        Some((FancyHeading { level }, content))
    }
}

/// The attributes of the tag of a section heading with the given slug.
pub open spec fn h_attrs_of(slug: Seq<char>) -> Seq<(Seq<char>, Seq<char>)> {
    seq![
        ("id"@, slug),
        ("x-data"@, "{ open: false }"@),
        ("@mouseover"@, "open = true"@),
        ("@mouseout"@, "open = false"@),
    ]
}

/// The attributes of the anchor link at the end of a section heading with the given slug.
pub open spec fn a_attrs_of(slug: Seq<char>) -> Seq<(Seq<char>, Seq<char>)> {
    seq![
        ("href"@, "#"@ + slug),
        ("x-show"@, "open"@),
        ("x-transition.duration.200ms"@, Seq::<char>::empty()),
        ("class"@, "ml-2 text-primary not-prose"@),
    ]
}

/// The names and values of a list of attributes.
pub open spec fn attr_pairs(attrs: Seq<(&'static str, String)>) -> Seq<(Seq<char>, Seq<char>)> {
    attrs.map_values(|a: (&'static str, String)| (a.0@, a.1@))
}

/// The attributes of the tag of a section heading: the slug as its id, and
/// what shows the anchor link while the pointer is over the heading.
pub fn h_attrs(slug: &str) -> (attrs: Vec<(&'static str, String)>)
    ensures
        attr_pairs(attrs@) == h_attrs_of(slug@),
{
    let mut attrs: Vec<(&'static str, String)> = Vec::new();
    attrs.push(("id", slug.to_owned()));
    attrs.push(("x-data", "{ open: false }".to_owned()));
    attrs.push(("@mouseover", "open = true".to_owned()));
    attrs.push(("@mouseout", "open = false".to_owned()));
    assert(attr_pairs(attrs@) =~= h_attrs_of(slug@));
    attrs
}

/// The attributes of the anchor link of a section heading: it points to
/// `#` and the slug.
pub fn a_attrs(slug: &str) -> (attrs: Vec<(&'static str, String)>)
    ensures
        attr_pairs(attrs@) == a_attrs_of(slug@),
{
    let mut attrs: Vec<(&'static str, String)> = Vec::new();
    attrs.push(("href", crate::text::joined("#", slug)));
    attrs.push(("x-show", "open".to_owned()));
    attrs.push(("x-transition.duration.200ms", String::new()));
    attrs.push(("class", "ml-2 text-primary not-prose".to_owned()));
    assert(attr_pairs(attrs@) =~= a_attrs_of(slug@));
    attrs
}

/// A heading of a document: its level, its plain text and the slug of that text.
#[derive(Clone, Debug, PartialEq, Eq)]
pub struct Heading {
    pub level: u8,
    pub text: String,
    pub slug: String,
}

impl Heading {
    pub fn new(level: u8, text: &str) -> (heading: Self)
        ensures
            heading.level == level,
            heading.text@ == text@,
            heading.slug@ == slug_of(text@),
    {
        let slug = slugify(text);
        Self { level, text: text.to_owned(), slug }
    }

    /// The level and text of the heading, as contracts speak of it.
    pub open spec fn outline(self) -> (u8, Seq<char>) {
        (self.level, self.text@)
    }
}


/// Whether a node is a heading below the page title: one of level 2 or more.
pub open spec fn is_section_heading(node: AstNode) -> bool {
    node.heading_level() matches Some(level) && level > 1
}

/// The level and text of each section heading among the first `n` nodes, in order.
pub open spec fn headings_upto(nodes: Seq<AstNode>, n: int) -> Seq<(u8, Seq<char>)>
    decreases n,
{
    if n <= 0 {
        Seq::empty()
    } else if is_section_heading(nodes[n - 1]) {
        headings_upto(nodes, n - 1).push((nodes[n - 1].heading_level()->0, text_of(nodes[n - 1])))
    } else {
        headings_upto(nodes, n - 1)
    }
}

/// The level and text of each section heading among the nodes, in order.
pub open spec fn headings_of(nodes: Seq<AstNode>) -> Seq<(u8, Seq<char>)> {
    headings_upto(nodes, nodes.len() as int)
}

/// The level and text of each heading of a list.
pub open spec fn outlines(headings: Seq<Heading>) -> Seq<(u8, Seq<char>)> {
    headings.map_values(|h: Heading| h.outline())
}

/// The first index from `from` on at which a heading of any level stands, or
/// the number of nodes if there is none.
pub open spec fn unit_end(nodes: Seq<AstNode>, from: int) -> int
    decreases nodes.len() - from,
{
    if from < 0 || from >= nodes.len() {
        nodes.len() as int
    } else if nodes[from].heading_level() is Some {
        from
    } else {
        unit_end(nodes, from + 1)
    }
}

/// The text that belongs to the heading at `idx`: that of the nodes after it
/// up to the next heading of any level, joined by single spaces.
pub open spec fn text_after(nodes: Seq<AstNode>, idx: int) -> Seq<char> {
    joined_text(nodes.subrange(idx + 1, unit_end(nodes, idx + 1)))
}

/// Each section heading among the first `n` nodes with the text that belongs to it.
pub open spec fn units_upto(nodes: Seq<AstNode>, n: int) -> Seq<((u8, Seq<char>), Seq<char>)>
    decreases n,
{
    if n <= 0 {
        Seq::empty()
    } else if is_section_heading(nodes[n - 1]) {
        units_upto(nodes, n - 1).push(
            (
                (nodes[n - 1].heading_level()->0, text_of(nodes[n - 1])),
                text_after(nodes, n - 1),
            ),
        )
    } else {
        units_upto(nodes, n - 1)
    }
}

/// The heading and the text of each unit of a list.
pub open spec fn unit_views(units: Seq<(Heading, String)>) -> Seq<((u8, Seq<char>), Seq<char>)> {
    units.map_values(|u: (Heading, String)| (u.0.outline(), u.1@))
}

/// There are as many units as section headings, whatever the nodes.
pub proof fn lemma_units_count(nodes: Seq<AstNode>, n: int)
    requires
        0 <= n <= nodes.len(),
    ensures
        units_upto(nodes, n).len() == headings_upto(nodes, n).len(),
        headings_upto(nodes, n).len() <= n,
    decreases n,
{
    if n > 0 {
        lemma_units_count(nodes, n - 1);
    }
}

/// The plain text of each node, joined by single spaces.
pub fn nodes_to_string(nodes: &[AstNode]) -> (text: String)
    ensures
        text@ == joined_text(nodes@),
{
    let mut out = String::new();
    let n = nodes.len();
    let mut i: usize = 0;
    assert(nodes@.subrange(0, 0) =~= Seq::<AstNode>::empty());
    while i < n
        invariant
            n == nodes@.len(),
            i <= n,
            out@ == joined_text(nodes@.subrange(0, i as int)),
        decreases n - i,
    {
        proof {
            let upto = nodes@.subrange(0, i as int + 1);
            assert(upto.drop_last() =~= nodes@.subrange(0, i as int));
            assert(upto.last() == nodes@[i as int]);
            assert(upto[0] == nodes@[0]);
            reveal_strlit(" ");
            assert(" "@ =~= seq![' ']);
        }
        if i > 0 {
            out.append(" ");
        } else {
            assert(Seq::<char>::empty() + text_of(nodes@[0]) =~= text_of(nodes@[0]));
        }
        nodes[i].collect_text_into(&mut out);
        i += 1;
    }
    assert(nodes@.subrange(0, n as int) =~= nodes@);
    out
}

/// The section headings among a list of nodes.
pub struct Headings<'a>(pub &'a [AstNode]);

impl<'a> Headings<'a> {
    /// Each heading of level 2 or more among the nodes, in order, with the
    /// plain text of its content and the slug of that text.
    pub fn collect(&self) -> (headings: Vec<Heading>)
        ensures
            outlines(headings@) == headings_of(self.0@),
            forall|i: int|
                0 <= i < headings@.len() ==> (#[trigger] headings@[i]).slug@ == slug_of(
                    headings@[i].text@,
                ),
    {
        let mut headings: Vec<Heading> = Vec::new();
        let n = self.0.len();
        let mut i: usize = 0;
        assert(outlines(headings@) =~= headings_upto(self.0@, 0));
        while i < n
            invariant
                n == self.0@.len(),
                i <= n,
                outlines(headings@) == headings_upto(self.0@, i as int),
                forall|k: int|
                    0 <= k < headings@.len() ==> (#[trigger] headings@[k]).slug@ == slug_of(
                        headings@[k].text@,
                    ),
            decreases n - i,
        {
            let node = &self.0[i];
            if let Some(level) = node.heading() {
                if level > 1 {
                    let text = node.collect_text();
                    let heading = Heading::new(level, text.as_str());
                    let ghost before = headings@;
                    headings.push(heading);
                    assert(outlines(headings@) =~= outlines(before).push(heading.outline()));
                }
            }
            i += 1;
        }
        headings
    }
}

/// The section headings among a list of nodes, each with its place in the list.
pub struct HeadingsWithIdx<'a>(pub &'a [AstNode]);

impl<'a> HeadingsWithIdx<'a> {
    /// Each heading of level 2 or more among the nodes, in order, after the
    /// index at which it stands.
    pub fn collect(&self) -> (headings: Vec<(usize, Heading)>)
        ensures
            headings@.map_values(|p: (usize, Heading)| p.1.outline()) == headings_of(self.0@),
            forall|k: int|
                0 <= k < headings@.len() ==> {
                    &&& (#[trigger] headings@[k]).0 < self.0@.len()
                    &&& is_section_heading(self.0@[headings@[k].0 as int])
                    &&& headings@[k].1.outline() == (
                        self.0@[headings@[k].0 as int].heading_level()->0,
                        text_of(self.0@[headings@[k].0 as int]),
                    )
                    &&& headings@[k].1.slug@ == slug_of(headings@[k].1.text@)
                },
            forall|j: int, k: int|
                0 <= j < k < headings@.len() ==> (#[trigger] headings@[j]).0 < (
                #[trigger] headings@[k]).0,
    {
        let mut headings: Vec<(usize, Heading)> = Vec::new();
        let n = self.0.len();
        let mut i: usize = 0;
        assert(headings@.map_values(|p: (usize, Heading)| p.1.outline()) =~= headings_upto(
            self.0@,
            0,
        ));
        while i < n
            invariant
                n == self.0@.len(),
                i <= n,
                headings@.map_values(|p: (usize, Heading)| p.1.outline()) == headings_upto(
                    self.0@,
                    i as int,
                ),
                forall|k: int|
                    0 <= k < headings@.len() ==> {
                        &&& (#[trigger] headings@[k]).0 < i
                        &&& is_section_heading(self.0@[headings@[k].0 as int])
                        &&& headings@[k].1.outline() == (
                            self.0@[headings@[k].0 as int].heading_level()->0,
                            text_of(self.0@[headings@[k].0 as int]),
                        )
                        &&& headings@[k].1.slug@ == slug_of(headings@[k].1.text@)
                    },
                forall|j: int, k: int|
                    0 <= j < k < headings@.len() ==> (#[trigger] headings@[j]).0 < (
                    #[trigger] headings@[k]).0,
            decreases n - i,
        {
            let node = &self.0[i];
            if let Some(level) = node.heading() {
                if level > 1 {
                    let text = node.collect_text();
                    let heading = Heading::new(level, text.as_str());
                    let ghost before = headings@;
                    headings.push((i, heading));
                    assert(headings@.map_values(|p: (usize, Heading)| p.1.outline())
                        =~= before.map_values(|p: (usize, Heading)| p.1.outline()).push(
                        heading.outline(),
                    ));
                }
            }
            i += 1;
        }
        headings
    }
}

/// The section headings among a list of nodes, each with the text that follows it.
pub struct HeadingsWithTextAfter<'a>(pub &'a [AstNode]);

impl<'a> HeadingsWithTextAfter<'a> {
    /// Each heading of level 2 or more among the nodes, in order, with the
    /// text of the nodes between it and the next heading of any level,
    /// joined by single spaces.
    pub fn collect(&self) -> (units: Vec<(Heading, String)>)
        ensures
            unit_views(units@) == units_upto(self.0@, self.0@.len() as int),
            forall|k: int|
                0 <= k < units@.len() ==> (#[trigger] units@[k]).0.slug@ == slug_of(
                    units@[k].0.text@,
                ),
    {
        let mut units: Vec<(Heading, String)> = Vec::new();
        let n = self.0.len();
        let mut i: usize = 0;
        assert(unit_views(units@) =~= units_upto(self.0@, 0));
        while i < n
            invariant
                n == self.0@.len(),
                i <= n,
                unit_views(units@) == units_upto(self.0@, i as int),
                forall|k: int|
                    0 <= k < units@.len() ==> (#[trigger] units@[k]).0.slug@ == slug_of(
                        units@[k].0.text@,
                    ),
            decreases n - i,
        {
            let node = &self.0[i];
            if let Some(level) = node.heading() {
                if level > 1 {
                    let text = node.collect_text();
                    let heading = Heading::new(level, text.as_str());
                    let mut end: usize = i + 1;
                    while end < n && self.0[end].heading().is_none()
                        invariant
                            n == self.0@.len(),
                            i < end <= n,
                            unit_end(self.0@, end as int) == unit_end(self.0@, i as int + 1),
                        decreases n - end,
                    {
                        end += 1;
                    }
                    let after = nodes_to_string(slice_subrange(self.0, i + 1, end));
                    let ghost before = units@;
                    units.push((heading, after));
                    assert(unit_views(units@) =~= unit_views(before).push(
                        (heading.outline(), after@),
                    ));
                }
            }
            i += 1;
        }
        units
    }
}

} // verus!
