//! The table of contents: the nesting of a document's headings, rebuilt from
//! their flat sequence.

use vstd::prelude::*;
use crate::md::headings::{headings_of, outlines, slug_of, slugify, Headings};
use crate::md::node::AstNode;

verus! {

/// An ordered list of entries, each with the nested entries below it.
#[derive(Debug, PartialEq, Eq)]
pub struct TableOfContents {
    pub entries: Vec<TocEntry>,
}

/// One heading in a table of contents, with the deeper headings that follow
/// it before the next heading at the same or a shallower level.
#[derive(Debug, PartialEq, Eq)]
pub struct TocEntry {
    pub level: u8,
    pub text: String,
    pub slug: String,
    pub children: TableOfContents,
}

/// The headings of a list of entries in document order: each entry, then
/// everything nested below it, then the next entry.
pub open spec fn outline_of(entries: Seq<TocEntry>) -> Seq<(u8, Seq<char>)>
    decreases entries,
{
    if entries.len() == 0 {
        Seq::empty()
    } else {
        outline_of(entries.drop_last()) + entry_outline(entries.last())
    }
}

/// The headings of one entry in document order: the entry itself, then its children.
pub open spec fn entry_outline(entry: TocEntry) -> Seq<(u8, Seq<char>)>
    decreases entry,
{
    seq![(entry.level, entry.text@)] + outline_of(entry.children.entries@)
}

/// Every entry is deeper than `floor`, carries the slug of its text, is no
/// deeper than the sibling before it, and its children are nested in the
/// same way below its own level.
pub open spec fn well_nested(entries: Seq<TocEntry>, floor: int) -> bool
    decreases entries,
{
    &&& forall|i: int| 0 <= i < entries.len() ==> {
        &&& (#[trigger] entries[i]).level > floor
        &&& entries[i].slug@ == slug_of(entries[i].text@)
        &&& well_nested(entries[i].children.entries@, entries[i].level as int)
    }
    &&& forall|i: int| 0 < i < entries.len() ==> (#[trigger] entries[i]).level <= entries[i - 1].level
}


/// The headings of an entry that is being folded away, if there is one.
pub open spec fn pending_outline(pending: Option<TocEntry>) -> Seq<(u8, Seq<char>)> {
    match pending {
        Some(entry) => entry_outline(entry),
        None => Seq::empty(),
    }
}

/// An entry that can stand in a table of contents below `floor`.
pub open spec fn entry_fits(entry: TocEntry, floor: int) -> bool {
    &&& entry.level > floor
    &&& entry.slug@ == slug_of(entry.text@)
    &&& well_nested(entry.children.entries@, entry.level as int)
}

/// `entry` may follow the last of `entries` as its next sibling.
pub open spec fn may_follow(entries: Seq<TocEntry>, entry: TocEntry) -> bool {
    entries.len() > 0 ==> entries.last().level >= entry.level
}

/// The outline of a list grows by the outline of an entry pushed onto it.
pub proof fn lemma_outline_push(entries: Seq<TocEntry>, entry: TocEntry)
    ensures
        outline_of(entries.push(entry)) == outline_of(entries) + entry_outline(entry),
{
    assert(entries.push(entry).drop_last() =~= entries);
}

/// A well nested list stays well nested when an entry that fits below the
/// same floor, and is no deeper than the last sibling, is pushed onto it.
pub proof fn lemma_well_nested_push(entries: Seq<TocEntry>, floor: int, entry: TocEntry)
    requires
        well_nested(entries, floor),
        entry_fits(entry, floor),
        may_follow(entries, entry),
    ensures
        well_nested(entries.push(entry), floor),
{
    let longer = entries.push(entry);
    assert forall|i: int| 0 <= i < longer.len() implies {
        &&& (#[trigger] longer[i]).level > floor
        &&& longer[i].slug@ == slug_of(longer[i].text@)
        &&& well_nested(longer[i].children.entries@, longer[i].level as int)
    } by {
        if i < entries.len() {
            assert(longer[i] == entries[i]);
        }
    }
    assert forall|i: int| 0 < i < longer.len() implies (#[trigger] longer[i]).level <= longer[i
        - 1].level by {
        if i < entries.len() {
            assert(longer[i] == entries[i]);
            assert(longer[i - 1] == entries[i - 1]);
        } else {
            assert(longer[i - 1] == entries.last());
        }
    }
}

impl TableOfContents {
    /// The table of contents of a document: its headings of level 2 or more,
    /// each nested below the nearest heading before it that is strictly
    /// shallower. No level is invented between a heading and a deeper one
    /// that skips levels.
    pub fn parse(document: &AstNode) -> (toc: Self)
        ensures
            toc.wf(),
            toc.outline() == headings_of(document.children@),
    {
        let mut builder = TocBuilder::new();
        let headings = Headings(document.children.as_slice()).collect();
        let n = headings.len();
        let mut i: usize = 0;
        let ghost all = headings_of(document.children@);
        proof {
            lemma_section_levels(document.children@, document.children@.len() as int);
            assert(all.subrange(0, 0) =~= Seq::<(u8, Seq<char>)>::empty());
        }
        while i < n
            invariant
                n == headings@.len(),
                i <= n,
                all == outlines(headings@),
                forall|k: int| 0 <= k < all.len() ==> (#[trigger] all[k]).0 >= 2,
                builder.wf(),
                builder.outline() == all.subrange(0, i as int),
            decreases n - i,
        {
            let heading = &headings[i];
            assert(all[i as int] == heading.outline());
            builder.push(heading.level, heading.text.clone());
            assert(all.subrange(0, i as int + 1) =~= all.subrange(0, i as int).push(
                all[i as int],
            ));
            i += 1;
        }
        assert(all.subrange(0, n as int) =~= all);
        builder.into_toc()
    }

    /// A table of contents without entries.
    pub fn empty() -> (toc: Self)
        ensures
            toc.entries@.len() == 0,
    {
        Self { entries: Vec::new() }
    }

    /// A table of contents with the given top-level entries.
    pub fn new(entries: Vec<TocEntry>) -> (toc: Self)
        ensures
            toc.entries == entries,
    {
        Self { entries }
    }

    /// The headings of the table in document order.
    pub open spec fn outline(&self) -> Seq<(u8, Seq<char>)> {
        outline_of(self.entries@)
    }

    /// No entry is a level-1 heading, every entry is strictly deeper than
    /// its parent and no deeper than the sibling before it, and each slug is
    /// the slug of its entry's text.
    pub open spec fn wf(&self) -> bool {
        well_nested(self.entries@, 1)
    }
}

impl TocEntry {
    /// An entry for a heading with the given nested entries; the slug is derived from the text.
    pub fn new(level: u8, text: &str, children: TableOfContents) -> (entry: Self)
        ensures
            entry.level == level,
            entry.text@ == text@,
            entry.slug@ == slug_of(text@),
            entry.children == children,
    {
        let slug = slugify(text);
        Self { level, text: text.to_owned(), slug, children }
    }
}

/// Builds a table of contents from headings pushed in document order. The
/// chain holds the entries that are still open, outermost first.
pub struct TocBuilder {
    pub top_level: TableOfContents,
    pub chain: Vec<TocEntry>,
}

/// The open entries are headings of level 2 or more with well nested
/// children, each strictly deeper than the one before it and no deeper than
/// the last child of the one before it.
pub open spec fn chain_ok(chain: Seq<TocEntry>) -> bool {
    &&& forall|i: int| 0 <= i < chain.len() ==> entry_fits(#[trigger] chain[i], 1)
    &&& forall|i: int| 0 < i < chain.len() ==> chain[i - 1].level < (#[trigger] chain[i]).level
    &&& forall|i: int|
        0 < i < chain.len() ==> may_follow(chain[i - 1].children.entries@, #[trigger] chain[i])
}

impl TocBuilder {
    /// The headings pushed so far, in the order in which they came.
    pub open spec fn outline(&self) -> Seq<(u8, Seq<char>)> {
        outline_of(self.top_level.entries@) + outline_of(self.chain@)
    }

    /// What holds of the parts of a builder at any time.
    pub open spec fn parts_ok(&self) -> bool {
        &&& well_nested(self.top_level.entries@, 1)
        &&& chain_ok(self.chain@)
        &&& self.chain@.len() > 0 ==> may_follow(self.top_level.entries@, self.chain@[0])
    }

    /// What holds of a builder between two headings: the innermost open
    /// entry has no children yet, and nothing is closed while nothing is open.
    pub open spec fn wf(&self) -> bool {
        &&& self.parts_ok()
        &&& self.chain@.len() > 0 ==> self.chain@.last().children.entries@.len() == 0
        &&& self.chain@.len() == 0 ==> self.top_level.entries@.len() == 0
    }

    /// Every open entry is shallower than `level`, and an entry of that level
    /// may follow whatever was closed last.
    pub open spec fn ready_for(&self, level: u8) -> bool {
        &&& self.parts_ok()
        &&& forall|i: int| 0 <= i < self.chain@.len() ==> (#[trigger] self.chain@[i]).level < level
        &&& self.chain@.len() > 0 ==> (self.chain@.last().children.entries@.len() > 0
            ==> self.chain@.last().children.entries@.last().level >= level)
        &&& self.chain@.len() == 0 ==> (self.top_level.entries@.len() > 0
            ==> self.top_level.entries@.last().level >= level)
    }

    pub fn new() -> (builder: Self)
        ensures
            builder.wf(),
            builder.outline() == Seq::<(u8, Seq<char>)>::empty(),
    {
        Self { top_level: TableOfContents { entries: Vec::new() }, chain: Vec::new() }
    }

    /// Closes every open entry and returns the finished table.
    pub fn into_toc(self) -> (toc: TableOfContents)
        requires
            self.wf(),
        ensures
            toc.wf(),
            toc.outline() == self.outline(),
    {
        let mut this = self;
        this.fold_until(1);
        assert(this.chain@.len() == 0) by {
            if this.chain@.len() > 0 {
                assert(entry_fits(this.chain@[0], 1));
            }
        }
        this.top_level
    }

    /// Closes the open entries that are not shallower than `level`: each is
    /// attached as the last child of the entry below it on the chain, the
    /// outermost of them to the top level if the chain runs out.
    #[verifier::rlimit(60)]
    pub fn fold_until(&mut self, level: u8)
        requires
            old(self).wf(),
        ensures
            final(self).ready_for(level),
            final(self).outline() == old(self).outline(),
    {
        let mut this: Option<TocEntry> = None;
        loop
            invariant
                old(self).wf(),
                self.top_level == old(self).top_level,
                self.chain@.len() <= old(self).chain@.len(),
                self.chain@ == old(self).chain@.subrange(0, self.chain@.len() as int),
                outline_of(self.chain@) + pending_outline(this) == outline_of(old(self).chain@),
                this is None ==> self.chain@ == old(self).chain@,
                this is Some ==> {
                    &&& entry_fits(this->0, 1)
                    &&& this->0.level >= level
                    &&& self.chain@.len() > 0 ==> {
                        &&& self.chain@.last().level < this->0.level
                        &&& may_follow(self.chain@.last().children.entries@, this->0)
                    }
                    &&& self.chain@.len() == 0 ==> may_follow(self.top_level.entries@, this->0)
                },
            decreases self.chain@.len(),
        {
            let ghost before = self.chain@;
            match self.chain.pop() {
                Some(mut next) => {
                    let ghost popped = next;
                    proof {
                        assert(before.drop_last() =~= self.chain@);
                        assert(popped == before.last());
                        assert(popped == old(self).chain@[before.len() - 1]);
                        assert(entry_fits(popped, 1));
                    }
                    if let Some(inner) = this {
                        proof {
                            lemma_outline_push(next.children.entries@, inner);
                            lemma_well_nested_push(
                                next.children.entries@,
                                next.level as int,
                                inner,
                            );
                        }
                        next.children.entries.push(inner);
                    }
                    proof {
                        assert(entry_outline(next) == entry_outline(popped) + pending_outline(
                            this,
                        ));
                        assert(outline_of(self.chain@) + entry_outline(next) == outline_of(
                            old(self).chain@,
                        )) by {
                            assert(outline_of(before) == outline_of(self.chain@) + entry_outline(
                                popped,
                            ));
                            assert((outline_of(self.chain@) + entry_outline(popped))
                                + pending_outline(this) =~= outline_of(self.chain@) + (
                            entry_outline(popped) + pending_outline(this)));
                        }
                        assert(entry_fits(next, 1));
                        if self.chain@.len() > 0 {
                            let k = self.chain@.len() as int;
                            assert(self.chain@.last() == old(self).chain@[k - 1]);
                            assert(popped == old(self).chain@[k]);
                        }
                    }
                    if next.level < level {
                        proof {
                            lemma_outline_push(self.chain@, next);
                            assert(outline_of(self.top_level.entries@) + (outline_of(self.chain@)
                                + entry_outline(next)) == old(self).outline());
                        }
                        let ghost shorter = self.chain@;
                        self.chain.push(next);
                        proof {
                            let chain = self.chain@;
                            assert forall|i: int| 0 <= i < chain.len() implies entry_fits(
                                #[trigger] chain[i],
                                1,
                            ) && chain[i].level < level by {
                                if i < shorter.len() {
                                    assert(chain[i] == old(self).chain@[i]);
                                    assert(chain[i].level <= popped.level) by {
                                        lemma_chain_levels(old(self).chain@, i, shorter.len() as int);
                                    }
                                }
                            }
                            assert forall|i: int| 0 < i < chain.len() implies chain[i - 1].level < (
                            #[trigger] chain[i]).level && may_follow(
                                chain[i - 1].children.entries@,
                                chain[i],
                            ) by {
                                assert(chain[i - 1] == old(self).chain@[i - 1]);
                                if i < shorter.len() {
                                    assert(chain[i] == old(self).chain@[i]);
                                } else {
                                    assert(old(self).chain@[i].level == next.level);
                                }
                            }
                            if shorter.len() > 0 {
                                assert(chain[0] == old(self).chain@[0]);
                            } else {
                                assert(old(self).chain@[0].level == chain[0].level);
                            }
                        }
                        return ;
                    } else {
                        this = Some(next);
                    }
                },
                None => {
                    proof {
                        assert(self.chain@.len() == 0);
                        assert(outline_of(self.chain@) =~= Seq::<(u8, Seq<char>)>::empty());
                    }
                    if let Some(inner) = this {
                        proof {
                            lemma_outline_push(self.top_level.entries@, inner);
                            lemma_well_nested_push(self.top_level.entries@, 1, inner);
                            assert(outline_of(self.top_level.entries@) + pending_outline(this)
                                == old(self).outline());
                        }
                        self.top_level.entries.push(inner);
                        proof {
                            assert(outline_of(self.top_level.entries@) + outline_of(self.chain@)
                                =~= outline_of(self.top_level.entries@));
                        }
                    } else {
                        assert(self.chain@ == old(self).chain@);
                    }
                    return ;
                },
            }
        }
    }

    /// Takes the next heading of the document; its level is 2 or more.
    pub fn push(&mut self, level: u8, text: String)
        requires
            old(self).wf(),
            level >= 2,
        ensures
            final(self).wf(),
            final(self).outline() == old(self).outline().push((level, text@)),
    {
        self.fold_until(level);
        let entry = TocEntry::new(level, text.as_str(), TableOfContents::empty());
        proof {
            lemma_outline_push(self.chain@, entry);
            assert(outline_of(entry.children.entries@) =~= Seq::<(u8, Seq<char>)>::empty());
            assert(entry_outline(entry) =~= seq![(level, text@)]);
            assert(outline_of(self.top_level.entries@) + (outline_of(self.chain@) + seq![
                (level, text@),
            ]) =~= (outline_of(self.top_level.entries@) + outline_of(self.chain@)).push(
                (level, text@),
            ));
        }
        let ghost shorter = self.chain@;
        self.chain.push(entry);
        proof {
            let chain = self.chain@;
            assert forall|i: int| 0 <= i < chain.len() implies entry_fits(#[trigger] chain[i], 1) by {
                if i < shorter.len() {
                    assert(chain[i] == shorter[i]);
                }
            }
            assert forall|i: int| 0 < i < chain.len() implies chain[i - 1].level < (
            #[trigger] chain[i]).level && may_follow(chain[i - 1].children.entries@, chain[i]) by {
                assert(chain[i - 1] == shorter[i - 1]);
                if i < shorter.len() {
                    assert(chain[i] == shorter[i]);
                }
            }
            if shorter.len() > 0 {
                assert(chain[0] == shorter[0]);
            }
        }
    }
}

/// Every section heading has level 2 or more.
pub proof fn lemma_section_levels(nodes: Seq<AstNode>, n: int)
    requires
        0 <= n <= nodes.len(),
    ensures
        forall|k: int|
            0 <= k < crate::md::headings::headings_upto(nodes, n).len() ==> (
            #[trigger] crate::md::headings::headings_upto(nodes, n)[k]).0 >= 2,
    decreases n,
{
    if n > 0 {
        lemma_section_levels(nodes, n - 1);
        let shorter = crate::md::headings::headings_upto(nodes, n - 1);
        let longer = crate::md::headings::headings_upto(nodes, n);
        assert forall|k: int| 0 <= k < longer.len() implies (#[trigger] longer[k]).0 >= 2 by {
            if k < shorter.len() {
                assert(longer[k] == shorter[k]);
            }
        }
    }
}

/// In a well nested list every entry is deeper than the floor, and each of
/// its children is strictly deeper than the entry itself.
pub proof fn nested_levels_increase(entries: Seq<TocEntry>, floor: int, i: int, j: int)
    requires
        well_nested(entries, floor),
        0 <= i < entries.len(),
        0 <= j < entries[i].children.entries@.len(),
    ensures
        entries[i].level > floor,
        entries[i].children.entries@[j].level > entries[i].level,
        well_nested(entries[i].children.entries@, entries[i].level as int),
{
    let children = entries[i].children.entries@;
    assert(entry_fits(entries[i], floor));
    assert(well_nested(children, entries[i].level as int));
    assert(children[j].level > entries[i].level);
}

/// Whether two entries are the same heading with the same entries below.
pub open spec fn same_entry(a: TocEntry, b: TocEntry) -> bool
    decreases a,
{
    &&& a.level == b.level
    &&& a.text@ == b.text@
    &&& a.slug@ == b.slug@
    &&& same_entries(a.children.entries@, b.children.entries@)
}

/// Whether two lists hold the same entries in the same order.
pub open spec fn same_entries(a: Seq<TocEntry>, b: Seq<TocEntry>) -> bool
    decreases a,
{
    &&& a.len() == b.len()
    &&& forall|i: int| 0 <= i < a.len() ==> same_entry(#[trigger] a[i], b[i])
}

/// A well nested list without its last entry is well nested.
pub proof fn lemma_well_nested_drop_last(entries: Seq<TocEntry>, floor: int)
    requires
        well_nested(entries, floor),
        entries.len() > 0,
    ensures
        well_nested(entries.drop_last(), floor),
{
    let shorter = entries.drop_last();
    assert forall|i: int| 0 <= i < shorter.len() implies entry_fits(#[trigger] shorter[i], floor) by {
        assert(shorter[i] == entries[i]);
    }
    assert forall|i: int| 0 < i < shorter.len() implies (#[trigger] shorter[i]).level <= shorter[i
        - 1].level by {
        assert(shorter[i] == entries[i]);
        assert(shorter[i - 1] == entries[i - 1]);
    }
}

/// The outline of a list that is not empty is the outline of all but its
/// last entry, then that entry, then the outline of what is nested below it.
pub proof fn lemma_outline_parts(entries: Seq<TocEntry>)
    requires
        entries.len() > 0,
    ensures
        outline_of(entries) == outline_of(entries.drop_last()) + (seq![
            (entries.last().level, entries.last().text@),
        ] + outline_of(entries.last().children.entries@)),
        outline_of(entries).len() == outline_of(entries.drop_last()).len() + 1 + outline_of(
            entries.last().children.entries@,
        ).len(),
{
    assert(outline_of(entries) == outline_of(entries.drop_last()) + entry_outline(entries.last()));
    assert(entry_outline(entries.last()) == seq![(entries.last().level, entries.last().text@)]
        + outline_of(entries.last().children.entries@));
}

/// Every heading in the outline of a well nested list is deeper than the floor.
pub proof fn lemma_outline_above_floor(entries: Seq<TocEntry>, floor: int, k: int)
    requires
        well_nested(entries, floor),
        0 <= k < outline_of(entries).len(),
    ensures
        outline_of(entries)[k].0 > floor,
    decreases entries,
{
    let last = entries.last();
    let before = outline_of(entries.drop_last());
    assert(entries.len() > 0);
    lemma_outline_parts(entries);
    assert(entry_fits(last, floor));
    if k < before.len() {
        lemma_well_nested_drop_last(entries, floor);
        lemma_outline_above_floor(entries.drop_last(), floor, k);
    } else if k > before.len() {
        lemma_outline_above_floor(last.children.entries@, last.level as int, k - before.len() - 1);
    }
}

/// No heading in the outline of a well nested list is shallower than the
/// last entry of the list.
pub proof fn lemma_outline_above_last(entries: Seq<TocEntry>, floor: int, k: int)
    requires
        well_nested(entries, floor),
        0 <= k < outline_of(entries).len(),
    ensures
        entries.len() > 0,
        outline_of(entries)[k].0 >= entries.last().level,
    decreases entries,
{
    let last = entries.last();
    let before = outline_of(entries.drop_last());
    assert(entries.len() > 0);
    lemma_outline_parts(entries);
    assert(entry_fits(last, floor));
    if k < before.len() {
        lemma_well_nested_drop_last(entries, floor);
        lemma_outline_above_last(entries.drop_last(), floor, k);
        assert(entries.drop_last().last() == entries[entries.len() - 2]);
        assert(entries[entries.len() - 1].level <= entries[entries.len() - 2].level);
    } else if k > before.len() {
        lemma_outline_above_floor(last.children.entries@, last.level as int, k - before.len() - 1);
    }
}

/// A sequence of headings has one table of contents only: two well nested
/// lists with the same outline hold the same entries.
pub proof fn toc_is_determined(a: Seq<TocEntry>, b: Seq<TocEntry>, floor: int)
    requires
        well_nested(a, floor),
        well_nested(b, floor),
        outline_of(a) == outline_of(b),
    ensures
        same_entries(a, b),
    decreases a,
{
    if a.len() == 0 || b.len() == 0 {
        if a.len() > 0 {
            lemma_outline_parts(a);
        }
        if b.len() > 0 {
            lemma_outline_parts(b);
        }
        assert(a.len() == 0 && b.len() == 0);
    } else {
        lemma_outline_parts(a);
        lemma_outline_parts(b);
        let x = a.last();
        let y = b.last();
        let before_a = outline_of(a.drop_last());
        let before_b = outline_of(b.drop_last());
        let below_x = outline_of(x.children.entries@);
        let below_y = outline_of(y.children.entries@);
        let all = outline_of(a);
        let pa = before_a.len() as int;
        let pb = before_b.len() as int;
        assert(entry_fits(x, floor));
        assert(entry_fits(y, floor));
        assert(all == before_a + (seq![(x.level, x.text@)] + below_x));
        assert(all == before_b + (seq![(y.level, y.text@)] + below_y));
        assert(all[pa] == (x.level, x.text@));
        assert(all[pb] == (y.level, y.text@));
        lemma_well_nested_drop_last(a, floor);
        lemma_well_nested_drop_last(b, floor);
        if pa < pb {
            assert(all[pb] == below_x[pb - pa - 1]);
            lemma_outline_above_floor(x.children.entries@, x.level as int, pb - pa - 1);
            assert(all[pa] == before_b[pa]);
            lemma_outline_above_last(b.drop_last(), floor, pa);
            assert(b.drop_last().last() == b[b.len() - 2]);
            assert(b[b.len() - 1].level <= b[b.len() - 2].level);
            assert(false);
        }
        if pb < pa {
            assert(all[pa] == below_y[pa - pb - 1]);
            lemma_outline_above_floor(y.children.entries@, y.level as int, pa - pb - 1);
            assert(all[pb] == before_a[pb]);
            lemma_outline_above_last(a.drop_last(), floor, pb);
            assert(a.drop_last().last() == a[a.len() - 2]);
            assert(a[a.len() - 1].level <= a[a.len() - 2].level);
            assert(false);
        }
        assert(before_a =~= all.subrange(0, pa));
        assert(before_b =~= all.subrange(0, pb));
        assert(below_x =~= all.subrange(pa + 1, all.len() as int));
        assert(below_y =~= all.subrange(pb + 1, all.len() as int));
        toc_is_determined(a.drop_last(), b.drop_last(), floor);
        toc_is_determined(x.children.entries@, y.children.entries@, x.level as int);
        assert(same_entry(x, y));
        assert forall|i: int| 0 <= i < a.len() implies same_entry(#[trigger] a[i], b[i]) by {
            if i < a.len() - 1 {
                assert(a[i] == a.drop_last()[i]);
                assert(b[i] == b.drop_last()[i]);
            }
        }
    }
}

/// On a chain whose levels grow, an earlier entry is no deeper than a later one.
pub proof fn lemma_chain_levels(chain: Seq<TocEntry>, i: int, j: int)
    requires
        chain_ok(chain),
        0 <= i <= j < chain.len(),
    ensures
        chain[i].level <= chain[j].level,
    decreases j - i,
{
    if i < j {
        lemma_chain_levels(chain, i, j - 1);
        assert(chain[j - 1].level < chain[j].level);
    }
}

} // verus!
