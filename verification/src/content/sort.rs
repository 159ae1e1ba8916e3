//! The order of pages.

use vstd::prelude::*;
use vstd::seq_lib::to_multiset_insert;
use crate::content::page::{lemma_page_order_chains, sorts_before, text_before, text_less, Page};
use crate::content::title::WithTitle;

verus! {

/// The pages behind a list of references.
pub open spec fn page_values(pages: Seq<&Page>) -> Seq<Page> {
    pages.map_values(|p: &Page| *p)
}

/// The source path of each page of a list.
pub open spec fn page_paths(pages: Seq<Page>) -> Seq<Seq<char>> {
    pages.map_values(|p: Page| p.path@)
}

/// No page of the list has its place before one that stands earlier in it.
pub open spec fn in_order(pages: Seq<Page>) -> bool {
    forall|i: int, j: int|
        0 <= i < j < pages.len() ==> !sorts_before(#[trigger] pages[j], #[trigger] pages[i])
}

/// Where a page goes into a list that is in order: behind the last page
/// that it has no place before.
pub open spec fn place_of(pages: Seq<Page>, page: Page) -> int
    decreases pages.len(),
{
    if pages.len() > 0 && sorts_before(page, pages.last()) {
        place_of(pages.drop_last(), page)
    } else {
        pages.len() as int
    }
}

/// The pages of a list in order, pages that tie in the order of the list:
/// each page in turn goes to its place among those before it.
pub open spec fn ordered(pages: Seq<Page>) -> Seq<Page>
    decreases pages.len(),
{
    if pages.len() == 0 {
        Seq::empty()
    } else {
        let before = ordered(pages.drop_last());
        before.insert(place_of(before, pages.last()), pages.last())
    }
}

/// Whether the title of `a` comes later in the alphabet than that of `b`.
pub fn by_title<T: WithTitle>(a: &T, b: &T) -> (later: bool)
    ensures
        later == text_before(b.title_text(), a.title_text()),
{
    let title_a = a.title();
    let title_b = b.title();
    text_less(title_b.as_str(), title_a.as_str())
}

/// Of two texts at most one comes before the other.
pub proof fn lemma_text_before_asymmetric(a: Seq<char>, b: Seq<char>)
    requires
        text_before(a, b),
    ensures
        !text_before(b, a),
    decreases a.len(),
{
    if a.len() > 0 && b.len() > 0 && a[0] == b[0] {
        lemma_text_before_asymmetric(a.drop_first(), b.drop_first());
    }
}

/// Of two pages at most one has its place before the other.
pub proof fn lemma_sorts_before_asymmetric(a: Page, b: Page)
    requires
        sorts_before(a, b),
    ensures
        !sorts_before(b, a),
{
    if text_before(b.title@, a.title@) {
        lemma_text_before_asymmetric(b.title@, a.title@);
    }
}

/// The pages in order: the index page of the root first, then by order, a
/// page without one as if it had order 1; among pages of one rank, titles
/// later in the alphabet first. Pages that tie keep their places relative
/// to each other. The result holds the same pages as the list, each as
/// often as the list holds it.
pub fn sort_pages<'a>(pages: &Vec<&'a Page>) -> (sorted: Vec<&'a Page>)
    ensures
        sorted@.len() == pages@.len(),
        page_values(sorted@) == ordered(page_values(pages@)),
        in_order(page_values(sorted@)),
        page_values(sorted@).to_multiset() == page_values(pages@).to_multiset(),
        page_paths(page_values(sorted@)).to_multiset() == page_paths(
            page_values(pages@),
        ).to_multiset(),
{
    let mut sorted: Vec<&'a Page> = Vec::new();
    let n = pages.len();
    let mut i: usize = 0;
    assert(page_values(pages@.subrange(0, 0)) =~= page_values(sorted@));
    assert(page_paths(page_values(pages@.subrange(0, 0))) =~= page_paths(page_values(sorted@)));
    while i < n
        invariant
            n == pages@.len(),
            i <= n,
            sorted@.len() == i,
            page_values(sorted@) == ordered(page_values(pages@.subrange(0, i as int))),
            in_order(page_values(sorted@)),
            page_values(sorted@).to_multiset() == page_values(
                pages@.subrange(0, i as int),
            ).to_multiset(),
            page_paths(page_values(sorted@)).to_multiset() == page_paths(
                page_values(pages@.subrange(0, i as int)),
            ).to_multiset(),
        decreases n - i,
    {
        let page = pages[i];
        let mut j: usize = sorted.len();
        let ghost values = page_values(sorted@);
        assert(values.subrange(0, j as int) =~= values);
        while j > 0 && page.precedes(sorted[j - 1])
            invariant
                j <= sorted@.len(),
                values == page_values(sorted@),
                place_of(values, *page) == place_of(values.subrange(0, j as int), *page),
                forall|k: int| j <= k < sorted@.len() ==> sorts_before(*page, *#[trigger] sorted@[k]),
            decreases j,
        {
            assert(values.subrange(0, j as int).last() == *sorted@[j as int - 1]);
            assert(values.subrange(0, j as int).drop_last() =~= values.subrange(0, j as int - 1));
            j -= 1;
        }
        assert(place_of(values, *page) == j) by {
            if j > 0 {
                assert(values.subrange(0, j as int).last() == *sorted@[j as int - 1]);
            }
        }
        let ghost before = sorted@;
        sorted.insert(j, page);
        proof {
            let old_values = page_values(before);
            let new_values = page_values(sorted@);
            assert(new_values =~= old_values.insert(j as int, *page));
            assert(page_paths(new_values) =~= page_paths(old_values).insert(j as int, page.path@));
            to_multiset_insert(old_values, j as int, *page);
            to_multiset_insert(page_paths(old_values), j as int, page.path@);
            let upto = pages@.subrange(0, i as int + 1);
            assert(page_values(upto) =~= page_values(pages@.subrange(0, i as int)).push(*page));
            assert(page_values(upto).drop_last() =~= page_values(pages@.subrange(0, i as int)));
            assert(page_values(upto).last() == *page);
            assert(page_paths(page_values(upto)) =~= page_paths(
                page_values(pages@.subrange(0, i as int)),
            ).push(page.path@));
            vstd::seq_lib::to_multiset_build(page_values(pages@.subrange(0, i as int)), *page);
            vstd::seq_lib::to_multiset_build(
                page_paths(page_values(pages@.subrange(0, i as int))),
                page.path@,
            );
            assert forall|a: int, b: int| 0 <= a < b < new_values.len() implies !sorts_before(
                #[trigger] new_values[b],
                #[trigger] new_values[a],
            ) by {
                if b < j {
                    assert(new_values[a] == old_values[a] && new_values[b] == old_values[b]);
                } else if b == j {
                    assert(new_values[a] == old_values[a]);
                    assert(!sorts_before(*page, old_values[j as int - 1]));
                    if a < j - 1 {
                        assert(!sorts_before(old_values[j as int - 1], old_values[a]));
                        lemma_page_order_chains(old_values[a], old_values[j as int - 1], *page);
                    }
                } else if a == j {
                    assert(new_values[b] == old_values[b - 1]);
                    assert(sorts_before(*page, *before[b - 1]));
                    lemma_sorts_before_asymmetric(*page, old_values[b - 1]);
                } else if a < j {
                    assert(new_values[a] == old_values[a] && new_values[b] == old_values[b - 1]);
                } else {
                    assert(new_values[a] == old_values[a - 1] && new_values[b] == old_values[b
                        - 1]);
                }
            }
        }
        i += 1;
    }
    assert(pages@.subrange(0, n as int) =~= pages@);
    sorted
}

} // verus!
