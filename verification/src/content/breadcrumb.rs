//! Breadcrumbs: the sections above a page.

use vstd::prelude::*;

verus! {

/// One section on the way from the root to a page: its path and its title.
#[derive(Clone, Debug, PartialEq, Eq)]
pub struct Link {
    pub path: String,
    pub title: String,
}

impl Link {
    pub fn new(path: &str, title: &str) -> (link: Self)
        ensures
            link.path@ == path@,
            link.title@ == title@,
    {
        Self { path: path.to_owned(), title: title.to_owned() }
    }

    /// The path and title of the link.
    pub open spec fn pair(self) -> (Seq<char>, Seq<char>) {
        (self.path@, self.title@)
    }
}

/// The path and title of each link of a list.
pub open spec fn link_pairs(links: Seq<Link>) -> Seq<(Seq<char>, Seq<char>)> {
    links.map_values(|l: Link| l.pair())
}

/// The path and title of each pair of a list.
pub open spec fn crumb_pairs(crumbs: Seq<(String, String)>) -> Seq<(Seq<char>, Seq<char>)> {
    crumbs.map_values(|c: (String, String)| (c.0@, c.1@))
}

/// The links for a list of paths and titles, in the same order.
pub fn links_of(crumbs: &Vec<(String, String)>) -> (links: Vec<Link>)
    ensures
        link_pairs(links@) == crumb_pairs(crumbs@),
{
    let mut links: Vec<Link> = Vec::new();
    let n = crumbs.len();
    let mut i: usize = 0;
    while i < n
        invariant
            n == crumbs@.len(),
            i <= n,
            link_pairs(links@) == crumb_pairs(crumbs@).subrange(0, i as int),
        decreases n - i,
    {
        let link = Link::new(crumbs[i].0.as_str(), crumbs[i].1.as_str());
        let ghost before = links@;
        links.push(link);
        assert(link_pairs(links@) =~= link_pairs(before).push(link.pair()));
        assert(crumb_pairs(crumbs@).subrange(0, i as int + 1) =~= crumb_pairs(crumbs@).subrange(
            0,
            i as int,
        ).push((crumbs@[i as int].0@, crumbs@[i as int].1@)));
        i += 1;
    }
    assert(crumb_pairs(crumbs@).subrange(0, n as int) =~= crumb_pairs(crumbs@));
    links
}

} // verus!
