//! Front matter: what a page says of itself above its text.

use vstd::prelude::*;

verus! {

/// The front matter of a page: an optional title and an optional order.
/// An order of zero is not valid.
#[derive(Clone, Debug, PartialEq, Eq)]
pub struct FrontMatter {
    pub title: Option<String>,
    pub order: Option<usize>,
}

impl Default for FrontMatter {
    fn default() -> (front: Self)
        ensures
            front.title is None,
            front.order is None,
    {
        Self { title: None, order: None }
    }
}

impl FrontMatter {
    /// Whether the order, if there is one, is positive.
    pub open spec fn order_ok(&self) -> bool {
        self.order != Some(0usize)
    }

    /// A copy of the front matter.
    pub fn duplicate(&self) -> (copy: Self)
        ensures
            copy == *self,
    {
        let title = match &self.title {
            Some(t) => Some(t.clone()),
            None => None,
        };
        Self { title, order: self.order }
    }

    /// Whether the order, if there is one, is positive.
    pub fn has_valid_order(&self) -> (ok: bool)
        ensures
            ok == self.order_ok(),
    {
        match self.order {
            Some(order) => order != 0,
            None => true,
        }
    }
}

} // verus!
