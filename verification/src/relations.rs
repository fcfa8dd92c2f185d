//! Parent/child bookkeeping attached to each stored record.

use vstd::prelude::*;

use crate::key::ItemKey;

verus! {

/// The family ties of one stored record: an optional parent and any number
/// of children, all named by their keys.
#[derive(Debug)]
pub struct Relations {
    pub parent: Option<ItemKey>,
    pub children: Vec<ItemKey>,
}

impl Relations {
    /// Fresh ties: the given parent and no children yet.
    pub fn new(parent: Option<ItemKey>) -> (r: Self)
        ensures
            r.parent == parent,
            r.children@.len() == 0,
    {
        Relations { parent, children: Vec::new() }
    }
}

} // verus!
