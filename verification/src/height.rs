//! Heights on a remote chain: a revision number paired with a height
//! within that revision, totally ordered lexicographically.

use vstd::prelude::*;

verus! {

/// A point of a remote chain's history. A valid header update strictly
/// increases the height; a hard reset starts a new, larger revision.
#[derive(Clone, Copy, Debug, PartialEq, Eq, Structural)]
pub struct Height {
    pub revision_number: u64,
    pub revision_height: u64,
}

/// Lexicographic order on heights.
pub open spec fn height_lt(a: Height, b: Height) -> bool {
    a.revision_number < b.revision_number
        || (a.revision_number == b.revision_number && a.revision_height < b.revision_height)
}

impl Height {
    pub fn new(revision_number: u64, revision_height: u64) -> (r: Height)
        ensures
            r.revision_number == revision_number,
            r.revision_height == revision_height,
    {
        Height { revision_number, revision_height }
    }

    pub fn revision_number(&self) -> (r: u64)
        ensures
            r == self.revision_number,
    {
        self.revision_number
    }

    pub fn revision_height(&self) -> (r: u64)
        ensures
            r == self.revision_height,
    {
        self.revision_height
    }

    /// `true` exactly when `self` comes strictly before `other` in the
    /// lexicographic order on `(revision_number, revision_height)`.
    pub fn lt(&self, other: &Height) -> (r: bool)
        ensures
            r == height_lt(*self, *other),
    {
        self.revision_number < other.revision_number
            || (self.revision_number == other.revision_number
                && self.revision_height < other.revision_height)
    }
}

/// The lexicographic order on heights is a strict total order.
pub proof fn lemma_height_order_total(a: Height, b: Height, c: Height)
    ensures
        !height_lt(a, a),
        height_lt(a, b) && height_lt(b, c) ==> height_lt(a, c),
        a != b ==> height_lt(a, b) || height_lt(b, a),
{
}

} // verus!
