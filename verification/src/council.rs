//! Council size bookkeeping: the quorum rule over a plain member count.

use vstd::prelude::*;

verus! {

/// The smallest council that has a quorum.
pub const MIN_COUNCIL_MEMBERS: usize = 10;

/// A council, tracked by its member count.
pub struct Council {
    /// How many members sit on the council.
    pub members: usize,
}

impl Council {
    /// A council of the given size.
    pub fn new(members: usize) -> (r: Self)
        ensures
            r.members == members,
    {
        Council { members }
    }

    /// Whether the council reaches the quorum floor.
    pub fn has_quorum(&self) -> (r: bool)
        ensures
            r == (self.members >= MIN_COUNCIL_MEMBERS),
    {
        self.members >= MIN_COUNCIL_MEMBERS
    }
}

} // verus!
