//! Account lifecycle: a boolean activity flag, unrelated to any
//! cryptographic guarantee, kept by the account layer.

use vstd::prelude::*;

verus! {

/// An account as the account layer tracks it.
pub struct Account {
    /// Whether the account is live.
    pub active: bool,
}

impl Account {
    /// A new account starts out active.
    pub fn new() -> (r: Self)
        ensures
            r.active,
    {
        Account { active: true }
    }

    /// Deactivate the account; nothing else about it changes.
    pub fn deactivate(&mut self)
        ensures
            !final(self).active,
    {
        self.active = false;
    }
}

} // verus!
