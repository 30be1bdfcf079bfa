//! Council membership as the ledger runtime dispatches it: only the
//! decisions live here. Storage, origin checks and event delivery belong to
//! the host runtime, which calls through these functions, keeps the
//! returned state, and emits the returned event.

use vstd::prelude::*;

verus! {

/// An event for the host runtime to emit after a successful call.
#[derive(Clone, Copy, PartialEq, Eq, Structural, Debug)]
pub enum Event {
    /// An account joined the council.
    MemberAdded(u64),
    /// An account left the council.
    MemberRemoved(u64),
    /// The council met its size floor, with the member count.
    QuorumReached(u32),
}

/// Why a call changed nothing.
#[derive(Clone, Copy, PartialEq, Eq, Structural, Debug)]
pub enum GovernanceError {
    /// The account already sits on the council.
    AlreadyMember,
    /// The account does not sit on the council.
    NotMember,
    /// The council is below its size floor.
    QuorumNotMet,
}

/// The membership list without every occurrence of one account.
pub open spec fn without_member(members: Seq<u64>, who: u64) -> Seq<u64> {
    members.filter(|m: u64| m != who)
}

/// Whether a membership list holds an account.
fn contains_member(members: &Vec<u64>, who: u64) -> (r: bool)
    ensures
        r == members@.contains(who),
{
    let mut i: usize = 0;
    while i < members.len()
        invariant
            i <= members@.len(),
            forall|j: int| 0 <= j < i ==> members@[j] != who,
        decreases members@.len() - i,
    {
        if members[i] == who {
            return true;
        }
        i = i + 1;
    }
    false
}

/// The governance state the runtime stores: the council membership list and
/// the configured council size floor.
pub struct Pallet {
    /// The accounts on the council, in order of admission.
    pub members: Vec<u64>,
    /// The smallest council size that counts as a quorum.
    pub min_council_size: u32,
}

impl Pallet {
    /// Build the genesis state from an initial membership list.
    pub fn new(initial_members: Vec<u64>, min_council_size: u32) -> (r: Self)
        ensures
            r.members@ == initial_members@,
            r.min_council_size == min_council_size,
    {
        Pallet { members: initial_members, min_council_size }
    }

    /// Admit an account: appended exactly when not yet a member, rejected
    /// as `AlreadyMember` otherwise; no other state changes.
    pub fn add_member(&mut self, who: u64) -> (r: Result<Event, GovernanceError>)
        ensures
            old(self).members@.contains(who) ==> r == Err::<Event, GovernanceError>(GovernanceError::AlreadyMember)
                && final(self).members@ == old(self).members@,
            !old(self).members@.contains(who) ==> r == Ok::<Event, GovernanceError>(Event::MemberAdded(who))
                && final(self).members@ == old(self).members@.push(who),
            final(self).min_council_size == old(self).min_council_size,
    {
        if contains_member(&self.members, who) {
            Err(GovernanceError::AlreadyMember)
        } else {
            self.members.push(who);
            Ok(Event::MemberAdded(who))
        }
    }

    /// Expel an account: every occurrence removed, order of the others
    /// kept, exactly when a member; rejected as `NotMember` otherwise.
    pub fn remove_member(&mut self, who: u64) -> (r: Result<Event, GovernanceError>)
        ensures
            !old(self).members@.contains(who) ==> r == Err::<Event, GovernanceError>(GovernanceError::NotMember)
                && final(self).members@ == old(self).members@,
            old(self).members@.contains(who) ==> r == Ok::<Event, GovernanceError>(Event::MemberRemoved(who))
                && final(self).members@ == without_member(old(self).members@, who),
            final(self).min_council_size == old(self).min_council_size,
    {
        if !contains_member(&self.members, who) {
            return Err(GovernanceError::NotMember);
        }
        let ghost orig = self.members@;
        let mut kept: Vec<u64> = Vec::new();
        let mut i: usize = 0;
        while i < self.members.len()
            invariant
                i <= orig.len(),
                self.members@ == orig,
                kept@ == without_member(orig.take(i as int), who),
            decreases orig.len() - i,
        {
            let m = self.members[i];
            proof {
                reveal(Seq::filter);
                assert(orig.take(i + 1).drop_last() =~= orig.take(i as int));
                assert(orig.take(i + 1).last() == orig[i as int]);
            }
            if m != who {
                kept.push(m);
            }
            i = i + 1;
        }
        proof {
            assert(orig.take(orig.len() as int) =~= orig);
        }
        self.members = kept;
        Ok(Event::MemberRemoved(who))
    }

    /// Report a quorum: succeeds with the member count exactly when the
    /// council reaches its size floor.
    pub fn check_quorum(&self) -> (r: Result<Event, GovernanceError>)
        ensures
            r is Ok <==> self.members@.len() >= self.min_council_size as int,
            r matches Ok(ev) ==> ev == Event::QuorumReached(self.members@.len() as u32),
            r matches Err(e) ==> e == GovernanceError::QuorumNotMet,
    {
        let count = self.members.len();
        if count >= self.min_council_size as usize {
            Ok(Event::QuorumReached(#[verifier::truncate] (count as u32)))
        } else {
            Err(GovernanceError::QuorumNotMet)
        }
    }
}

/// The genesis configuration the runtime builds its initial storage from.
pub struct GenesisConfig {
    /// The accounts on the council at genesis.
    pub initial_members: Vec<u64>,
}

impl GenesisConfig {
    /// Build the genesis governance state under a council size floor.
    pub fn build(self, min_council_size: u32) -> (r: Pallet)
        ensures
            r.members@ == self.initial_members@,
            r.min_council_size == min_council_size,
    {
        Pallet { members: self.initial_members, min_council_size }
    }
}

} // verus!
