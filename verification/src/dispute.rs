//! Disputes between two members, and the arbitrators that volunteer for them.

use vstd::prelude::*;
use crate::address::{ids_of, lemma_ids_of_push, Address, Id};

verus! {

/// Whether a dispute is still open.
#[derive(Clone, Copy, Debug, PartialEq, Eq, Structural)]
pub enum DisputeStatus {
    Open,
    Resolved,
}

/// Why an operation on disputes was refused.
#[derive(Clone, Copy, Debug, PartialEq, Eq, Structural)]
pub enum DisputeError {
    AlreadyInitialized,
    NotInitialized,
    Unauthorized,
    DisputeNotFound,
    DisputeAlreadyResolved,
    SelfDispute,
    ConflictOfInterest,
    InvalidDescription,
    InvalidResolution,
    AlreadyVolunteered,
    UnauthorizedArbitrator,
    EmergencyMode,
}

/// A dispute of `plaintiff` against `defendant`.
#[derive(Debug, PartialEq, Eq)]
pub struct Dispute {
    pub id: u32,
    pub plaintiff: Address,
    pub defendant: Address,
    pub description: String,
    pub status: DisputeStatus,
    pub created_at: u64,
    pub arbitrators: Vec<Address>,
}

impl Dispute {
    /// Whether `address` is the plaintiff or the defendant.
    pub open spec fn spec_involves(&self, address: Id) -> bool {
        self.plaintiff@ == address || self.defendant@ == address
    }

    /// Whether `address` has volunteered as an arbitrator.
    pub open spec fn spec_has_arbitrator(&self, address: Id) -> bool {
        ids_of(self.arbitrators@).contains(address)
    }

    /// Why `arbitrator` cannot be added, if it cannot: it has volunteered
    /// already, it is a party of the dispute, or the dispute is resolved.
    /// The tests are made in this order.
    pub open spec fn add_refusal(&self, arbitrator: Id) -> Option<DisputeError> {
        if self.spec_has_arbitrator(arbitrator) {
            Some(DisputeError::AlreadyVolunteered)
        } else if self.spec_involves(arbitrator) {
            Some(DisputeError::ConflictOfInterest)
        } else if self.status != DisputeStatus::Open {
            Some(DisputeError::DisputeAlreadyResolved)
        } else {
            None
        }
    }

    /// A new, open dispute without arbitrators.
    pub fn new(
        id: u32,
        plaintiff: Address,
        defendant: Address,
        description: String,
        created_at: u64,
    ) -> (dispute: Dispute)
        ensures
            dispute.id == id,
            dispute.plaintiff == plaintiff,
            dispute.defendant == defendant,
            dispute.description == description,
            dispute.status == DisputeStatus::Open,
            dispute.created_at == created_at,
            dispute.arbitrators@ == Seq::<Address>::empty(),
    {
        Dispute {
            id,
            plaintiff,
            defendant,
            description,
            status: DisputeStatus::Open,
            created_at,
            arbitrators: Vec::new(),
        }
    }

    /// Whether the dispute is open.
    pub fn is_open(&self) -> (open: bool)
        ensures
            open == (self.status == DisputeStatus::Open),
    {
        match self.status {
            DisputeStatus::Open => true,
            DisputeStatus::Resolved => false,
        }
    }

    /// Whether the dispute is resolved.
    pub fn is_resolved(&self) -> (resolved: bool)
        ensures
            resolved == (self.status == DisputeStatus::Resolved),
    {
        match self.status {
            DisputeStatus::Open => false,
            DisputeStatus::Resolved => true,
        }
    }

    /// Whether `address` is the plaintiff or the defendant.
    pub fn involves_party(&self, address: &Address) -> (involved: bool)
        ensures
            involved == self.spec_involves(address@),
    {
        self.plaintiff == *address || self.defendant == *address
    }

    /// Whether `address` has volunteered as an arbitrator.
    pub fn has_arbitrator(&self, address: &Address) -> (found: bool)
        ensures
            found == self.spec_has_arbitrator(address@),
    {
        let mut i: usize = 0;
        while i < self.arbitrators.len()
            invariant
                i <= self.arbitrators@.len(),
                forall|j: int| 0 <= j < i ==> ids_of(self.arbitrators@)[j] != address@,
            decreases self.arbitrators@.len() - i,
        {
            if self.arbitrators[i] == *address {
                proof {
                    assert(ids_of(self.arbitrators@)[i as int] == address@);
                }
                return true;
            }
            i += 1;
        }
        false
    }

    /// The number of arbitrators that have volunteered.
    pub fn arbitrator_count(&self) -> (count: usize)
        ensures
            count == self.arbitrators@.len(),
    {
        self.arbitrators.len()
    }

    /// The dispute with `arbitrator` added at the end of its arbitrators.
    pub open spec fn with_arbitrator(&self, after: &Dispute, arbitrator: Address) -> bool {
        &&& after.arbitrators@ == self.arbitrators@.push(arbitrator)
        &&& after.id == self.id
        &&& after.plaintiff == self.plaintiff
        &&& after.defendant == self.defendant
        &&& after.description == self.description
        &&& after.status == self.status
        &&& after.created_at == self.created_at
    }

    /// The dispute marked as resolved, and otherwise unchanged.
    pub open spec fn resolved_into(&self, after: &Dispute) -> bool {
        &&& after.status == DisputeStatus::Resolved
        &&& after.arbitrators == self.arbitrators
        &&& after.id == self.id
        &&& after.plaintiff == self.plaintiff
        &&& after.defendant == self.defendant
        &&& after.description == self.description
        &&& after.created_at == self.created_at
    }

    /// Adds `arbitrator` to the dispute, unless it has volunteered already
    /// (`AlreadyVolunteered`), is a party (`ConflictOfInterest`) or the
    /// dispute is resolved (`DisputeAlreadyResolved`).
    pub fn add_arbitrator(&mut self, arbitrator: Address) -> (result: Result<(), DisputeError>)
        ensures
            match old(self).add_refusal(arbitrator@) {
                Some(reason) => result == Err::<(), DisputeError>(reason) && *final(self) == *old(self),
                None => result == Ok::<(), DisputeError>(()) && old(self).with_arbitrator(final(self), arbitrator),
            },
    {
        if self.has_arbitrator(&arbitrator) {
            return Err(DisputeError::AlreadyVolunteered);
        }
        if self.involves_party(&arbitrator) {
            return Err(DisputeError::ConflictOfInterest);
        }
        if !self.is_open() {
            return Err(DisputeError::DisputeAlreadyResolved);
        }
        self.arbitrators.push(arbitrator);
        Ok(())
    }

    /// Marks the dispute as resolved; `DisputeAlreadyResolved` when it is.
    pub fn resolve(&mut self) -> (result: Result<(), DisputeError>)
        ensures
            old(self).status == DisputeStatus::Resolved ==> result == Err::<(), DisputeError>(
                DisputeError::DisputeAlreadyResolved,
            ) && *final(self) == *old(self),
            old(self).status == DisputeStatus::Open ==> result == Ok::<(), DisputeError>(())
                && old(self).resolved_into(final(self)),
    {
        if !self.is_open() {
            return Err(DisputeError::DisputeAlreadyResolved);
        }
        self.status = DisputeStatus::Resolved;
        Ok(())
    }
}

/// After an arbitrator was added it has volunteered, and so has whoever had
/// before.
pub proof fn law_added_arbitrator_is_listed(before: Seq<Address>, arbitrator: Address, x: Id)
    ensures
        ids_of(before.push(arbitrator)).contains(x) <==> (x == arbitrator@ || ids_of(
            before,
        ).contains(x)),
{
    lemma_ids_of_push(before, arbitrator);
}

} // verus!
