//! The dispute resolution contract.
//!
//! Members raise disputes against each other, other members volunteer as
//! arbitrators, and one of the volunteers resolves the dispute. The
//! administrator can put the contract into emergency mode, which stops
//! every change but leaves the queries. Callers are authenticated by the
//! host before a mutating operation is invoked.

use vstd::prelude::*;
use crate::address::Address;
use crate::dispute::{Dispute, DisputeError, DisputeStatus};
use crate::resolution::{
    byte_len, resolution_text_acceptable, Resolution, MAX_DESCRIPTION_LENGTH,
    MAX_DISPUTES_PER_QUERY, MAX_RESOLUTION_LENGTH,
};

verus! {

/// The kinds of events that the contract gives rise to.
#[derive(Clone, Copy, Debug, PartialEq, Eq, Structural)]
pub enum EventType {
    DisputeRaised,
    ArbitratorVolunteered,
    DisputeResolved,
    ArbitratorRegistered,
    EmergencyStateChanged,
}

/// Whether a text is acceptable as the description of a dispute: not empty
/// and at most [`MAX_DESCRIPTION_LENGTH`] bytes long.
pub open spec fn description_acceptable(text: Seq<char>) -> bool {
    text.len() != 0 && byte_len(text) <= MAX_DESCRIPTION_LENGTH
}

/// The state of the dispute resolution contract.
pub struct DisputeResolutionContract {
    /// The administrator, once the contract is initialized.
    pub admin: Option<Address>,
    /// The member registry, once the contract is initialized.
    pub member_registry: Option<Address>,
    /// The treasury, once the contract is initialized.
    pub treasury: Option<Address>,
    /// The number of disputes raised so far; the last identifier given out.
    pub dispute_counter: u32,
    /// Whether the contract is in emergency mode.
    pub emergency: bool,
    /// The disputes; the one with identifier `i` stands at index `i - 1`.
    pub disputes: Vec<Dispute>,
    /// The resolution of each dispute that has one, at the same index.
    pub resolutions: Vec<Option<Resolution>>,
}

/// Checks the description of a dispute.
fn validate_dispute_description(description: &str) -> (result: Result<(), DisputeError>)
    ensures
        result == if description_acceptable(description@) {
            Ok::<(), DisputeError>(())
        } else {
            Err::<(), DisputeError>(DisputeError::InvalidDescription)
        },
{
    if description.is_empty() {
        return Err(DisputeError::InvalidDescription);
    }
    if description.len() > MAX_DESCRIPTION_LENGTH as usize {
        return Err(DisputeError::InvalidDescription);
    }
    Ok(())
}

/// Checks the text of a resolution.
fn validate_resolution_text_internal(text: &str) -> (result: Result<(), DisputeError>)
    ensures
        result == if resolution_text_acceptable(text@) {
            Ok::<(), DisputeError>(())
        } else {
            Err::<(), DisputeError>(DisputeError::InvalidResolution)
        },
{
    if text.is_empty() {
        return Err(DisputeError::InvalidResolution);
    }
    if text.len() > MAX_RESOLUTION_LENGTH as usize {
        return Err(DisputeError::InvalidResolution);
    }
    Ok(())
}

impl DisputeResolutionContract {
    /// The invariant of the contract: the three addresses are set together;
    /// before that there is no dispute and no emergency; the disputes are
    /// numbered from 1 in the order in which they stand; and a dispute has a
    /// resolution exactly when it is resolved.
    pub open spec fn wf(&self) -> bool {
        &&& self.admin is Some <==> self.member_registry is Some
        &&& self.admin is Some <==> self.treasury is Some
        &&& self.admin is None ==> self.dispute_counter == 0 && !self.emergency
        &&& self.disputes@.len() == self.dispute_counter
        &&& self.resolutions@.len() == self.dispute_counter
        &&& forall|i: int|
            0 <= i < self.disputes@.len() ==> (#[trigger] self.disputes@[i]).id == i + 1
        &&& forall|i: int|
            0 <= i < self.disputes@.len() ==> ((#[trigger] self.resolutions@[i]) is Some
                <==> self.disputes@[i].status == DisputeStatus::Resolved)
    }

    /// Whether a dispute with identifier `id` exists.
    pub open spec fn known(&self, id: u32) -> bool {
        1 <= id <= self.dispute_counter
    }

    /// The dispute with identifier `id`.
    pub open spec fn dispute(&self, id: u32) -> Dispute {
        self.disputes@[id - 1]
    }

    /// Whether the dispute with identifier `id` exists and is open.
    pub open spec fn is_open_id(&self, id: int) -> bool {
        1 <= id <= self.dispute_counter && self.disputes@[id - 1].status == DisputeStatus::Open
    }

    /// The identifiers of the open disputes from `from` up to, but not
    /// including, `to`, in ascending order.
    pub open spec fn open_between(&self, from: int, to: int) -> Seq<u32>
        decreases to - from,
    {
        if from >= to {
            Seq::empty()
        } else if self.is_open_id(to - 1) {
            self.open_between(from, to - 1).push((to - 1) as u32)
        } else {
            self.open_between(from, to - 1)
        }
    }

    /// The contract before it is initialized.
    pub fn new() -> (contract: DisputeResolutionContract)
        ensures
            contract.wf(),
            contract.admin is None,
            contract.dispute_counter == 0,
            !contract.emergency,
    {
        DisputeResolutionContract {
            admin: None,
            member_registry: None,
            treasury: None,
            dispute_counter: 0,
            emergency: false,
            disputes: Vec::new(),
            resolutions: Vec::new(),
        }
    }

    /// Sets the administrator and the two contracts that this one works
    /// with. `AlreadyInitialized` when that was done before.
    pub fn initialize(&mut self, admin: Address, member_registry: Address, treasury: Address) -> (result:
        Result<(), DisputeError>)
        requires
            old(self).wf(),
        ensures
            final(self).wf(),
            old(self).admin is Some ==> result == Err::<(), DisputeError>(
                DisputeError::AlreadyInitialized,
            ) && *final(self) == *old(self),
            old(self).admin is None ==> result == Ok::<(), DisputeError>(()) && final(self).admin
                == Some(admin) && final(self).member_registry == Some(member_registry) && final(
                self).treasury == Some(treasury) && final(self).dispute_counter == 0 && !final(
                self).emergency && final(self).disputes == old(self).disputes && final(
                self).resolutions == old(self).resolutions,
    {
        if self.admin.is_some() {
            return Err(DisputeError::AlreadyInitialized);
        }
        self.admin = Some(admin);
        self.member_registry = Some(member_registry);
        self.treasury = Some(treasury);
        self.dispute_counter = 0;
        self.emergency = false;
        Ok(())
    }

    /// Whether the contract is in emergency mode.
    pub fn is_emergency(&self) -> (emergency: bool)
        ensures
            emergency == self.emergency,
    {
        self.emergency
    }

    /// The number of disputes raised so far.
    pub fn get_total_disputes(&self) -> (total: u32)
        ensures
            total == self.dispute_counter,
    {
        self.dispute_counter
    }

    /// Refuses with `EmergencyMode` while the contract is in emergency mode.
    fn require_not_emergency(&self) -> (result: Result<(), DisputeError>)
        ensures
            result == if self.emergency {
                Err::<(), DisputeError>(DisputeError::EmergencyMode)
            } else {
                Ok::<(), DisputeError>(())
            },
    {
        if self.is_emergency() {
            return Err(DisputeError::EmergencyMode);
        }
        Ok(())
    }

    /// Checks that `address` is a member. Every address counts as one once
    /// the member registry is set; before that the answer is
    /// `NotInitialized`.
    fn verify_member(&self, address: &Address) -> (result: Result<(), DisputeError>)
        ensures
            result == if self.member_registry is Some {
                Ok::<(), DisputeError>(())
            } else {
                Err::<(), DisputeError>(DisputeError::NotInitialized)
            },
    {
        match &self.member_registry {
            Some(_) => Ok(()),
            None => Err(DisputeError::NotInitialized),
        }
    }

    /// The identifier that the next dispute gets.
    fn get_next_dispute_id(&self) -> (id: u32)
        requires
            self.dispute_counter < u32::MAX,
        ensures
            id == self.dispute_counter + 1,
    {
        self.dispute_counter + 1
    }

    /// Why a dispute of `plaintiff` against `defendant` cannot be raised, if
    /// it cannot. The tests are made in this order.
    pub open spec fn raise_refusal(&self, plaintiff: Address, defendant: Address, description: Seq<char>) -> Option<
        DisputeError,
    > {
        if self.emergency {
            Some(DisputeError::EmergencyMode)
        } else if !description_acceptable(description) {
            Some(DisputeError::InvalidDescription)
        } else if plaintiff@ == defendant@ {
            Some(DisputeError::SelfDispute)
        } else if self.member_registry is None {
            Some(DisputeError::NotInitialized)
        } else {
            None
        }
    }

    /// Raises a dispute of `plaintiff` against `defendant` at the time
    /// `now`, and returns its identifier: one more than the number of
    /// disputes before.
    pub fn raise_dispute(&mut self, plaintiff: &Address, defendant: &Address, description: &str, now: u64) -> (result:
        Result<u32, DisputeError>)
        requires
            old(self).wf(),
            old(self).dispute_counter < u32::MAX,
        ensures
            final(self).wf(),
            match old(self).raise_refusal(*plaintiff, *defendant, description@) {
                Some(reason) => result == Err::<u32, DisputeError>(reason) && *final(self) == *old(self),
                None => result == Ok::<u32, DisputeError>((old(self).dispute_counter + 1) as u32)
                    && final(self).dispute_counter == old(self).dispute_counter + 1
                    && final(self).disputes@.len() == old(self).disputes@.len() + 1
                    && final(self).disputes@.drop_last() == old(self).disputes@
                    && final(self).resolutions@ == old(self).resolutions@.push(None)
                    && final(self).admin == old(self).admin
                    && final(self).member_registry == old(self).member_registry
                    && final(self).treasury == old(self).treasury
                    && final(self).emergency == old(self).emergency
                    && ({
                        let raised = final(self).disputes@.last();
                        &&& raised.id == old(self).dispute_counter + 1
                        &&& raised.plaintiff == *plaintiff
                        &&& raised.defendant == *defendant
                        &&& raised.description@ == description@
                        &&& raised.status == DisputeStatus::Open
                        &&& raised.created_at == now
                        &&& raised.arbitrators@ == Seq::<Address>::empty()
                    }),
            },
    {
        match self.require_not_emergency() {
            Ok(()) => {},
            Err(reason) => {
                return Err(reason);
            },
        }
        match validate_dispute_description(description) {
            Ok(()) => {},
            Err(reason) => {
                return Err(reason);
            },
        }
        if *plaintiff == *defendant {
            return Err(DisputeError::SelfDispute);
        }
        match self.verify_member(plaintiff) {
            Ok(()) => {},
            Err(reason) => {
                return Err(reason);
            },
        }
        match self.verify_member(defendant) {
            Ok(()) => {},
            Err(reason) => {
                return Err(reason);
            },
        }
        let dispute_id = self.get_next_dispute_id();
        let dispute = Dispute::new(
            dispute_id,
            plaintiff.clone(),
            defendant.clone(),
            description.to_owned(),
            now,
        );
        let ghost before = *self;
        self.disputes.push(dispute);
        self.resolutions.push(None);
        self.dispute_counter = dispute_id;
        proof {
            assert(self.disputes@.drop_last() =~= before.disputes@);
        }
        Ok(dispute_id)
    }

    /// Why `arbitrator` cannot volunteer for the dispute `dispute_id`, if it
    /// cannot. The tests are made in this order.
    pub open spec fn volunteer_refusal(&self, arbitrator: Address, dispute_id: u32) -> Option<
        DisputeError,
    > {
        if self.emergency {
            Some(DisputeError::EmergencyMode)
        } else if self.member_registry is None {
            Some(DisputeError::NotInitialized)
        } else if !self.known(dispute_id) {
            Some(DisputeError::DisputeNotFound)
        } else if self.dispute(dispute_id).status != DisputeStatus::Open {
            Some(DisputeError::DisputeAlreadyResolved)
        } else if self.dispute(dispute_id).spec_involves(arbitrator@) {
            Some(DisputeError::ConflictOfInterest)
        } else if self.dispute(dispute_id).spec_has_arbitrator(arbitrator@) {
            Some(DisputeError::AlreadyVolunteered)
        } else {
            None
        }
    }

    /// Whether `after` is this state with the dispute `dispute_id` replaced
    /// by `dispute`, and nothing else changed but, where `resolution` is
    /// given, the resolution of that dispute.
    pub open spec fn with_dispute(&self, after: &DisputeResolutionContract, dispute_id: u32, resolution: Option<Resolution>) -> bool {
        &&& after.admin == self.admin
        &&& after.member_registry == self.member_registry
        &&& after.treasury == self.treasury
        &&& after.dispute_counter == self.dispute_counter
        &&& after.emergency == self.emergency
        &&& after.disputes@.len() == self.disputes@.len()
        &&& forall|i: int|
            0 <= i < self.disputes@.len() && i != dispute_id - 1 ==> #[trigger] after.disputes@[i]
                == self.disputes@[i]
        &&& after.resolutions@ == match resolution {
            Some(r) => self.resolutions@.update(dispute_id - 1, Some(r)),
            None => self.resolutions@,
        }
    }

    /// Lets `arbitrator` volunteer for the dispute `dispute_id`: it is
    /// added at the end of the dispute's arbitrators.
    pub fn volunteer_as_arbitrator(&mut self, arbitrator: &Address, dispute_id: u32) -> (result: Result<
        (),
        DisputeError,
    >)
        requires
            old(self).wf(),
        ensures
            final(self).wf(),
            match old(self).volunteer_refusal(*arbitrator, dispute_id) {
                Some(reason) => result == Err::<(), DisputeError>(reason) && *final(self) == *old(self),
                None => result == Ok::<(), DisputeError>(()) && old(self).with_dispute(
                    final(self),
                    dispute_id,
                    None,
                ) && old(self).dispute(dispute_id).with_arbitrator(
                    &final(self).dispute(dispute_id),
                    *arbitrator,
                ),
            },
    {
        match self.require_not_emergency() {
            Ok(()) => {},
            Err(reason) => {
                return Err(reason);
            },
        }
        match self.verify_member(arbitrator) {
            Ok(()) => {},
            Err(reason) => {
                return Err(reason);
            },
        }
        if dispute_id < 1 || dispute_id > self.dispute_counter {
            return Err(DisputeError::DisputeNotFound);
        }
        let index: usize = (dispute_id - 1) as usize;
        if !self.disputes[index].is_open() {
            return Err(DisputeError::DisputeAlreadyResolved);
        }
        if self.disputes[index].involves_party(arbitrator) {
            return Err(DisputeError::ConflictOfInterest);
        }
        if self.disputes[index].has_arbitrator(arbitrator) {
            return Err(DisputeError::AlreadyVolunteered);
        }
        let ghost before = *self;
        let mut dispute = self.disputes.remove(index);
        dispute.arbitrators.push(arbitrator.clone());
        self.disputes.insert(index, dispute);
        proof {
            assert(self.resolutions@ == before.resolutions@);
        }
        Ok(())
    }

    /// Why `arbitrator` cannot resolve the dispute `dispute_id` with the
    /// text `text`, if it cannot. The tests are made in this order.
    pub open spec fn resolve_refusal(&self, dispute_id: u32, arbitrator: Address, text: Seq<char>) -> Option<
        DisputeError,
    > {
        if self.emergency {
            Some(DisputeError::EmergencyMode)
        } else if !resolution_text_acceptable(text) {
            Some(DisputeError::InvalidResolution)
        } else if !self.known(dispute_id) {
            Some(DisputeError::DisputeNotFound)
        } else if self.dispute(dispute_id).status != DisputeStatus::Open {
            Some(DisputeError::DisputeAlreadyResolved)
        } else if !self.dispute(dispute_id).spec_has_arbitrator(arbitrator@) {
            Some(DisputeError::UnauthorizedArbitrator)
        } else {
            None
        }
    }

    /// Resolves the dispute `dispute_id` at the time `now`: the resolution
    /// of `arbitrator`, who must have volunteered for the dispute, is
    /// stored, and the dispute is marked as resolved.
    pub fn resolve_dispute(
        &mut self,
        dispute_id: u32,
        arbitrator: &Address,
        resolution_text: &str,
        penalty: Option<i128>,
        now: u64,
    ) -> (result: Result<(), DisputeError>)
        requires
            old(self).wf(),
        ensures
            final(self).wf(),
            match old(self).resolve_refusal(dispute_id, *arbitrator, resolution_text@) {
                Some(reason) => result == Err::<(), DisputeError>(reason) && *final(self) == *old(self),
                None => result == Ok::<(), DisputeError>(()) && old(self).dispute(
                    dispute_id,
                ).resolved_into(&final(self).dispute(dispute_id)) && final(self).admin == old(self).admin
                    && final(self).member_registry == old(self).member_registry
                    && final(self).treasury == old(self).treasury
                    && final(self).dispute_counter == old(self).dispute_counter
                    && final(self).emergency == old(self).emergency
                    && final(self).disputes@.len() == old(self).disputes@.len()
                    && final(self).resolutions@.len() == old(self).resolutions@.len()
                    && (forall|i: int|
                        0 <= i < old(self).disputes@.len() && i != dispute_id - 1 ==> #[trigger] final(self).disputes@[i]
                            == old(self).disputes@[i] && final(self).resolutions@[i] == old(self).resolutions@[i])
                    && ({
                        let stored = final(self).resolutions@[dispute_id - 1];
                        &&& stored is Some
                        &&& stored->0.arbitrator == *arbitrator
                        &&& stored->0.resolution_text@ == resolution_text@
                        &&& stored->0.penalty == penalty
                        &&& stored->0.resolved_at == now
                    }),
            },
    {
        match self.require_not_emergency() {
            Ok(()) => {},
            Err(reason) => {
                return Err(reason);
            },
        }
        match validate_resolution_text_internal(resolution_text) {
            Ok(()) => {},
            Err(reason) => {
                return Err(reason);
            },
        }
        if dispute_id < 1 || dispute_id > self.dispute_counter {
            return Err(DisputeError::DisputeNotFound);
        }
        let index: usize = (dispute_id - 1) as usize;
        if !self.disputes[index].is_open() {
            return Err(DisputeError::DisputeAlreadyResolved);
        }
        if !self.disputes[index].has_arbitrator(arbitrator) {
            return Err(DisputeError::UnauthorizedArbitrator);
        }
        let resolution = Resolution::new(
            arbitrator.clone(),
            resolution_text.to_owned(),
            penalty,
            now,
        );
        self.resolutions.set(index, Some(resolution));
        let mut dispute = self.disputes.remove(index);
        dispute.status = DisputeStatus::Resolved;
        self.disputes.insert(index, dispute);
        Ok(())
    }

    /// The dispute with identifier `dispute_id`, or `DisputeNotFound`.
    pub fn get_dispute(&self, dispute_id: u32) -> (result: Result<&Dispute, DisputeError>)
        requires
            self.wf(),
        ensures
            match result {
                Ok(dispute) => self.known(dispute_id) && *dispute == self.dispute(dispute_id),
                Err(reason) => !self.known(dispute_id) && reason == DisputeError::DisputeNotFound,
            },
    {
        if dispute_id < 1 || dispute_id > self.dispute_counter {
            return Err(DisputeError::DisputeNotFound);
        }
        Ok(&self.disputes[(dispute_id - 1) as usize])
    }

    /// The resolution of the dispute `dispute_id`; `DisputeNotFound` where
    /// the dispute does not exist or is not resolved.
    pub fn get_resolution(&self, dispute_id: u32) -> (result: Result<&Resolution, DisputeError>)
        requires
            self.wf(),
        ensures
            match result {
                Ok(resolution) => self.known(dispute_id) && self.resolutions@[dispute_id - 1]
                    == Some(*resolution),
                Err(reason) => reason == DisputeError::DisputeNotFound && (!self.known(dispute_id)
                    || self.resolutions@[dispute_id - 1] is None),
            },
    {
        if dispute_id < 1 || dispute_id > self.dispute_counter {
            return Err(DisputeError::DisputeNotFound);
        }
        match &self.resolutions[(dispute_id - 1) as usize] {
            Some(resolution) => Ok(resolution),
            None => Err(DisputeError::DisputeNotFound),
        }
    }

    /// The status of the dispute `dispute_id`, or `DisputeNotFound`.
    pub fn get_dispute_status(&self, dispute_id: u32) -> (result: Result<DisputeStatus, DisputeError>)
        requires
            self.wf(),
        ensures
            result == if self.known(dispute_id) {
                Ok::<DisputeStatus, DisputeError>(self.dispute(dispute_id).status)
            } else {
                Err::<DisputeStatus, DisputeError>(DisputeError::DisputeNotFound)
            },
    {
        if dispute_id < 1 || dispute_id > self.dispute_counter {
            return Err(DisputeError::DisputeNotFound);
        }
        Ok(self.disputes[(dispute_id - 1) as usize].status)
    }

    /// Open disputes are listed in ascending order, and a longer range lists
    /// at least what a shorter one lists.
    pub proof fn lemma_open_between(&self, from: int, mid: int, to: int)
        requires
            from <= mid <= to,
        ensures
            self.open_between(from, mid).len() <= self.open_between(from, to).len(),
            self.open_between(from, to).len() <= to - from,
            self.open_between(from, to).take(self.open_between(from, mid).len() as int)
                == self.open_between(from, mid),
        decreases to - mid,
    {
        if mid < to {
            self.lemma_open_between(from, mid, to - 1);
            assert(self.open_between(from, to).take(self.open_between(from, mid).len() as int)
                =~= self.open_between(from, mid));
        } else {
            self.lemma_open_len(from, to);
            assert(self.open_between(from, to).take(self.open_between(from, mid).len() as int)
                =~= self.open_between(from, mid));
        }
    }

    /// A range holds at most as many open disputes as it has identifiers.
    pub proof fn lemma_open_len(&self, from: int, to: int)
        requires
            from <= to,
        ensures
            self.open_between(from, to).len() <= to - from,
        decreases to - from,
    {
        if from < to {
            self.lemma_open_len(from, to - 1);
        }
    }

    /// The identifiers of the open disputes from `start` on, in ascending
    /// order: the first `limit` of them, and at most
    /// [`MAX_DISPUTES_PER_QUERY`].
    pub fn list_open_disputes(&self, start: u32, limit: u32) -> (open: Vec<u32>)
        requires
            self.wf(),
        ensures
            ({
                let all = self.open_between(start as int, self.dispute_counter + 1);
                let most = if limit > MAX_DISPUTES_PER_QUERY {
                    MAX_DISPUTES_PER_QUERY as int
                } else {
                    limit as int
                };
                open@ == if all.len() <= most {
                    all
                } else {
                    all.take(most)
                }
            }),
    {
        let mut open_disputes: Vec<u32> = Vec::new();
        let actual_limit: u32 = if limit > MAX_DISPUTES_PER_QUERY {
            MAX_DISPUTES_PER_QUERY
        } else {
            limit
        };
        let mut count: u32 = 0;
        let mut i: u64 = start as u64;
        let end: u64 = self.dispute_counter as u64 + 1;
        let ghost all = self.open_between(start as int, self.dispute_counter + 1);
        while i < end && count < actual_limit
            invariant
                self.wf(),
                end == self.dispute_counter + 1,
                start <= i,
                i <= end || i == start,
                count <= actual_limit <= MAX_DISPUTES_PER_QUERY,
                count == open_disputes@.len(),
                open_disputes@ == self.open_between(start as int, i as int),
                all == self.open_between(start as int, self.dispute_counter + 1),
            decreases end - i,
        {
            if i >= 1 && self.disputes[(i - 1) as usize].is_open() {
                open_disputes.push(i as u32);
                count += 1;
            }
            proof {
                assert(self.is_open_id(i as int) <==> (i >= 1 && self.disputes@[i - 1].status
                    == DisputeStatus::Open));
            }
            i += 1;
        }
        proof {
            if i < end {
                self.lemma_open_between(start as int, i as int, end as int);
            } else if i > end {
                assert(open_disputes@ =~= all);
            }
        }
        open_disputes
    }

    /// Why `caller` cannot set the emergency mode, if it cannot.
    pub open spec fn emergency_refusal(&self, caller: Address) -> Option<DisputeError> {
        if self.admin is None {
            Some(DisputeError::NotInitialized)
        } else if caller@ != self.admin->0@ {
            Some(DisputeError::Unauthorized)
        } else {
            None
        }
    }

    /// Switches the emergency mode on or off. Only the administrator may.
    pub fn set_emergency_state(&mut self, caller: &Address, emergency: bool) -> (result: Result<
        (),
        DisputeError,
    >)
        requires
            old(self).wf(),
        ensures
            final(self).wf(),
            match old(self).emergency_refusal(*caller) {
                Some(reason) => result == Err::<(), DisputeError>(reason) && *final(self) == *old(self),
                None => result == Ok::<(), DisputeError>(()) && final(self).emergency == emergency
                    && final(self).admin == old(self).admin
                    && final(self).member_registry == old(self).member_registry
                    && final(self).treasury == old(self).treasury
                    && final(self).dispute_counter == old(self).dispute_counter
                    && final(self).disputes == old(self).disputes
                    && final(self).resolutions == old(self).resolutions,
            },
    {
        let authorized = match &self.admin {
            None => {
                return Err(DisputeError::NotInitialized);
            },
            Some(admin) => *caller == *admin,
        };
        if !authorized {
            return Err(DisputeError::Unauthorized);
        }
        self.emergency = emergency;
        Ok(())
    }
}

} // verus!
