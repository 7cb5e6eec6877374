//! The delegation contract: the delegation engine under an administrator.
//!
//! Whoever calls a mutating operation has to be authenticated first: the
//! delegator for `delegate_votes` and `undelegate`, the administrator for
//! `set_base_power`. The contract names the administrator; establishing who
//! the caller is lies with the host.

use vstd::prelude::*;
use crate::address::{ids_of, Address, Id};
use crate::delegation::{
    delegate_votes, get_delegate, get_delegators, has_delegation, undelegate, DelegationError,
    DelegationLedger,
};
use crate::graph::DelegationGraph;
use crate::power::{get_voting_power, set_base_power};

verus! {

/// A delegation: `delegator` has handed its votes to `delegate`.
#[derive(Clone, Debug, PartialEq, Eq)]
pub struct Delegation {
    pub delegator: Address,
    pub delegate: Address,
}

/// The effective voting power of a member.
#[derive(Clone, Debug, PartialEq, Eq)]
pub struct VotingPower {
    pub member: Address,
    pub total_power: i128,
}

/// The delegation contract. Its state is a [`DelegationLedger`] and the
/// address of the administrator.
pub struct DelegationContract {
    pub(crate) admin: Address,
    pub(crate) ledger: DelegationLedger,
}

impl View for DelegationContract {
    type V = DelegationGraph;

    open(crate) spec fn view(&self) -> DelegationGraph {
        self.ledger@
    }
}

impl DelegationContract {
    /// The invariant of the contract: that of its ledger.
    pub open(crate) spec fn wf(&self) -> bool {
        self.ledger.wf()
    }

    /// The administrator of the contract.
    pub open(crate) spec fn admin_id(&self) -> Id {
        self.admin@
    }

    /// The graph of a well-formed contract is well-formed.
    pub proof fn lemma_graph_wf(&self)
        requires
            self.wf(),
        ensures
            self@.wf(),
    {
        self.ledger.lemma_graph_wf();
    }

    /// A contract without any delegation, administered by `admin`.
    pub fn new(admin: Address) -> (contract: DelegationContract)
        ensures
            contract.wf(),
            contract@ == DelegationGraph::empty(),
            contract.admin_id() == admin@,
    {
        DelegationContract { admin, ledger: DelegationLedger::new() }
    }

    /// The administrator: the only member that may set base powers.
    pub fn admin(&self) -> (admin: &Address)
        ensures
            admin@ == self.admin_id(),
    {
        &self.admin
    }

    /// Lets `delegator`, the authenticated caller, delegate its votes to
    /// `delegate`. See [`delegate_votes`].
    pub fn delegate_votes(&mut self, delegator: &Address, delegate: &Address) -> (result: Result<
        (),
        DelegationError,
    >)
        requires
            old(self).wf(),
        ensures
            final(self).wf(),
            final(self).admin_id() == old(self).admin_id(),
            delegator@ == delegate@ ==> result == Err::<(), DelegationError>(
                DelegationError::SelfDelegation,
            ) && *final(self) == *old(self),
            delegator@ != delegate@ ==> result == Ok::<(), DelegationError>(()) && final(self)@
                == old(self)@.delegate_votes(delegator@, delegate@),
    {
        delegate_votes(&mut self.ledger, delegator, delegate)
    }

    /// Withdraws the delegation of `delegator`, the authenticated caller.
    /// See [`undelegate`].
    pub fn undelegate(&mut self, delegator: &Address) -> (result: Result<(), DelegationError>)
        requires
            old(self).wf(),
        ensures
            final(self).wf(),
            final(self).admin_id() == old(self).admin_id(),
            old(self)@.delegate_of(delegator@) is None ==> result == Err::<(), DelegationError>(
                DelegationError::NoDelegation,
            ) && *final(self) == *old(self),
            old(self)@.delegate_of(delegator@) is Some ==> result == Ok::<(), DelegationError>(
                (),
            ) && final(self)@ == old(self)@.undelegate(delegator@),
    {
        undelegate(&mut self.ledger, delegator)
    }

    /// The effective voting power of `member`. See [`get_voting_power`].
    pub fn get_voting_power(&self, member: &Address) -> (result: Result<i128, DelegationError>)
        requires
            self.wf(),
        ensures
            match result {
                Ok(power) => !self@.in_cycle(member@) && power == self@.voting_power(member@),
                Err(DelegationError::CircularDelegation) => self@.in_cycle(member@),
                Err(DelegationError::PowerOverflow) => !self@.in_cycle(member@)
                    && self@.voting_power(member@) > i128::MAX,
                Err(_) => false,
            },
    {
        get_voting_power(&self.ledger, member)
    }

    /// Sets the base power of `member`, on behalf of the administrator. See
    /// [`set_base_power`].
    pub fn set_base_power(&mut self, member: &Address, power: i128)
        requires
            old(self).wf(),
        ensures
            final(self).wf(),
            final(self).admin_id() == old(self).admin_id(),
            final(self)@ == old(self)@.set_base_power(member@, power),
    {
        set_base_power(&mut self.ledger, member, power)
    }

    /// The current delegate of `delegator`, if it has one.
    pub fn get_delegate(&self, delegator: &Address) -> (delegate: Option<Address>)
        requires
            self.wf(),
        ensures
            match delegate {
                Some(d) => self@.delegate_of(delegator@) == Some(d@),
                None => self@.delegate_of(delegator@) is None,
            },
    {
        get_delegate(&self.ledger, delegator)
    }

    /// The members that delegate to `delegate`. See [`get_delegators`].
    pub fn get_delegators(&self, delegate: &Address) -> (delegators: Vec<Address>)
        requires
            self.wf(),
        ensures
            ids_of(delegators@).no_duplicates(),
            forall|x: Id|
                ids_of(delegators@).contains(x) <==> self@.delegate_of(x) == Some(delegate@),
            ids_of(delegators@).to_set() == self@.delegators_of(delegate@),
    {
        get_delegators(&self.ledger, delegate)
    }

    /// The effective voting power of `member`, together with the member.
    pub fn get_voting_power_details(&self, member: &Address) -> (result: Result<
        VotingPower,
        DelegationError,
    >)
        requires
            self.wf(),
        ensures
            match result {
                Ok(details) => !self@.in_cycle(member@) && details.member@ == member@
                    && details.total_power == self@.voting_power(member@),
                Err(DelegationError::CircularDelegation) => self@.in_cycle(member@),
                Err(DelegationError::PowerOverflow) => !self@.in_cycle(member@)
                    && self@.voting_power(member@) > i128::MAX,
                Err(_) => false,
            },
    {
        match get_voting_power(&self.ledger, member) {
            Ok(total_power) => Ok(VotingPower { member: member.clone(), total_power }),
            Err(reason) => Err(reason),
        }
    }

    /// Whether `address` takes part in any delegation.
    pub fn has_delegation(&self, address: &Address) -> (involved: bool)
        requires
            self.wf(),
        ensures
            involved == self@.has_delegation(address@),
    {
        has_delegation(&self.ledger, address)
    }
}

} // verus!
