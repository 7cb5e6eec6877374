//! The member registry in which the administrator is a member.
//!
//! Initializing the registry registers the administrator as its first
//! member, in the role `admin`. Active members in the roles `admin` and
//! `member` can register new members; members in the role `admin` can
//! change the status and the role of a member.

use vstd::prelude::*;
use vstd::string::*;
use crate::address::{Address, Id};
use crate::member_registry::{is_record, Member, RegistryError};
use crate::store::AddressMap;
use crate::text::same_text;

verus! {

/// Announces a new member.
#[derive(Debug, PartialEq, Eq)]
pub struct MemberRegisteredEvent {
    pub member: Address,
    pub role: String,
    pub voting_power: u32,
}

/// Announces a new role of a member.
#[derive(Debug, PartialEq, Eq)]
pub struct RoleUpdatedEvent {
    pub member: Address,
    pub new_role: String,
}

/// Announces a new status of a member.
#[derive(Debug, PartialEq, Eq)]
pub struct StatusChangedEvent {
    pub member: Address,
    pub is_active: bool,
}

/// The voting power that goes with a role: 5 for `admin`, 1 for `member`,
/// none for every other role.
pub open spec fn power_for(role: Seq<char>) -> u32 {
    if role == "admin"@ {
        5
    } else if role == "member"@ {
        1
    } else {
        0
    }
}

/// The voting power that goes with a role. See [`power_for`].
pub fn calculate_voting_power(role: &str) -> (power: u32)
    ensures
        power == power_for(role@),
{
    if same_text(role, "admin") {
        5
    } else if same_text(role, "member") {
        1
    } else {
        0
    }
}

/// The state of the registry.
pub struct MemberRegistryContract {
    /// Whether the registry is initialized.
    pub initialized: bool,
    /// The number of members.
    pub total_members: u32,
    /// The members.
    pub members: AddressMap<Member>,
}

impl MemberRegistryContract {
    /// No member is stored twice.
    pub open spec fn wf(&self) -> bool {
        self.members.wf()
    }

    /// Whether `address` is a member in the role `admin`.
    pub open spec fn is_admin_member(&self, address: Id) -> bool {
        self.members@.contains_key(address) && self.members@[address].role@ == "admin"@
    }

    /// Whether `address` is an active member in the role `admin` or
    /// `member`.
    pub open spec fn may_register(&self, address: Id) -> bool {
        self.members@.contains_key(address) && self.members@[address].is_active && (
        self.members@[address].role@ == "admin"@ || self.members@[address].role@ == "member"@)
    }

    /// Whether all members but `address` are in `other` what they are here.
    pub open spec fn same_but(&self, other: &MemberRegistryContract, address: Id) -> bool {
        &&& other.initialized == self.initialized
        &&& forall|x: Id|
            #![trigger other.members@.contains_key(x)]
            #![trigger self.members@.contains_key(x)]
            x != address ==> other.members@.contains_key(x) == self.members@.contains_key(x)
                && (self.members@.contains_key(x) ==> other.members@[x] == self.members@[x])
    }

    /// The registry before it is initialized.
    pub fn new() -> (contract: MemberRegistryContract)
        ensures
            contract.wf(),
            !contract.initialized,
            contract.total_members == 0,
            contract.members@ == Map::<Id, Member>::empty(),
    {
        MemberRegistryContract { initialized: false, total_members: 0, members: AddressMap::new() }
    }

    /// Replaces the record of a member.
    fn store(&mut self, address: &Address, role: String, is_active: bool, voting_power: u32, joined_at: u64)
        requires
            old(self).wf(),
        ensures
            final(self).wf(),
            final(self).total_members == old(self).total_members,
            final(self).members@.contains_key(address@),
            is_record(
                final(self).members@[address@],
                address@,
                role@,
                is_active,
                voting_power,
                joined_at,
            ),
            old(self).same_but(final(self), address@),
    {
        self.members.insert(
            address.clone(),
            Member { address: address.clone(), role, is_active, voting_power, joined_at },
        );
    }

    /// Initializes the registry at the time `now`: `admin`, who has
    /// authenticated, becomes its first member, in the role `admin`.
    /// `AlreadyInitialized` when that was done before.
    pub fn initialize(&mut self, admin: &Address, now: u64) -> (result: Result<
        MemberRegisteredEvent,
        RegistryError,
    >)
        requires
            old(self).wf(),
        ensures
            final(self).wf(),
            match result {
                Err(reason) => old(self).initialized && reason == RegistryError::AlreadyInitialized
                    && *final(self) == *old(self),
                Ok(event) => !old(self).initialized && final(self).initialized && final(
                    self).total_members == 1 && final(self).members@.contains_key(admin@)
                    && is_record(final(self).members@[admin@], admin@, "admin"@, true, 5, now)
                    && (forall|x: Id|
                    #![trigger final(self).members@.contains_key(x)]
                    x != admin@ ==> final(self).members@.contains_key(x) == old(
                        self).members@.contains_key(x) && (old(self).members@.contains_key(x)
                        ==> final(self).members@[x] == old(self).members@[x])) && event.member
                    == *admin && event.role@ == "admin"@ && event.voting_power == 5,
            },
    {
        if self.initialized {
            return Err(RegistryError::AlreadyInitialized);
        }
        let power = calculate_voting_power("admin");
        self.store(admin, String::from_str("admin"), true, power, now);
        self.total_members = 1;
        self.initialized = true;
        Ok(
            MemberRegisteredEvent {
                member: admin.clone(),
                role: String::from_str("admin"),
                voting_power: power,
            },
        )
    }

    /// Why `caller` cannot register `address`, if it cannot. The tests are
    /// made in this order.
    pub open spec fn register_refusal(&self, caller: Id, address: Id) -> Option<RegistryError> {
        if !self.initialized {
            Some(RegistryError::NotInitialized)
        } else if !self.members@.contains_key(caller) {
            Some(RegistryError::MemberNotFound)
        } else if !self.may_register(caller) {
            Some(RegistryError::Unauthorized)
        } else if self.members@.contains_key(address) {
            Some(RegistryError::AlreadyRegistered)
        } else {
            None
        }
    }

    /// Registers `address` as an active member in the role `role`, with the
    /// voting power of that role, at the time `now`.
    pub fn register_member(&mut self, caller: &Address, address: &Address, role: &str, now: u64) -> (result:
        Result<MemberRegisteredEvent, RegistryError>)
        requires
            old(self).wf(),
            old(self).total_members < u32::MAX,
        ensures
            final(self).wf(),
            match old(self).register_refusal(caller@, address@) {
                Some(reason) => result == Err::<MemberRegisteredEvent, RegistryError>(reason)
                    && *final(self) == *old(self),
                None => result is Ok && result->Ok_0.member == *address && result->Ok_0.role@
                    == role@ && result->Ok_0.voting_power == power_for(role@) && final(
                    self).total_members == old(self).total_members + 1 && final(
                    self).members@.contains_key(address@) && is_record(
                    final(self).members@[address@],
                    address@,
                    role@,
                    true,
                    power_for(role@),
                    now,
                ) && old(self).same_but(final(self), address@),
            },
    {
        if !self.initialized {
            return Err(RegistryError::NotInitialized);
        }
        let allowed = match self.members.get(caller) {
            Some(member) => member.is_active && (same_text(member.role.as_str(), "admin")
                || same_text(member.role.as_str(), "member")),
            None => {
                return Err(RegistryError::MemberNotFound);
            },
        };
        if !allowed {
            return Err(RegistryError::Unauthorized);
        }
        if self.members.contains_key(address) {
            return Err(RegistryError::AlreadyRegistered);
        }
        let power = calculate_voting_power(role);
        self.store(address, String::from_str(role), true, power, now);
        self.total_members = self.total_members + 1;
        Ok(
            MemberRegisteredEvent {
                member: address.clone(),
                role: String::from_str(role),
                voting_power: power,
            },
        )
    }

    /// Why `caller` cannot change the member `address`, if it cannot.
    pub open spec fn update_refusal(&self, caller: Id, address: Id) -> Option<RegistryError> {
        if !self.members@.contains_key(caller) {
            Some(RegistryError::MemberNotFound)
        } else if !self.is_admin_member(caller) {
            Some(RegistryError::Unauthorized)
        } else if !self.members@.contains_key(address) {
            Some(RegistryError::MemberNotFound)
        } else {
            None
        }
    }

    /// Checks that `caller` may change members.
    fn require_admin_member(&self, caller: &Address) -> (result: Result<(), RegistryError>)
        requires
            self.wf(),
        ensures
            result == if !self.members@.contains_key(caller@) {
                Err::<(), RegistryError>(RegistryError::MemberNotFound)
            } else if !self.is_admin_member(caller@) {
                Err::<(), RegistryError>(RegistryError::Unauthorized)
            } else {
                Ok::<(), RegistryError>(())
            },
    {
        match self.members.get(caller) {
            Some(member) => {
                if same_text(member.role.as_str(), "admin") {
                    Ok(())
                } else {
                    Err(RegistryError::Unauthorized)
                }
            },
            None => Err(RegistryError::MemberNotFound),
        }
    }

    /// Makes the member `address` active or inactive. Only a member in the
    /// role `admin` may.
    pub fn update_status(&mut self, caller: &Address, address: &Address, status: bool) -> (result: Result<
        StatusChangedEvent,
        RegistryError,
    >)
        requires
            old(self).wf(),
        ensures
            final(self).wf(),
            match old(self).update_refusal(caller@, address@) {
                Some(reason) => result == Err::<StatusChangedEvent, RegistryError>(reason) && *final(
                    self) == *old(self),
                None => {
                    let before = old(self).members@[address@];
                    &&& result is Ok
                    &&& result->Ok_0.member == *address
                    &&& result->Ok_0.is_active == status
                    &&& final(self).total_members == old(self).total_members
                    &&& final(self).members@.contains_key(address@)
                    &&& is_record(
                        final(self).members@[address@],
                        address@,
                        before.role@,
                        status,
                        before.voting_power,
                        before.joined_at,
                    )
                    &&& old(self).same_but(final(self), address@)
                },
            },
    {
        match self.require_admin_member(caller) {
            Ok(()) => {},
            Err(reason) => {
                return Err(reason);
            },
        }
        let (role, power, joined) = match self.members.get(address) {
            Some(member) => (member.role.clone(), member.voting_power, member.joined_at),
            None => {
                return Err(RegistryError::MemberNotFound);
            },
        };
        self.store(address, role, status, power, joined);
        Ok(StatusChangedEvent { member: address.clone(), is_active: status })
    }

    /// Gives the member `address` the role `role`, and the voting power
    /// that goes with it. Only a member in the role `admin` may.
    pub fn update_role(&mut self, caller: &Address, address: &Address, role: &str) -> (result: Result<
        RoleUpdatedEvent,
        RegistryError,
    >)
        requires
            old(self).wf(),
        ensures
            final(self).wf(),
            match old(self).update_refusal(caller@, address@) {
                Some(reason) => result == Err::<RoleUpdatedEvent, RegistryError>(reason) && *final(
                    self) == *old(self),
                None => {
                    let before = old(self).members@[address@];
                    &&& result is Ok
                    &&& result->Ok_0.member == *address
                    &&& result->Ok_0.new_role@ == role@
                    &&& final(self).total_members == old(self).total_members
                    &&& final(self).members@.contains_key(address@)
                    &&& is_record(
                        final(self).members@[address@],
                        address@,
                        role@,
                        before.is_active,
                        power_for(role@),
                        before.joined_at,
                    )
                    &&& old(self).same_but(final(self), address@)
                },
            },
    {
        match self.require_admin_member(caller) {
            Ok(()) => {},
            Err(reason) => {
                return Err(reason);
            },
        }
        let (active, joined) = match self.members.get(address) {
            Some(member) => (member.is_active, member.joined_at),
            None => {
                return Err(RegistryError::MemberNotFound);
            },
        };
        self.store(address, String::from_str(role), active, calculate_voting_power(role), joined);
        Ok(RoleUpdatedEvent { member: address.clone(), new_role: String::from_str(role) })
    }

    /// The record of the member `address`, or `MemberNotFound`.
    pub fn get_member(&self, address: &Address) -> (result: Result<&Member, RegistryError>)
        requires
            self.wf(),
        ensures
            match result {
                Ok(member) => self.members@.contains_key(address@) && *member
                    == self.members@[address@],
                Err(reason) => !self.members@.contains_key(address@) && reason
                    == RegistryError::MemberNotFound,
            },
    {
        match self.members.get(address) {
            Some(member) => Ok(member),
            None => Err(RegistryError::MemberNotFound),
        }
    }

    /// The voting power of the member `address`, active or not.
    pub fn get_voting_power(&self, address: &Address) -> (result: Result<u32, RegistryError>)
        requires
            self.wf(),
        ensures
            result == if self.members@.contains_key(address@) {
                Ok::<u32, RegistryError>(self.members@[address@].voting_power)
            } else {
                Err::<u32, RegistryError>(RegistryError::MemberNotFound)
            },
    {
        match self.members.get(address) {
            Some(member) => Ok(member.voting_power),
            None => Err(RegistryError::MemberNotFound),
        }
    }

    /// The number of members.
    pub fn get_total_members(&self) -> (total: u32)
        ensures
            total == self.total_members,
    {
        self.total_members
    }
}

} // verus!
