//! The member registry: who is a member, in which role, and with what
//! voting power.
//!
//! The administrator is named when the registry is initialized. The
//! administrator and every member can register new members; only the
//! administrator can change the status or the role of a member. Callers
//! are authenticated by the host.

use vstd::prelude::*;
use vstd::string::*;
use crate::address::{Address, Id};
use crate::store::AddressMap;
use crate::text::same_text;

verus! {

/// Why an operation of a registry was refused.
#[derive(Clone, Copy, Debug, PartialEq, Eq, Structural)]
pub enum RegistryError {
    /// The registry was initialized before.
    AlreadyInitialized,
    /// The registry is not initialized.
    NotInitialized,
    /// The caller may not do this.
    Unauthorized,
    /// The address is a member already.
    AlreadyRegistered,
    /// The address is not a member.
    MemberNotFound,
}

/// A member of the organization.
#[derive(Debug, PartialEq, Eq)]
pub struct Member {
    pub address: Address,
    pub role: String,
    pub is_active: bool,
    pub voting_power: u32,
    pub joined_at: u64,
}

/// What happened to a member.
#[derive(Debug, PartialEq, Eq)]
pub enum MemberEvent {
    MemberRegistered(Address, String),
    RoleUpdated(Address, String),
    StatusChanged(Address, bool),
}

/// Whether `member` is the record described.
pub open spec fn is_record(
    member: Member,
    address: Id,
    role: Seq<char>,
    is_active: bool,
    voting_power: u32,
    joined_at: u64,
) -> bool {
    &&& member.address@ == address
    &&& member.role@ == role
    &&& member.is_active == is_active
    &&& member.voting_power == voting_power
    &&& member.joined_at == joined_at
}

/// The voting power that goes with a role: 3 for `admin`, 2 for
/// `moderator`, 1 for every other role.
pub open spec fn power_of_role(role: Seq<char>) -> u32 {
    if role == "admin"@ {
        3
    } else if role == "moderator"@ {
        2
    } else {
        1
    }
}

/// The voting power that goes with a role. See [`power_of_role`].
pub fn role_power(role: &str) -> (power: u32)
    ensures
        power == power_of_role(role@),
{
    if same_text(role, "admin") {
        3
    } else if same_text(role, "moderator") {
        2
    } else {
        1
    }
}

/// The state of the member registry.
pub struct MemberRegistryContract {
    /// The administrator, once the registry is initialized.
    pub admin: Option<Address>,
    /// The number of members registered since the registry was initialized.
    pub total_members: u32,
    /// The members.
    pub members: AddressMap<Member>,
}

impl MemberRegistryContract {
    /// No member is stored twice.
    pub open spec fn wf(&self) -> bool {
        self.members.wf()
    }

    /// Whether `address` is the administrator.
    pub open spec fn is_admin_id(&self, address: Id) -> bool {
        self.admin is Some && self.admin->0@ == address
    }

    /// Whether all members but `address` are in `other` what they are here.
    pub open spec fn same_but(&self, other: &MemberRegistryContract, address: Id) -> bool {
        &&& other.admin == self.admin
        &&& forall|x: Id|
            #![trigger other.members@.contains_key(x)]
            #![trigger self.members@.contains_key(x)]
            x != address ==> other.members@.contains_key(x) == self.members@.contains_key(x)
                && (self.members@.contains_key(x) ==> other.members@[x] == self.members@[x])
    }

    /// The registry before it is initialized.
    pub fn new() -> (contract: MemberRegistryContract)
        ensures
            contract.wf(),
            contract.admin is None,
            contract.total_members == 0,
            contract.members@ == Map::<Id, Member>::empty(),
    {
        MemberRegistryContract { admin: None, total_members: 0, members: AddressMap::new() }
    }

    /// Names the administrator, who has authenticated, and sets the number
    /// of members to zero.
    pub fn initialize(&mut self, admin: Address)
        ensures
            final(self).admin == Some(admin),
            final(self).total_members == 0,
            final(self).members == old(self).members,
    {
        self.admin = Some(admin);
        self.total_members = 0;
    }

    /// Whether `address` is the administrator; `NotInitialized` when there
    /// is none.
    pub fn is_admin(&self, address: &Address) -> (result: Result<bool, RegistryError>)
        ensures
            result == if self.admin is Some {
                Ok::<bool, RegistryError>(self.is_admin_id(address@))
            } else {
                Err::<bool, RegistryError>(RegistryError::NotInitialized)
            },
    {
        match &self.admin {
            Some(admin) => Ok(*admin == *address),
            None => Err(RegistryError::NotInitialized),
        }
    }

    /// Whether `address` is a member.
    pub fn is_member(&self, address: &Address) -> (member: bool)
        ensures
            member == self.members@.contains_key(address@),
    {
        self.members.contains_key(address)
    }

    /// Why `caller` cannot register `address`, if it cannot. The tests are
    /// made in this order.
    pub open spec fn register_refusal(&self, caller: Id, address: Id) -> Option<RegistryError> {
        if self.admin is None {
            Some(RegistryError::NotInitialized)
        } else if !self.is_admin_id(caller) && !self.members@.contains_key(caller) {
            Some(RegistryError::Unauthorized)
        } else if self.members@.contains_key(address) {
            Some(RegistryError::AlreadyRegistered)
        } else {
            None
        }
    }

    /// Registers `address` as an active member in the role `role`, with a
    /// voting power of 1, at the time `now`. The caller has to be the
    /// administrator or a member.
    pub fn register_member(&mut self, caller: &Address, address: &Address, role: &str, now: u64) -> (result:
        Result<(), RegistryError>)
        requires
            old(self).wf(),
            old(self).total_members < u32::MAX,
        ensures
            final(self).wf(),
            match old(self).register_refusal(caller@, address@) {
                Some(reason) => result == Err::<(), RegistryError>(reason) && *final(self) == *old(self),
                None => result == Ok::<(), RegistryError>(()) && final(self).total_members == old(
                    self).total_members + 1 && final(self).members@.contains_key(address@)
                    && is_record(final(self).members@[address@], address@, role@, true, 1, now)
                    && old(self).same_but(final(self), address@),
            },
    {
        let admin = match self.is_admin(caller) {
            Ok(admin) => admin,
            Err(reason) => {
                return Err(reason);
            },
        };
        if !admin && !self.is_member(caller) {
            return Err(RegistryError::Unauthorized);
        }
        if self.members.contains_key(address) {
            return Err(RegistryError::AlreadyRegistered);
        }
        let member = Member {
            address: address.clone(),
            role: String::from_str(role),
            is_active: true,
            voting_power: 1,
            joined_at: now,
        };
        self.members.insert(address.clone(), member);
        self.total_members = self.total_members + 1;
        Ok(())
    }

    /// Why `caller` cannot change the member `address`, if it cannot.
    pub open spec fn update_refusal(&self, caller: Id, address: Id) -> Option<RegistryError> {
        if self.admin is None {
            Some(RegistryError::NotInitialized)
        } else if !self.is_admin_id(caller) {
            Some(RegistryError::Unauthorized)
        } else if !self.members@.contains_key(address) {
            Some(RegistryError::MemberNotFound)
        } else {
            None
        }
    }

    /// Replaces the record of a member.
    fn store(&mut self, address: &Address, role: String, is_active: bool, voting_power: u32, joined_at: u64)
        requires
            old(self).wf(),
        ensures
            final(self).wf(),
            final(self).total_members == old(self).total_members,
            final(self).members@.contains_key(address@),
            is_record(
                final(self).members@[address@],
                address@,
                role@,
                is_active,
                voting_power,
                joined_at,
            ),
            old(self).same_but(final(self), address@),
    {
        self.members.insert(
            address.clone(),
            Member { address: address.clone(), role, is_active, voting_power, joined_at },
        );
    }

    /// Makes the member `address` active or inactive. Only the
    /// administrator may.
    pub fn update_status(&mut self, caller: &Address, address: &Address, status: bool) -> (result: Result<
        (),
        RegistryError,
    >)
        requires
            old(self).wf(),
        ensures
            final(self).wf(),
            match old(self).update_refusal(caller@, address@) {
                Some(reason) => result == Err::<(), RegistryError>(reason) && *final(self) == *old(self),
                None => {
                    let before = old(self).members@[address@];
                    &&& result == Ok::<(), RegistryError>(())
                    &&& final(self).total_members == old(self).total_members
                    &&& final(self).members@.contains_key(address@)
                    &&& is_record(
                        final(self).members@[address@],
                        address@,
                        before.role@,
                        status,
                        before.voting_power,
                        before.joined_at,
                    )
                    &&& old(self).same_but(final(self), address@)
                },
            },
    {
        let admin = match self.is_admin(caller) {
            Ok(admin) => admin,
            Err(reason) => {
                return Err(reason);
            },
        };
        if !admin {
            return Err(RegistryError::Unauthorized);
        }
        let (role, power, joined) = match self.members.get(address) {
            Some(member) => (member.role.clone(), member.voting_power, member.joined_at),
            None => {
                return Err(RegistryError::MemberNotFound);
            },
        };
        self.store(address, role, status, power, joined);
        Ok(())
    }

    /// Gives the member `address` the role `role`, and the voting power
    /// that goes with it. Only the administrator may.
    pub fn update_role(&mut self, caller: &Address, address: &Address, role: &str) -> (result: Result<
        (),
        RegistryError,
    >)
        requires
            old(self).wf(),
        ensures
            final(self).wf(),
            match old(self).update_refusal(caller@, address@) {
                Some(reason) => result == Err::<(), RegistryError>(reason) && *final(self) == *old(self),
                None => {
                    let before = old(self).members@[address@];
                    &&& result == Ok::<(), RegistryError>(())
                    &&& final(self).total_members == old(self).total_members
                    &&& final(self).members@.contains_key(address@)
                    &&& is_record(
                        final(self).members@[address@],
                        address@,
                        role@,
                        before.is_active,
                        power_of_role(role@),
                        before.joined_at,
                    )
                    &&& old(self).same_but(final(self), address@)
                },
            },
    {
        let admin = match self.is_admin(caller) {
            Ok(admin) => admin,
            Err(reason) => {
                return Err(reason);
            },
        };
        if !admin {
            return Err(RegistryError::Unauthorized);
        }
        let (active, joined) = match self.members.get(address) {
            Some(member) => (member.is_active, member.joined_at),
            None => {
                return Err(RegistryError::MemberNotFound);
            },
        };
        self.store(address, String::from_str(role), active, role_power(role), joined);
        Ok(())
    }

    /// The record of the member `address`, or `MemberNotFound`.
    pub fn get_member(&self, address: &Address) -> (result: Result<&Member, RegistryError>)
        requires
            self.wf(),
        ensures
            match result {
                Ok(member) => self.members@.contains_key(address@) && *member
                    == self.members@[address@],
                Err(reason) => !self.members@.contains_key(address@) && reason
                    == RegistryError::MemberNotFound,
            },
    {
        match self.members.get(address) {
            Some(member) => Ok(member),
            None => Err(RegistryError::MemberNotFound),
        }
    }

    /// The voting power of the member `address`: that of its record while
    /// it is active, and none while it is not.
    pub fn get_voting_power(&self, address: &Address) -> (result: Result<u32, RegistryError>)
        requires
            self.wf(),
        ensures
            result == if !self.members@.contains_key(address@) {
                Err::<u32, RegistryError>(RegistryError::MemberNotFound)
            } else if self.members@[address@].is_active {
                Ok::<u32, RegistryError>(self.members@[address@].voting_power)
            } else {
                Ok::<u32, RegistryError>(0)
            },
    {
        match self.members.get(address) {
            Some(member) => {
                if !member.is_active {
                    Ok(0)
                } else {
                    Ok(member.voting_power)
                }
            },
            None => Err(RegistryError::MemberNotFound),
        }
    }

    /// The number of members registered since the registry was initialized.
    pub fn get_total_members(&self) -> (total: u32)
        ensures
            total == self.total_members,
    {
        self.total_members
    }
}

} // verus!
