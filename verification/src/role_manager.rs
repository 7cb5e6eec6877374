//! The role manager: which roles exist, and which address has which.
//!
//! Roles are names. A role has to be defined before it can be assigned,
//! and only an address with the role `admin` can define roles.

use vstd::prelude::*;
use vstd::string::*;
use crate::address::{Address, Id};
use crate::store::AddressMap;

verus! {

pub const ADMIN_ROLE: &'static str = "admin";

pub const CONTRIBUTOR_ROLE: &'static str = "contrib";

pub const REVIEWER_ROLE: &'static str = "review";

/// Why an operation on roles was refused.
#[derive(Clone, Copy, Debug, PartialEq, Eq, Structural)]
pub enum RoleError {
    /// The caller does not have the role `admin`.
    AdminRequired,
    /// The role is not defined.
    RoleNotDefined,
}

/// The names of a list of roles, in order.
pub open spec fn names_of(roles: Seq<String>) -> Seq<Seq<char>> {
    Seq::new(roles.len(), |i: int| roles[i]@)
}

/// The position of the first role of the list with the name `role`.
fn position(roles: &Vec<String>, role: &str) -> (found: Option<usize>)
    ensures
        match found {
            Some(i) => i < roles@.len() && names_of(roles@)[i as int] == role@ && !names_of(
                roles@,
            ).take(i as int).contains(role@),
            None => !names_of(roles@).contains(role@),
        },
{
    let wanted = String::from_str(role);
    let mut i: usize = 0;
    while i < roles.len()
        invariant
            i <= roles@.len(),
            wanted@ == role@,
            forall|j: int| 0 <= j < i ==> names_of(roles@)[j] != role@,
        decreases roles@.len() - i,
    {
        if roles[i] == wanted {
            return Some(i);
        }
        i += 1;
    }
    None
}

/// A copy of a list of roles.
fn copy_of(roles: &Vec<String>) -> (copy: Vec<String>)
    ensures
        copy@ == roles@,
{
    let mut copy: Vec<String> = Vec::new();
    let mut i: usize = 0;
    while i < roles.len()
        invariant
            i <= roles@.len(),
            copy@ == roles@.take(i as int),
        decreases roles@.len() - i,
    {
        copy.push(roles[i].clone());
        proof {
            assert(copy@ =~= roles@.take(i + 1));
        }
        i += 1;
    }
    proof {
        assert(copy@ =~= roles@);
    }
    copy
}

/// The state of the role manager.
pub struct RoleManagerContract {
    /// The roles that are defined, in the order in which they were.
    pub defined_roles: Vec<String>,
    /// The roles of each address that was ever given one.
    pub user_roles: AddressMap<Vec<String>>,
}

impl RoleManagerContract {
    /// No address is stored twice.
    pub open spec fn wf(&self) -> bool {
        self.user_roles.wf()
    }

    /// The names of the roles of `target`, in the order in which they were
    /// assigned.
    pub open spec fn roles_of(&self, target: Id) -> Seq<Seq<char>> {
        if self.user_roles@.contains_key(target) {
            names_of(self.user_roles@[target]@)
        } else {
            Seq::empty()
        }
    }

    /// The names of the roles that are defined.
    pub open spec fn defined(&self) -> Seq<Seq<char>> {
        names_of(self.defined_roles@)
    }

    /// Whether the roles of all addresses but `target` are in `other` what
    /// they are here.
    pub open spec fn same_but(&self, other: &RoleManagerContract, target: Id) -> bool {
        forall|x: Id| #![trigger other.roles_of(x)] x != target ==> other.roles_of(x) == self.roles_of(x)
    }

    /// The role manager before it is initialized: without roles.
    pub fn new() -> (contract: RoleManagerContract)
        ensures
            contract.wf(),
            contract.defined() == Seq::<Seq<char>>::empty(),
            forall|x: Id| contract.roles_of(x) == Seq::<Seq<char>>::empty(),
    {
        let contract = RoleManagerContract {
            defined_roles: Vec::new(),
            user_roles: AddressMap::new(),
        };
        proof {
            assert(contract.defined() =~= Seq::<Seq<char>>::empty());
        }
        contract
    }

    /// Defines the three default roles, `admin`, `contrib` and `review`,
    /// and gives all three to `admin`.
    pub fn initialize(&mut self, admin: &Address)
        requires
            old(self).wf(),
        ensures
            final(self).wf(),
            final(self).defined() == seq![ADMIN_ROLE@, CONTRIBUTOR_ROLE@, REVIEWER_ROLE@],
            final(self).roles_of(admin@) == seq![ADMIN_ROLE@, CONTRIBUTOR_ROLE@, REVIEWER_ROLE@],
            old(self).same_but(final(self), admin@),
    {
        let mut defined: Vec<String> = Vec::new();
        defined.push(String::from_str(ADMIN_ROLE));
        defined.push(String::from_str(CONTRIBUTOR_ROLE));
        defined.push(String::from_str(REVIEWER_ROLE));
        let given = copy_of(&defined);
        self.defined_roles = defined;
        self.user_roles.insert(admin.clone(), given);
        proof {
            assert(self.defined() =~= seq![ADMIN_ROLE@, CONTRIBUTOR_ROLE@, REVIEWER_ROLE@]);
            assert(self.roles_of(admin@) =~= seq![ADMIN_ROLE@, CONTRIBUTOR_ROLE@, REVIEWER_ROLE@]);
        }
    }

    /// Whether `target` has the role `role`.
    pub fn has_role(&self, target: &Address, role: &str) -> (has: bool)
        requires
            self.wf(),
        ensures
            has == self.roles_of(target@).contains(role@),
    {
        match self.user_roles.get(target) {
            Some(roles) => position(roles, role).is_some(),
            None => false,
        }
    }

    /// `AdminRequired` unless `caller` has the role `admin`.
    pub fn restrict_to_admin(&self, caller: &Address) -> (result: Result<(), RoleError>)
        requires
            self.wf(),
        ensures
            result == if self.roles_of(caller@).contains(ADMIN_ROLE@) {
                Ok::<(), RoleError>(())
            } else {
                Err::<(), RoleError>(RoleError::AdminRequired)
            },
    {
        if self.has_role(caller, ADMIN_ROLE) {
            Ok(())
        } else {
            Err(RoleError::AdminRequired)
        }
    }

    /// Defines the role `role`, unless it is defined already. Only an
    /// address with the role `admin` may. Returns whether the role is new.
    pub fn define_role(&mut self, caller: &Address, role: &str) -> (result: Result<bool, RoleError>)
        requires
            old(self).wf(),
        ensures
            final(self).wf(),
            final(self).user_roles == old(self).user_roles,
            !old(self).roles_of(caller@).contains(ADMIN_ROLE@) ==> result == Err::<bool, RoleError>(
                RoleError::AdminRequired,
            ) && *final(self) == *old(self),
            old(self).roles_of(caller@).contains(ADMIN_ROLE@) ==> result == Ok::<bool, RoleError>(
                !old(self).defined().contains(role@),
            ) && final(self).defined() == (if old(self).defined().contains(role@) {
                old(self).defined()
            } else {
                old(self).defined().push(role@)
            }),
    {
        match self.restrict_to_admin(caller) {
            Ok(()) => {},
            Err(reason) => {
                return Err(reason);
            },
        }
        match position(&self.defined_roles, role) {
            Some(_) => Ok(false),
            None => {
                let ghost before = self.defined();
                self.defined_roles.push(String::from_str(role));
                proof {
                    assert(self.defined() =~= before.push(role@));
                }
                Ok(true)
            },
        }
    }

    /// Gives `target` the role `role`, unless it has it already.
    /// `RoleNotDefined` when the role is not defined. Returns whether the
    /// role is new to `target`.
    pub fn assign_role(&mut self, target: &Address, role: &str) -> (result: Result<bool, RoleError>)
        requires
            old(self).wf(),
        ensures
            final(self).wf(),
            final(self).defined_roles == old(self).defined_roles,
            old(self).same_but(final(self), target@),
            !old(self).defined().contains(role@) ==> result == Err::<bool, RoleError>(
                RoleError::RoleNotDefined,
            ) && *final(self) == *old(self),
            old(self).defined().contains(role@) ==> result == Ok::<bool, RoleError>(
                !old(self).roles_of(target@).contains(role@),
            ) && final(self).roles_of(target@) == (if old(self).roles_of(target@).contains(role@) {
                old(self).roles_of(target@)
            } else {
                old(self).roles_of(target@).push(role@)
            }),
    {
        if position(&self.defined_roles, role).is_none() {
            return Err(RoleError::RoleNotDefined);
        }
        let ghost before = *self;
        let mut roles = match self.user_roles.get(target) {
            Some(stored) => {
                if position(stored, role).is_some() {
                    return Ok(false);
                }
                copy_of(stored)
            },
            None => Vec::new(),
        };
        proof {
            assert(names_of(roles@) =~= before.roles_of(target@));
        }
        roles.push(String::from_str(role));
        proof {
            assert(names_of(roles@) =~= before.roles_of(target@).push(role@));
        }
        self.user_roles.insert(target.clone(), roles);
        proof {
            assert forall|x: Id| #![trigger self.roles_of(x)] x != target@ implies self.roles_of(x)
                == before.roles_of(x) by {}
        }
        Ok(true)
    }

    /// Takes the role `role` from `target`, if it has it. Returns whether
    /// it had.
    pub fn revoke_role(&mut self, target: &Address, role: &str) -> (revoked: bool)
        requires
            old(self).wf(),
        ensures
            final(self).wf(),
            final(self).defined_roles == old(self).defined_roles,
            old(self).same_but(final(self), target@),
            revoked == old(self).roles_of(target@).contains(role@),
            !revoked ==> *final(self) == *old(self),
            revoked ==> final(self).roles_of(target@) == old(self).roles_of(target@).remove(
                old(self).roles_of(target@).index_of_first(role@)->0,
            ),
    {
        let ghost before = *self;
        let (mut roles, index) = match self.user_roles.get(target) {
            Some(stored) => match position(stored, role) {
                Some(index) => (copy_of(stored), index),
                None => {
                    return false;
                },
            },
            None => {
                return false;
            },
        };
        proof {
            let names = before.roles_of(target@);
            assert(names_of(roles@) =~= names);
            names.index_of_first_ensures(role@);
            let first = names.index_of_first(role@);
            assert(names[index as int] == role@);
            assert(names.contains(role@));
            assert(first is Some);
            if first->0 < index {
                assert(names.take(index as int)[first->0] == role@);
            }
            assert(first->0 == index);
        }
        roles.remove(index);
        proof {
            assert(names_of(roles@) =~= before.roles_of(target@).remove(index as int));
        }
        self.user_roles.insert(target.clone(), roles);
        proof {
            assert forall|x: Id| #![trigger self.roles_of(x)] x != target@ implies self.roles_of(x)
                == before.roles_of(x) by {}
        }
        true
    }

    /// The roles of `target`, in the order in which they were assigned.
    pub fn get_roles(&self, target: &Address) -> (roles: Vec<String>)
        requires
            self.wf(),
        ensures
            names_of(roles@) == self.roles_of(target@),
    {
        match self.user_roles.get(target) {
            Some(stored) => copy_of(stored),
            None => {
                let empty: Vec<String> = Vec::new();
                proof {
                    assert(names_of(empty@) =~= Seq::<Seq<char>>::empty());
                }
                empty
            },
        }
    }

    /// Whether `target` has one of the roles `roles`.
    pub fn has_any_role(&self, target: &Address, roles: &Vec<String>) -> (any: bool)
        requires
            self.wf(),
        ensures
            any == exists|i: int|
                0 <= i < roles@.len() && self.roles_of(target@).contains(
                    #[trigger] names_of(roles@)[i],
                ),
    {
        let mut i: usize = 0;
        while i < roles.len()
            invariant
                self.wf(),
                i <= roles@.len(),
                forall|j: int|
                    0 <= j < i ==> !self.roles_of(target@).contains(#[trigger] names_of(roles@)[j]),
            decreases roles@.len() - i,
        {
            if self.has_role(target, roles[i].as_str()) {
                proof {
                    assert(names_of(roles@)[i as int] == roles@[i as int]@);
                }
                return true;
            }
            i += 1;
        }
        false
    }

    /// The roles that are defined, in the order in which they were.
    pub fn get_defined_roles(&self) -> (roles: Vec<String>)
        ensures
            names_of(roles@) == self.defined(),
    {
        copy_of(&self.defined_roles)
    }
}

} // verus!
