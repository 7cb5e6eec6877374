//! The delegation graph as a mathematical object.
//!
//! A [`DelegationGraph`] holds at most one outgoing edge per member, from a
//! delegator to its delegate, and the base powers that were set. Everything
//! the delegation engine promises is stated over this model.
//!
//! Effective voting power follows the subtree reading: a member's power is
//! its own base power plus the base power of every member whose chain of
//! delegations leads to it, each counted once. Having delegated away does not
//! lower a member's own reported power.

use vstd::prelude::*;
use vstd::set::fold::*;
use vstd::set_lib::*;
use crate::address::Id;
use crate::chains::{chain, leads_to, lemma_chain_prefix, target};

verus! {

/// The abstract state of the delegation engine.
pub struct DelegationGraph {
    /// The forward edges: `delegate[x]` is the member that `x` delegates to.
    pub delegate: Map<Id, Id>,
    /// The base powers that were set; a member without an entry has base power 1.
    pub base: Map<Id, i128>,
}

/// The base power of `member` under `base`: the stored amount, or 1.
pub open spec fn base_of(base: Map<Id, i128>, member: Id) -> int {
    if base.contains_key(member) {
        base[member] as int
    } else {
        1
    }
}

/// The step of the sum in [`total_base`].
pub open spec fn add_base(base: Map<Id, i128>) -> spec_fn(int, Id) -> int {
    |sum: int, member: Id| sum + base_of(base, member)
}

/// The sum of the base powers of the members of a finite set.
pub open spec fn total_base(base: Map<Id, i128>, members: Set<Id>) -> int {
    members.fold(0int, add_base(base))
}

/// Every stored base power is positive.
pub open spec fn base_positive(base: Map<Id, i128>) -> bool {
    forall|x: Id| #[trigger] base.contains_key(x) ==> base[x] > 0
}

pub proof fn lemma_total_base_empty(base: Map<Id, i128>)
    ensures
        total_base(base, Set::empty()) == 0,
{
    lemma_fold_empty(0int, add_base(base));
}

pub proof fn lemma_total_base_insert(base: Map<Id, i128>, members: Set<Id>, x: Id)
    requires
        members.finite(),
        !members.contains(x),
    ensures
        total_base(base, members.insert(x)) == total_base(base, members) + base_of(base, x),
{
    assert(is_fun_commutative(add_base(base)));
    lemma_fold_insert(members, 0int, add_base(base), x);
}

/// A sum of positive base powers grows with the set.
pub proof fn lemma_total_base_subset(base: Map<Id, i128>, small: Set<Id>, large: Set<Id>)
    requires
        large.finite(),
        small.subset_of(large),
        base_positive(base),
    ensures
        total_base(base, small) <= total_base(base, large),
    decreases large.len(),
{
    if small =~= large {
    } else {
        let x = choose|x: Id| large.contains(x) && !small.contains(x);
        let rest = large.remove(x);
        assert(rest.insert(x) =~= large);
        lemma_total_base_subset(base, small, rest);
        lemma_total_base_insert(base, rest, x);
    }
}

/// The sum over two disjoint finite sets is the sum of the sums.
pub proof fn lemma_total_base_union(base: Map<Id, i128>, a: Set<Id>, b: Set<Id>)
    requires
        a.finite(),
        b.finite(),
        a.disjoint(b),
    ensures
        total_base(base, a.union(b)) == total_base(base, a) + total_base(base, b),
    decreases b.len(),
{
    if b.len() == 0 {
        b.lemma_len0_is_empty();
        assert(a.union(b) =~= a);
        lemma_total_base_empty(base);
    } else {
        let x = b.choose();
        let rest = b.remove(x);
        assert(rest.insert(x) =~= b);
        assert(a.union(rest).insert(x) =~= a.union(b));
        lemma_total_base_union(base, a, rest);
        lemma_total_base_insert(base, rest, x);
        lemma_total_base_insert(base, a.union(rest), x);
    }
}

impl DelegationGraph {
    /// The graph without edges or stored base powers.
    pub open spec fn empty() -> DelegationGraph {
        DelegationGraph { delegate: Map::empty(), base: Map::empty() }
    }

    /// Finitely many edges, none from a member to itself, and only positive
    /// base powers stored.
    pub open spec fn wf(self) -> bool {
        &&& self.delegate.dom().finite()
        &&& forall|x: Id| #[trigger] self.delegate.contains_key(x) ==> self.delegate[x] != x
        &&& base_positive(self.base)
    }

    /// The current delegate of `x`, if it has one.
    pub open spec fn delegate_of(self, x: Id) -> Option<Id> {
        target(self.delegate, x)
    }

    /// The members whose current delegate is `d`.
    pub open spec fn delegators_of(self, d: Id) -> Set<Id> {
        Set::new(|x: Id| self.delegate_of(x) == Some(d))
    }

    /// Whether `x` delegates to somebody or somebody delegates to `x`.
    pub open spec fn has_delegation(self, x: Id) -> bool {
        self.delegate.contains_key(x) || exists|y: Id| #[trigger] self.delegate_of(y) == Some(x)
    }

    /// The base power of `member`: the stored amount, or 1.
    pub open spec fn base_power(self, member: Id) -> int {
        base_of(self.base, member)
    }

    /// The member reached from `x` after `hops` delegations, if the chain is
    /// that long.
    pub open spec fn chain(self, x: Id, hops: nat) -> Option<Id> {
        chain(self.delegate, x, hops)
    }

    /// Whether the chain of delegations that starts at `x` arrives at `m`
    /// after one hop or more.
    pub open spec fn leads_to(self, x: Id, m: Id) -> bool {
        leads_to(self.delegate, x, m)
    }

    /// Whether `m` lies on a cycle of delegations.
    pub open spec fn in_cycle(self, m: Id) -> bool {
        self.leads_to(m, m)
    }

    /// The members whose power flows to `m`.
    pub open spec fn supporters(self, m: Id) -> Set<Id> {
        Set::new(|x: Id| self.leads_to(x, m))
    }

    /// The effective voting power of `m`: its base power and that of each of
    /// its supporters.
    pub open spec fn voting_power(self, m: Id) -> int {
        self.base_power(m) + total_base(self.base, self.supporters(m))
    }

    /// The graph after `delegator` has delegated to `delegate`: the edge of
    /// `delegator` is set, replacing an earlier one.
    pub open spec fn delegate_votes(self, delegator: Id, delegate: Id) -> DelegationGraph {
        DelegationGraph { delegate: self.delegate.insert(delegator, delegate), base: self.base }
    }

    /// The graph after `delegator` has withdrawn its delegation.
    pub open spec fn undelegate(self, delegator: Id) -> DelegationGraph {
        DelegationGraph { delegate: self.delegate.remove(delegator), base: self.base }
    }

    /// The graph after the base power of `member` was set: a positive amount
    /// is stored, any other amount deletes the entry.
    pub open spec fn set_base_power(self, member: Id, power: i128) -> DelegationGraph {
        DelegationGraph {
            delegate: self.delegate,
            base: if power <= 0 {
                self.base.remove(member)
            } else {
                self.base.insert(member, power)
            },
        }
    }

    /// Only members with a delegate support anybody, so there are finitely
    /// many supporters.
    pub proof fn lemma_supporters_finite(self, m: Id)
        requires
            self.delegate.dom().finite(),
        ensures
            self.supporters(m).subset_of(self.delegate.dom()),
            self.supporters(m).finite(),
    {
        assert forall|x: Id| self.supporters(m).contains(x) implies self.delegate.dom().contains(x) by {
            let k = choose|hops: nat| hops >= 1 && #[trigger] chain(self.delegate, x, hops) == Some(m);
            lemma_chain_prefix(self.delegate, x, k);
            assert(chain(self.delegate, x, 0) is Some);
        }
        lemma_len_subset(self.supporters(m), self.delegate.dom());
    }
}

/// Delegating, setting a base power and withdrawing a delegation keep a
/// graph well-formed, as long as nobody delegates to itself.
pub proof fn law_transitions_keep_wf(g: DelegationGraph, a: Id, b: Id, power: i128)
    requires
        g.wf(),
    ensures
        a != b ==> g.delegate_votes(a, b).wf(),
        g.undelegate(a).wf(),
        g.set_base_power(a, power).wf(),
{
}

/// The reverse relation is the forward relation read backwards: `x` is a
/// delegator of `d` exactly when the delegate of `x` is `d`. A member is never
/// its own delegator.
pub proof fn law_reverse_index_consistent(g: DelegationGraph, d: Id, x: Id)
    requires
        g.wf(),
    ensures
        g.delegators_of(d).contains(x) <==> g.delegate_of(x) == Some(d),
        !g.delegators_of(d).contains(d),
{
}

/// Delegating, withdrawing the delegation and delegating to the same member
/// again gives the graph that the first delegation gave: the same forward
/// edges, and so the same delegators of every member.
pub proof fn law_redelegation_restores(g: DelegationGraph, a: Id, b: Id)
    requires
        g.wf(),
        a != b,
    ensures
        g.delegate_votes(a, b).undelegate(a).delegate_votes(a, b) == g.delegate_votes(a, b),
        g.delegate_votes(a, b).delegate_of(a) == Some(b),
        g.delegate_votes(a, b).undelegate(a).delegate_of(a) is None,
        forall|d: Id|
            g.delegate_votes(a, b).undelegate(a).delegate_votes(a, b).delegators_of(d)
                == g.delegate_votes(a, b).delegators_of(d),
{
    let once = g.delegate_votes(a, b);
    let again = once.undelegate(a).delegate_votes(a, b);
    assert(again.delegate =~= once.delegate);
}

/// Withdrawing a delegation that was just made gives back the graph from
/// before, when the delegator had no delegate then.
pub proof fn law_undelegate_undoes(g: DelegationGraph, a: Id, b: Id)
    requires
        g.wf(),
        g.delegate_of(a) is None,
    ensures
        g.delegate_votes(a, b).undelegate(a) == g,
{
    assert(g.delegate_votes(a, b).undelegate(a).delegate =~= g.delegate);
}

/// A member to which nobody delegates has exactly its base power, whether or
/// not it has delegated itself; it lies on no cycle and its power fits the
/// 128-bit range.
pub proof fn law_power_without_delegators(g: DelegationGraph, m: Id)
    requires
        g.wf(),
        forall|x: Id| g.delegate_of(x) != Some(m),
    ensures
        !g.in_cycle(m),
        g.supporters(m) == Set::<Id>::empty(),
        g.voting_power(m) == g.base_power(m),
        0 < g.voting_power(m) <= i128::MAX,
{
    assert forall|x: Id| !g.leads_to(x, m) by {
        if g.leads_to(x, m) {
            let k = choose|hops: nat| hops >= 1 && #[trigger] chain(g.delegate, x, hops) == Some(m);
            lemma_chain_prefix(g.delegate, x, k);
            let last = chain(g.delegate, x, (k - 1) as nat);
            assert(last is Some);
            assert(g.delegate_of(last.unwrap()) == Some(m));
        }
    }
    assert(g.supporters(m) =~= Set::<Id>::empty());
    lemma_total_base_empty(g.base);
}

/// In particular a member that takes part in no delegation at all has
/// exactly its base power.
pub proof fn law_power_conservation(g: DelegationGraph, m: Id)
    requires
        g.wf(),
        !g.has_delegation(m),
    ensures
        !g.in_cycle(m),
        g.voting_power(m) == g.base_power(m),
{
    law_power_without_delegators(g, m);
}

} // verus!
