//! How effective voting power moves when one delegation changes.

use vstd::prelude::*;
use crate::address::Id;
use crate::chains::{
    chain, leads_to, lemma_chain_same, lemma_chain_split, lemma_first_arrival, next, target,
};
use crate::graph::{
    lemma_total_base_insert, lemma_total_base_union, total_base, DelegationGraph,
};
use vstd::set::fold::*;
use vstd::set_lib::*;

verus! {

/// A chain to `t` that exists in one relation exists in another that
/// differs at most in the edge of `a`, when `a` itself does not lead to `t`.
proof fn lemma_leads_transfers(one: Map<Id, Id>, other: Map<Id, Id>, a: Id, x: Id, t: Id)
    requires
        forall|y: Id| y != a ==> target(one, y) == target(other, y),
        !leads_to(one, a, t),
        leads_to(one, x, t),
    ensures
        leads_to(other, x, t),
{
    let k = choose|hops: nat| hops >= 1 && #[trigger] chain(one, x, hops) == Some(t);
    assert forall|j: nat| j < k implies chain(one, x, j) != Some(a) by {
        if chain(one, x, j) == Some(a) {
            lemma_chain_split(one, x, j, (k - j) as nat);
            assert(j + (k - j) as nat == k);
            assert(chain(one, a, (k - j) as nat) == Some(t));
        }
    }
    lemma_chain_same(one, other, a, x, k);
    assert(chain(other, x, k) == Some(t));
}

/// After the edge of `a` was set to `c`, `a` leads to `t` only if `c` is `t`
/// or led to `t` before.
proof fn lemma_no_new_path(edges: Map<Id, Id>, a: Id, c: Id, t: Id, k: nat)
    requires
        c != t,
        !leads_to(edges, c, t),
        k >= 1,
    ensures
        chain(edges.insert(a, c), a, k) != Some(t),
    decreases k,
{
    let moved = edges.insert(a, c);
    if chain(moved, a, k) == Some(t) {
        lemma_chain_split(moved, a, 1, (k - 1) as nat);
        assert(1 + (k - 1) as nat == k);
        assert(chain(moved, a, 1) == next(moved, chain(moved, a, 0)));
        assert(chain(moved, c, (k - 1) as nat) == Some(t));
        if k == 1 {
            assert(false);
        } else if exists|j: nat| j < k - 1 && chain(moved, c, j) == Some(a) {
            let j = choose|j: nat| j < k - 1 && chain(moved, c, j) == Some(a);
            lemma_chain_split(moved, c, j, (k - 1 - j) as nat);
            assert(j + (k - 1 - j) as nat == (k - 1) as nat);
            lemma_no_new_path(edges, a, c, t, (k - 1 - j) as nat);
            assert(false);
        } else {
            lemma_chain_same(moved, edges, a, c, (k - 1) as nat);
            assert(chain(edges, c, (k - 1) as nat) == Some(t));
            assert(leads_to(edges, c, t));
            assert(false);
        }
    }
}

/// A change of the delegate of `a` does not touch the power of a member
/// that neither `a` nor its new delegate `c` leads to: that member has the
/// same supporters, and so the same effective power, as before.
pub proof fn law_power_unaffected(g: DelegationGraph, a: Id, c: Id, t: Id)
    requires
        g.wf(),
        c != t,
        !g.leads_to(a, t),
        !g.leads_to(c, t),
    ensures
        !g.delegate_votes(a, c).leads_to(a, t),
        g.delegate_votes(a, c).supporters(t) == g.supporters(t),
        g.delegate_votes(a, c).voting_power(t) == g.voting_power(t),
        g.delegate_votes(a, c).in_cycle(t) == g.in_cycle(t),
{
    let one = g.delegate;
    let other = g.delegate.insert(a, c);
    assert(!leads_to(other, a, t)) by {
        if leads_to(other, a, t) {
            let k = choose|hops: nat| hops >= 1 && #[trigger] chain(other, a, hops) == Some(t);
            lemma_no_new_path(one, a, c, t, k);
        }
    }
    assert forall|x: Id| leads_to(one, x, t) <==> leads_to(other, x, t) by {
        if leads_to(one, x, t) {
            lemma_leads_transfers(one, other, a, x, t);
        }
        if leads_to(other, x, t) {
            lemma_leads_transfers(other, one, a, x, t);
        }
    }
    assert(g.delegate_votes(a, c).supporters(t) =~= g.supporters(t));
}

/// Withdrawing the delegation of `a` does not touch the power of a member
/// that `a` did not lead to.
pub proof fn law_undelegate_unaffected(g: DelegationGraph, a: Id, t: Id)
    requires
        g.wf(),
        !g.leads_to(a, t),
    ensures
        g.undelegate(a).supporters(t) == g.supporters(t),
        g.undelegate(a).voting_power(t) == g.voting_power(t),
{
    let one = g.delegate;
    let other = g.delegate.remove(a);
    assert(!leads_to(other, a, t)) by {
        if leads_to(other, a, t) {
            let k = choose|hops: nat| hops >= 1 && #[trigger] chain(other, a, hops) == Some(t);
            crate::chains::lemma_chain_prefix(other, a, k);
            assert(chain(other, a, 0) is Some);
        }
    }
    assert forall|x: Id| leads_to(one, x, t) <==> leads_to(other, x, t) by {
        if leads_to(one, x, t) {
            lemma_leads_transfers(one, other, a, x, t);
        }
        if leads_to(other, x, t) {
            lemma_leads_transfers(other, one, a, x, t);
        }
    }
    assert(g.undelegate(a).supporters(t) =~= g.supporters(t));
}

/// Delegating adds the delegator's power to that of its delegate: when `a`
/// did not lead to `c` before and `c` does not lead to `a`, then after `a`
/// has delegated to `c` the power of `c` is what it was plus the effective
/// power of `a`. The supporters that `c` gains are `a` and the supporters
/// of `a`.
pub proof fn law_delegation_adds_power(g: DelegationGraph, a: Id, c: Id)
    requires
        g.wf(),
        a != c,
        !g.leads_to(a, c),
        !g.leads_to(c, a),
    ensures
        !g.delegate_votes(a, c).in_cycle(a),
        g.delegate_votes(a, c).supporters(c) == g.supporters(c).union(
            g.delegate_votes(a, c).supporters(a),
        ).insert(a),
        g.delegate_votes(a, c).voting_power(c) == g.voting_power(c) + g.delegate_votes(
            a,
            c,
        ).voting_power(a),
{
    let one = g.delegate;
    let other = g.delegate.insert(a, c);
    let after = g.delegate_votes(a, c);
    let old_c = g.supporters(c);
    let of_a = after.supporters(a);
    let new_c = after.supporters(c);

    assert(!leads_to(other, a, a)) by {
        if leads_to(other, a, a) {
            let k = choose|hops: nat| hops >= 1 && #[trigger] chain(other, a, hops) == Some(a);
            lemma_no_new_path(one, a, c, a, k);
        }
    }
    assert(chain(other, a, 1) == Some(c)) by {
        assert(chain(other, a, 1) == next(other, chain(other, a, 0)));
    }

    assert forall|x: Id| new_c.contains(x) <==> (x == a || old_c.contains(x) || of_a.contains(
        x,
    )) by {
        if new_c.contains(x) {
            let k = choose|hops: nat| hops >= 1 && #[trigger] chain(other, x, hops) == Some(c);
            if exists|j: nat| j < k && chain(other, x, j) == Some(a) {
                let j = choose|j: nat| j < k && chain(other, x, j) == Some(a);
                let p = lemma_first_arrival(other, x, a, j);
                if p > 0 {
                    assert(leads_to(other, x, a));
                }
            } else {
                lemma_chain_same(other, one, a, x, k);
                assert(leads_to(one, x, c));
            }
        }
        if old_c.contains(x) {
            lemma_leads_transfers(one, other, a, x, c);
        }
        if x == a {
            assert(leads_to(other, a, c));
        }
        if of_a.contains(x) {
            let p = choose|hops: nat| hops >= 1 && #[trigger] chain(other, x, hops) == Some(a);
            lemma_chain_split(other, x, p, 1);
            assert(chain(other, x, p + 1) == Some(c));
            assert(leads_to(other, x, c));
        }
    }
    assert(new_c =~= old_c.union(of_a).insert(a));

    assert(old_c.disjoint(of_a)) by {
        assert forall|x: Id| !(old_c.contains(x) && of_a.contains(x)) by {
            if old_c.contains(x) && of_a.contains(x) {
                let k = choose|hops: nat| hops >= 1 && #[trigger] chain(one, x, hops) == Some(c);
                assert forall|j: nat| j < k implies chain(one, x, j) != Some(a) by {
                    if chain(one, x, j) == Some(a) {
                        lemma_chain_split(one, x, j, (k - j) as nat);
                        assert(j + (k - j) as nat == k);
                        assert(chain(one, a, (k - j) as nat) == Some(c));
                    }
                }
                let q = choose|hops: nat| hops >= 1 && #[trigger] chain(other, x, hops) == Some(a);
                let p = lemma_first_arrival(other, x, a, q);
                lemma_chain_same(other, one, a, x, p);
                assert(chain(one, x, p) == Some(a));
                if p > k {
                    lemma_chain_split(one, x, k, (p - k) as nat);
                    assert(k + (p - k) as nat == p);
                    assert(chain(one, c, (p - k) as nat) == Some(a));
                    assert(leads_to(one, c, a));
                }
            }
        }
    }
    g.lemma_supporters_finite(c);
    after.lemma_supporters_finite(a);
    assert(after.delegate.dom().finite());
    lemma_total_base_union(g.base, old_c, of_a);
    lemma_total_base_insert(g.base, old_c.union(of_a), a);
}

/// A change of the delegate of `a` to `c` does not touch the power of a
/// member that both `a` and `c` led to before: what came by way of `a`
/// comes by way of `a` and `c` now.
pub proof fn law_power_rerouted(g: DelegationGraph, a: Id, c: Id, t: Id)
    requires
        g.wf(),
        a != c,
        g.leads_to(a, t),
        g.leads_to(c, t),
        !g.leads_to(c, a),
    ensures
        g.delegate_votes(a, c).leads_to(a, t),
        g.delegate_votes(a, c).supporters(t) == g.supporters(t),
        g.delegate_votes(a, c).voting_power(t) == g.voting_power(t),
{
    let one = g.delegate;
    let other = g.delegate.insert(a, c);
    // the way from `c` to `t` does not pass `a`, so it is there as before
    let m = choose|hops: nat| hops >= 1 && #[trigger] chain(one, c, hops) == Some(t);
    assert forall|j: nat| j < m implies chain(one, c, j) != Some(a) by {
        if chain(one, c, j) == Some(a) {
            assert(j >= 1);
            assert(leads_to(one, c, a));
        }
    }
    lemma_chain_same(one, other, a, c, m);
    assert(chain(other, a, 1) == Some(c)) by {
        assert(chain(other, a, 1) == next(other, chain(other, a, 0)));
    }
    lemma_chain_split(other, a, 1, m);
    assert(chain(other, a, 1 + m) == Some(t));
    assert(leads_to(other, a, t));
    let n = choose|hops: nat| hops >= 1 && #[trigger] chain(one, a, hops) == Some(t);

    assert forall|x: Id| leads_to(one, x, t) <==> leads_to(other, x, t) by {
        if leads_to(one, x, t) {
            let k = choose|hops: nat| hops >= 1 && #[trigger] chain(one, x, hops) == Some(t);
            if exists|j: nat| j < k && chain(one, x, j) == Some(a) {
                let j = choose|j: nat| j < k && chain(one, x, j) == Some(a);
                let p = lemma_first_arrival(one, x, a, j);
                lemma_chain_same(one, other, a, x, p);
                lemma_chain_split(other, x, p, 1 + m);
                assert(chain(other, x, p + (1 + m)) == Some(t));
            } else {
                lemma_chain_same(one, other, a, x, k);
                assert(chain(other, x, k) == Some(t));
            }
        }
        if leads_to(other, x, t) {
            let k = choose|hops: nat| hops >= 1 && #[trigger] chain(other, x, hops) == Some(t);
            if exists|j: nat| j < k && chain(other, x, j) == Some(a) {
                let j = choose|j: nat| j < k && chain(other, x, j) == Some(a);
                let p = lemma_first_arrival(other, x, a, j);
                lemma_chain_same(other, one, a, x, p);
                lemma_chain_split(one, x, p, n);
                assert(chain(one, x, p + n) == Some(t));
            } else {
                lemma_chain_same(other, one, a, x, k);
                assert(chain(one, x, k) == Some(t));
            }
        }
    }
    assert(g.delegate_votes(a, c).supporters(t) =~= g.supporters(t));
}

/// Re-delegation moves power. Let `a` delegate first to `b` and then to
/// `c`, three different members, in a state in which the power of `a` does
/// not flow to `c`, nor that of `c` to `a`. Then the power of `c` has grown
/// by the effective power of `a`. And the power of `b` is what it was
/// before `a` delegated at all, provided that the power of `a` flowed to
/// `b` then exactly if that of `c` did, as it does when neither flowed
/// there.
pub proof fn law_redelegation_moves_power(g: DelegationGraph, a: Id, b: Id, c: Id)
    requires
        g.wf(),
        a != b,
        a != c,
        b != c,
        !g.leads_to(a, c),
        !g.leads_to(c, a),
        g.leads_to(a, b) == g.leads_to(c, b),
    ensures
        g.delegate_votes(a, b).delegate_votes(a, c) == g.delegate_votes(a, c),
        g.delegate_votes(a, b).delegate_votes(a, c).voting_power(b) == g.voting_power(b),
        g.delegate_votes(a, b).delegate_votes(a, c).voting_power(c) == g.voting_power(c)
            + g.delegate_votes(a, b).delegate_votes(a, c).voting_power(a),
{
    let moved = g.delegate_votes(a, b).delegate_votes(a, c);
    assert(moved.delegate =~= g.delegate_votes(a, c).delegate);
    if g.leads_to(a, b) {
        law_power_rerouted(g, a, c, b);
    } else {
        law_power_unaffected(g, a, c, b);
    }
    law_delegation_adds_power(g, a, c);
}

/// Delegating away does not change a member's own power: when `a` lies on
/// no cycle and its new delegate `c` does not lead to it, `a` has the same
/// effective power after delegating to `c` as before.
pub proof fn law_own_power_kept(g: DelegationGraph, a: Id, c: Id)
    requires
        g.wf(),
        a != c,
        !g.in_cycle(a),
        !g.leads_to(c, a),
    ensures
        g.delegate_votes(a, c).voting_power(a) == g.voting_power(a),
        !g.delegate_votes(a, c).in_cycle(a),
{
    law_power_unaffected(g, a, c, a);
}

/// The step of the sum in [`total_power`].
pub open spec fn add_power(g: DelegationGraph) -> spec_fn(int, Id) -> int {
    |sum: int, member: Id| sum + g.voting_power(member)
}

/// The sum of the effective powers of the members of a finite set.
pub open spec fn total_power(g: DelegationGraph, members: Set<Id>) -> int {
    members.fold(0int, add_power(g))
}

/// The supporters of `d` and `d` itself: the members whose power reaches
/// the delegate of `d` through `d`.
pub open spec fn branch(g: DelegationGraph, d: Id) -> Set<Id> {
    g.supporters(d).insert(d)
}

/// The branches of the members of `through`, taken together.
pub open spec fn branches(g: DelegationGraph, through: Set<Id>) -> Set<Id> {
    Set::new(|x: Id| exists|d: Id| through.contains(d) && #[trigger] branch(g, d).contains(x))
}

/// How many hops a member of a branch is away from the head of the branch.
proof fn lemma_branch_distance(g: DelegationGraph, d: Id, x: Id) -> (hops: nat)
    requires
        branch(g, d).contains(x),
    ensures
        chain(g.delegate, x, hops) == Some(d),
{
    if x == d {
        0
    } else {
        choose|hops: nat| hops >= 1 && #[trigger] chain(g.delegate, x, hops) == Some(d)
    }
}

/// The branches of two delegators of a member that lies on no cycle have
/// no member in common.
proof fn lemma_branches_disjoint(g: DelegationGraph, m: Id, d1: Id, d2: Id)
    requires
        g.wf(),
        !g.in_cycle(m),
        d1 != d2,
        g.delegate_of(d1) == Some(m),
        g.delegate_of(d2) == Some(m),
    ensures
        branch(g, d1).disjoint(branch(g, d2)),
{
    let edges = g.delegate;
    assert forall|x: Id| !(branch(g, d1).contains(x) && branch(g, d2).contains(x)) by {
        if branch(g, d1).contains(x) && branch(g, d2).contains(x) {
            let p = lemma_branch_distance(g, d1, x);
            let q = lemma_branch_distance(g, d2, x);
            let near = if p < q { p } else { q };
            let far = if p < q { q } else { p };
            let last = if p < q { d2 } else { d1 };
            // one hop after the nearer head the chain is at `m`
            assert(chain(edges, x, near + 1) == next(edges, chain(edges, x, near)));
            assert(chain(edges, x, near + 1) == Some(m));
            if far == near + 1 {
                assert(last == m);
                assert(g.delegate_of(m) == Some(m));
            } else {
                lemma_chain_split(edges, x, near + 1, (far - near - 1) as nat);
                assert(near + 1 + (far - near - 1) as nat == far);
                assert(chain(edges, m, (far - near - 1) as nat) == Some(last));
                assert(chain(edges, m, (far - near) as nat) == next(
                    edges,
                    chain(edges, m, (far - near - 1) as nat),
                ));
                assert(chain(edges, m, (far - near) as nat) == Some(m));
                assert(leads_to(edges, m, m));
            }
        }
    }
}

/// A delegator of a member that lies on no cycle lies on no cycle.
proof fn lemma_delegator_off_cycle(g: DelegationGraph, m: Id, d: Id)
    requires
        g.wf(),
        !g.in_cycle(m),
        g.delegate_of(d) == Some(m),
    ensures
        !g.in_cycle(d),
{
    let edges = g.delegate;
    if leads_to(edges, d, d) {
        let k = choose|hops: nat| hops >= 1 && #[trigger] chain(edges, d, hops) == Some(d);
        assert(chain(edges, d, 1) == next(edges, chain(edges, d, 0)));
        lemma_chain_split(edges, d, 1, (k - 1) as nat);
        assert(1 + (k - 1) as nat == k);
        assert(chain(edges, m, (k - 1) as nat) == Some(d));
        assert(chain(edges, m, k) == next(edges, chain(edges, m, (k - 1) as nat)));
        assert(chain(edges, m, k) == Some(m));
        assert(leads_to(edges, m, m));
    }
}

/// The base powers in the branches of some delegators of `m` add up to
/// the effective powers of those delegators.
proof fn lemma_branches_sum(g: DelegationGraph, m: Id, through: Set<Id>)
    requires
        g.wf(),
        !g.in_cycle(m),
        through.finite(),
        through.subset_of(g.delegators_of(m)),
    ensures
        branches(g, through).finite(),
        total_base(g.base, branches(g, through)) == total_power(g, through),
    decreases through.len(),
{
    g.lemma_supporters_finite(m);
    assert(branches(g, through).subset_of(g.supporters(m))) by {
        assert forall|x: Id| branches(g, through).contains(x) implies g.supporters(m).contains(
            x,
        ) by {
            let d = choose|d: Id| through.contains(d) && #[trigger] branch(g, d).contains(x);
            assert(g.delegators_of(m).contains(d));
            let p = lemma_branch_distance(g, d, x);
            assert(chain(g.delegate, x, p + 1) == next(g.delegate, chain(g.delegate, x, p)));
            assert(chain(g.delegate, x, p + 1) == Some(m));
        }
    }
    lemma_len_subset(branches(g, through), g.supporters(m));
    if through.len() == 0 {
        through.lemma_len0_is_empty();
        assert(branches(g, through) =~= Set::<Id>::empty());
        crate::graph::lemma_total_base_empty(g.base);
        lemma_fold_empty(0int, add_power(g));
    } else {
        let d = through.choose();
        let rest = through.remove(d);
        assert(rest.insert(d) =~= through);
        assert(g.delegators_of(m).contains(d));
        lemma_branches_sum(g, m, rest);
        // the branch of `d` shares nothing with the other branches
        assert(branches(g, rest).disjoint(branch(g, d))) by {
            assert forall|x: Id| !(branches(g, rest).contains(x) && branch(g, d).contains(x)) by {
                if branches(g, rest).contains(x) && branch(g, d).contains(x) {
                    let other = choose|other: Id|
                        rest.contains(other) && #[trigger] branch(g, other).contains(x);
                    assert(g.delegators_of(m).contains(other));
                    lemma_branches_disjoint(g, m, other, d);
                }
            }
        }
        assert(branches(g, through) =~= branches(g, rest).union(branch(g, d))) by {
            assert forall|x: Id|
                branches(g, through).contains(x) <==> branches(g, rest).contains(x) || branch(
                    g,
                    d,
                ).contains(x) by {
                if branches(g, through).contains(x) {
                    let via = choose|via: Id|
                        through.contains(via) && #[trigger] branch(g, via).contains(x);
                    if via != d {
                        assert(rest.contains(via));
                    }
                }
                if branches(g, rest).contains(x) {
                    let via = choose|via: Id|
                        rest.contains(via) && #[trigger] branch(g, via).contains(x);
                    assert(through.contains(via));
                }
                if branch(g, d).contains(x) {
                    assert(through.contains(d));
                }
            }
        }
        g.lemma_supporters_finite(d);
        lemma_total_base_union(g.base, branches(g, rest), branch(g, d));
        lemma_delegator_off_cycle(g, m, d);
        lemma_total_base_insert(g.base, g.supporters(d), d);
        assert(is_fun_commutative(add_power(g)));
        lemma_fold_insert(rest, 0int, add_power(g), d);
    }
}

/// Effective voting power is the base power plus what each delegator
/// brings: the power of a member that lies on no cycle is its own base
/// power and the sum of the effective powers of its delegators.
pub proof fn law_power_is_recursive(g: DelegationGraph, m: Id)
    requires
        g.wf(),
        !g.in_cycle(m),
    ensures
        g.delegators_of(m).finite(),
        g.voting_power(m) == g.base_power(m) + total_power(g, g.delegators_of(m)),
{
    let through = g.delegators_of(m);
    assert(through.subset_of(g.delegate.dom()));
    lemma_len_subset(through, g.delegate.dom());
    lemma_branches_sum(g, m, through);
    assert(branches(g, through) =~= g.supporters(m)) by {
        assert forall|x: Id| g.supporters(m).contains(x) implies branches(g, through).contains(
            x,
        ) by {
            let k = choose|hops: nat| hops >= 1 && #[trigger] chain(g.delegate, x, hops) == Some(m);
            crate::chains::lemma_chain_prefix(g.delegate, x, k);
            let before = chain(g.delegate, x, (k - 1) as nat);
            assert(before is Some);
            let d = before.unwrap();
            assert(g.delegate_of(d) == Some(m));
            assert(through.contains(d));
            if k > 1 {
                assert(leads_to(g.delegate, x, d));
            }
            assert(branch(g, d).contains(x));
        }
        assert forall|x: Id| branches(g, through).contains(x) implies g.supporters(m).contains(
            x,
        ) by {
            let d = choose|d: Id| through.contains(d) && #[trigger] branch(g, d).contains(x);
            let p = lemma_branch_distance(g, d, x);
            assert(chain(g.delegate, x, p + 1) == next(g.delegate, chain(g.delegate, x, p)));
            assert(chain(g.delegate, x, p + 1) == Some(m));
        }
    }
}

} // verus!
