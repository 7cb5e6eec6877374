//! Chains in a relation with at most one outgoing edge per member.
//!
//! Both the delegation graph (delegator to delegate) and the referral graph
//! (referee to referrer) are such relations. A chain starts at a member and
//! follows the edges for as long as there is one.

use vstd::prelude::*;
use vstd::set_lib::*;
use crate::address::Id;

verus! {

/// The member that the edge of `x` points to, if `x` has an edge.
pub open spec fn target(edges: Map<Id, Id>, x: Id) -> Option<Id> {
    if edges.contains_key(x) {
        Some(edges[x])
    } else {
        None
    }
}

/// One step along a chain: from a member to the target of its edge, and from
/// the end of a chain nowhere.
pub open spec fn next(edges: Map<Id, Id>, at: Option<Id>) -> Option<Id> {
    match at {
        Some(x) => target(edges, x),
        None => None,
    }
}

/// The member reached from `x` after `hops` edges, if the chain is that long.
pub open spec fn chain(edges: Map<Id, Id>, x: Id, hops: nat) -> Option<Id>
    decreases hops,
{
    if hops == 0 {
        Some(x)
    } else {
        next(edges, chain(edges, x, (hops - 1) as nat))
    }
}

/// Whether the chain that starts at `x` arrives at `m` after one hop or more.
pub open spec fn leads_to(edges: Map<Id, Id>, x: Id, m: Id) -> bool {
    exists|hops: nat| hops >= 1 && #[trigger] chain(edges, x, hops) == Some(m)
}

/// No member is reached again by the chain that starts at it.
pub open spec fn acyclic(edges: Map<Id, Id>) -> bool {
    forall|x: Id| !leads_to(edges, x, x)
}

/// A chain of `j + k` hops is a chain of `j` hops followed by one of `k`.
pub proof fn lemma_chain_split(edges: Map<Id, Id>, x: Id, j: nat, k: nat)
    ensures
        chain(edges, x, j + k) == match chain(edges, x, j) {
            Some(y) => chain(edges, y, k),
            None => None,
        },
    decreases k,
{
    if k > 0 {
        lemma_chain_split(edges, x, j, (k - 1) as nat);
        assert((j + k - 1) as nat == j + (k - 1) as nat);
    }
}

/// Before a chain ends, every member on it has a delegate.
pub proof fn lemma_chain_prefix(edges: Map<Id, Id>, x: Id, k: nat)
    requires
        chain(edges, x, k) is Some,
    ensures
        forall|j: nat| j < k ==> (#[trigger] chain(edges, x, j)) is Some
            && edges.contains_key(chain(edges, x, j).unwrap()),
    decreases k,
{
    if k > 0 {
        lemma_chain_prefix(edges, x, (k - 1) as nat);
    }
}

/// Once a chain has ended it stays ended.
pub proof fn lemma_chain_ended(edges: Map<Id, Id>, x: Id, j: nat, k: nat)
    requires
        chain(edges, x, j) is None,
        j <= k,
    ensures
        chain(edges, x, k) is None,
    decreases k,
{
    if j < k {
        lemma_chain_ended(edges, x, j, (k - 1) as nat);
    }
}

/// A member that a chain arrives at is arrived at within as many hops as
/// there are edges.
pub proof fn lemma_leads_within(edges: Map<Id, Id>, x: Id, m: Id, k: nat)
    requires
        edges.dom().finite(),
        k >= 1,
        chain(edges, x, k) == Some(m),
    ensures
        exists|h: nat| 1 <= h <= edges.dom().len() && #[trigger] chain(edges, x, h) == Some(m),
    decreases k,
{
    let n = edges.dom().len();
    if k > n {
        lemma_chain_prefix(edges, x, k);
        let s = Seq::new(k, |i: int| chain(edges, x, i as nat).unwrap());
        if s.no_duplicates() {
            s.unique_seq_to_set();
            assert forall|y: Id| s.to_set().contains(y) implies edges.dom().contains(y) by {
                let i = s.index_of(y);
                assert(chain(edges, x, i as nat) is Some);
            }
            lemma_len_subset(s.to_set(), edges.dom());
        } else {
            let (i, j) = choose|i: int, j: int|
                0 <= i < s.len() && 0 <= j < s.len() && i != j && s[i] == s[j];
            let lo = if i < j { i } else { j };
            let hi = if i < j { j } else { i };
            assert(chain(edges, x, lo as nat) == chain(edges, x, hi as nat)) by {
                assert(chain(edges, x, lo as nat) is Some);
                assert(chain(edges, x, hi as nat) is Some);
                assert(s[lo] == s[hi]);
            }
            lemma_chain_split(edges, x, hi as nat, (k - hi) as nat);
            lemma_chain_split(edges, x, lo as nat, (k - hi) as nat);
            assert(hi as nat + (k - hi) as nat == k);
            lemma_leads_within(edges, x, m, (lo + k - hi) as nat);
        }
    }
}

/// Two relations that differ at most in the edge of `a` have the same chains
/// up to the first visit of `a`.
pub proof fn lemma_chain_same(one: Map<Id, Id>, other: Map<Id, Id>, a: Id, x: Id, k: nat)
    requires
        forall|y: Id| y != a ==> target(one, y) == target(other, y),
        forall|j: nat| j < k ==> chain(one, x, j) != Some(a),
    ensures
        chain(one, x, k) == chain(other, x, k),
    decreases k,
{
    if k > 0 {
        lemma_chain_same(one, other, a, x, (k - 1) as nat);
        assert(chain(one, x, (k - 1) as nat) != Some(a));
    }
}

/// A chain that visits `a` visits it for a first time.
pub proof fn lemma_first_arrival(edges: Map<Id, Id>, x: Id, a: Id, k: nat) -> (first: nat)
    requires
        chain(edges, x, k) == Some(a),
    ensures
        first <= k,
        chain(edges, x, first) == Some(a),
        forall|j: nat| j < first ==> chain(edges, x, j) != Some(a),
    decreases k,
{
    if exists|j: nat| j < k && chain(edges, x, j) == Some(a) {
        let j = choose|j: nat| j < k && chain(edges, x, j) == Some(a);
        lemma_first_arrival(edges, x, a, j)
    } else {
        k
    }
}

/// Giving an edge to a member that had none makes no cycle, unless the
/// target of the new edge led to that member, or is that member.
pub proof fn lemma_new_edge_acyclic(edges: Map<Id, Id>, from: Id, to: Id)
    requires
        acyclic(edges),
        !edges.contains_key(from),
        from != to,
        !leads_to(edges, to, from),
    ensures
        acyclic(edges.insert(from, to)),
{
    let grown = edges.insert(from, to);
    assert forall|x: Id| !leads_to(grown, x, x) by {
        if leads_to(grown, x, x) {
            let k = choose|hops: nat| hops >= 1 && #[trigger] chain(grown, x, hops) == Some(x);
            if exists|j: nat| j < k && chain(grown, x, j) == Some(from) {
                let j = choose|j: nat| j < k && chain(grown, x, j) == Some(from);
                // the cycle, read from `from`
                lemma_chain_split(grown, x, j, (k - j) as nat);
                assert(j + (k - j) as nat == k);
                assert(chain(grown, from, (k - j) as nat) == Some(x));
                lemma_chain_split(grown, from, (k - j) as nat, j);
                assert((k - j) as nat + j == k);
                assert(chain(grown, from, k) == Some(from));
                lemma_chain_split(grown, from, 1, (k - 1) as nat);
                assert(1 + (k - 1) as nat == k);
                assert(chain(grown, from, 1) == next(grown, chain(grown, from, 0)));
                assert(chain(grown, from, 1) == Some(to));
                assert(chain(grown, to, (k - 1) as nat) == Some(from));
                let p = lemma_first_arrival(grown, to, from, (k - 1) as nat);
                lemma_chain_same(grown, edges, from, to, p);
                assert(p >= 1);
                assert(chain(edges, to, p) == Some(from));
                assert(leads_to(edges, to, from));
                assert(false);
            } else {
                lemma_chain_same(grown, edges, from, x, k);
                assert(chain(edges, x, k) == Some(x));
                assert(leads_to(edges, x, x));
                assert(false);
            }
        }
    }
}

} // verus!
