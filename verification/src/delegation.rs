//! The delegation engine: who delegates to whom.
//!
//! A [`DelegationLedger`] stores the forward edge of every delegator and, in
//! lockstep, a reverse index from each delegate to the members that delegate
//! to it. Its view is a [`DelegationGraph`]; the reverse index never shows up
//! in it, because a well-formed ledger's index says exactly what the forward
//! edges say.

use vstd::prelude::*;
use crate::address::{ids_of, Address, Id};
use crate::graph::{base_positive, DelegationGraph};
use crate::store::AddressMap;

verus! {

/// Why an operation of the delegation engine was refused.
#[derive(Clone, Copy, Debug, PartialEq, Eq, Structural)]
pub enum DelegationError {
    /// A member tried to delegate to itself.
    SelfDelegation,
    /// A member without a delegate tried to withdraw its delegation.
    NoDelegation,
    /// An address was not acceptable.
    InvalidAddress,
    /// A member lacked the power for an operation.
    InsufficientPower,
    /// The member whose power was asked for lies on a cycle of delegations.
    CircularDelegation,
    /// The effective power does not fit the 128-bit range.
    PowerOverflow,
}

/// Whether the reverse index lists `x` under `d`.
pub(crate) open spec fn listed(index: AddressMap<Vec<Address>>, d: Id, x: Id) -> bool {
    index@.contains_key(d) && ids_of(index@[d]@).contains(x)
}

/// Every list of the reverse index is non-empty and free of duplicates.
pub(crate) open spec fn lists_ok(index: AddressMap<Vec<Address>>) -> bool {
    &&& index.wf()
    &&& forall|d: Id| #[trigger]
        index@.contains_key(d) ==> index@[d]@.len() > 0 && ids_of(index@[d]@).no_duplicates()
}

/// The persistent state of the delegation engine.
pub struct DelegationLedger {
    /// delegator -> delegate
    pub(crate) delegations: AddressMap<Address>,
    /// delegate -> its delegators
    pub(crate) delegators: AddressMap<Vec<Address>>,
    /// member -> base power, where one was set
    pub(crate) powers: AddressMap<i128>,
}

impl View for DelegationLedger {
    type V = DelegationGraph;

    open(crate) spec fn view(&self) -> DelegationGraph {
        DelegationGraph {
            delegate: Map::new(
                |x: Id| self.delegations@.contains_key(x),
                |x: Id| self.delegations@[x]@,
            ),
            base: self.powers@,
        }
    }
}

impl DelegationLedger {
    /// The invariant of the ledger: its graph is well-formed, and the reverse
    /// index lists `x` under `d` exactly when `x` delegates to `d`, once, and
    /// keeps no empty list.
    pub open(crate) spec fn wf(&self) -> bool {
        &&& self.delegations.wf()
        &&& self.powers.wf()
        &&& lists_ok(self.delegators)
        &&& base_positive(self.powers@)
        &&& forall|x: Id| #[trigger]
            self.delegations@.contains_key(x) ==> self.delegations@[x]@ != x
        &&& forall|d: Id, x: Id| #[trigger]
            listed(self.delegators, d, x) ==> self.delegations@.contains_key(x)
                && self.delegations@[x]@ == d
        &&& forall|x: Id| #[trigger]
            self.delegations@.contains_key(x) ==> listed(
                self.delegators,
                self.delegations@[x]@,
                x,
            )
    }

    /// The graph of a well-formed ledger is well-formed.
    pub proof fn lemma_graph_wf(&self)
        requires
            self.wf(),
        ensures
            self@.wf(),
    {
        self.lemma_parts();
    }

    /// What the tables of a well-formed ledger have to do with its graph.
    pub(crate) proof fn lemma_parts(&self)
        requires
            self.wf(),
        ensures
            self@.wf(),
            self.delegations.wf(),
            self.powers.wf(),
            self@.delegate.dom() =~= self.delegations@.dom(),
            self@.delegate.dom() =~= self.delegations.ids().to_set(),
            self@.delegate.dom().len() == self.delegations.ids().len(),
            self@.base == self.powers@,
            forall|x: Id| #[trigger]
                self.delegations@.contains_key(x) ==> self@.delegate[x] == self.delegations@[x]@,
    {
        self.delegations.lemma_view();
        assert(self@.delegate.dom() =~= self.delegations@.dom());
    }

    /// The ledger without any delegation or stored base power.
    pub fn new() -> (ledger: DelegationLedger)
        ensures
            ledger.wf(),
            ledger@ == DelegationGraph::empty(),
    {
        let ledger = DelegationLedger {
            delegations: AddressMap::new(),
            delegators: AddressMap::new(),
            powers: AddressMap::new(),
        };
        assert(ledger@.delegate =~= Map::<Id, Id>::empty());
        ledger
    }

    /// The number of members that currently delegate.
    pub fn delegator_count(&self) -> (n: usize)
        requires
            self.wf(),
        ensures
            n == self@.delegate.dom().len(),
    {
        proof {
            self.lemma_parts();
        }
        self.delegations.len()
    }
}

/// Takes `delegator` off the list that the reverse index keeps for
/// `delegate`, and drops the list when nothing is left on it.
fn remove_delegator_from_delegate(
    index: &mut AddressMap<Vec<Address>>,
    delegator: &Address,
    delegate: &Address,
)
    requires
        lists_ok(*old(index)),
    ensures
        lists_ok(*final(index)),
        forall|d: Id, x: Id|
            listed(*final(index), d, x) <==> listed(*old(index), d, x) && !(d == delegate@ && x
                == delegator@),
{
    let ghost before = *index;
    let mut kept: Vec<Address> = Vec::new();
    match index.get(delegate) {
        None => {
            return ;
        },
        Some(list) => {
            let mut i: usize = 0;
            while i < list.len()
                invariant
                    i <= list@.len(),
                    ids_of(list@).no_duplicates(),
                    ids_of(kept@).no_duplicates(),
                    forall|x: Id|
                        ids_of(kept@).contains(x) <==> x != delegator@ && exists|j: int|
                            0 <= j < i && #[trigger] ids_of(list@)[j] == x,
                decreases list@.len() - i,
            {
                proof {
                    assert(ids_of(list@)[i as int] == list@[i as int]@);
                }
                if !(list[i] == *delegator) {
                    let ghost prev = kept@;
                    kept.push(list[i].clone());
                    proof {
                        let added = ids_of(list@)[i as int];
                        assert(added != delegator@);
                        assert(ids_of(kept@) =~= ids_of(prev).push(added));
                        assert(!ids_of(prev).contains(added)) by {
                            if ids_of(prev).contains(added) {
                                let j = choose|j: int|
                                    0 <= j < i && #[trigger] ids_of(list@)[j] == added;
                                assert(ids_of(list@)[j] == ids_of(list@)[i as int]);
                            }
                        }
                        assert forall|x: Id|
                            ids_of(kept@).contains(x) <==> x != delegator@ && exists|j: int|
                                0 <= j < i + 1 && #[trigger] ids_of(list@)[j] == x by {
                            if ids_of(kept@).contains(x) {
                                let p = ids_of(kept@).index_of(x);
                                if p < prev.len() {
                                    assert(ids_of(prev)[p] == x);
                                    assert(ids_of(prev).contains(x));
                                    let j = choose|j: int|
                                        0 <= j < i && #[trigger] ids_of(list@)[j] == x;
                                    assert(0 <= j < i + 1 && ids_of(list@)[j] == x);
                                } else {
                                    assert(ids_of(list@)[i as int] == x);
                                }
                            }
                            if x != delegator@ && exists|j: int|
                                0 <= j < i + 1 && #[trigger] ids_of(list@)[j] == x {
                                let j = choose|j: int|
                                    0 <= j < i + 1 && #[trigger] ids_of(list@)[j] == x;
                                if j < i {
                                    assert(ids_of(prev).contains(x));
                                    let p = ids_of(prev).index_of(x);
                                    assert(ids_of(kept@)[p] == x);
                                } else {
                                    assert(ids_of(kept@)[prev.len() as int] == x);
                                }
                            }
                        }
                    }
                } else {
                    proof {
                        assert forall|x: Id|
                            ids_of(kept@).contains(x) <==> x != delegator@ && exists|j: int|
                                0 <= j < i + 1 && #[trigger] ids_of(list@)[j] == x by {
                            if ids_of(kept@).contains(x) {
                                let j = choose|j: int|
                                    0 <= j < i && #[trigger] ids_of(list@)[j] == x;
                                assert(0 <= j < i + 1 && ids_of(list@)[j] == x);
                            }
                            if x != delegator@ && exists|j: int|
                                0 <= j < i + 1 && #[trigger] ids_of(list@)[j] == x {
                                let j = choose|j: int|
                                    0 <= j < i + 1 && #[trigger] ids_of(list@)[j] == x;
                                assert(j < i);
                            }
                        }
                    }
                }
                i += 1;
            }
            proof {
                assert forall|x: Id|
                    ids_of(kept@).contains(x) <==> x != delegator@ && ids_of(list@).contains(
                        x,
                    ) by {
                    if ids_of(list@).contains(x) {
                        let j = ids_of(list@).index_of(x);
                        assert(ids_of(list@)[j] == x);
                    }
                }
            }
        },
    }
    if kept.len() == 0 {
        index.remove(delegate);
    } else {
        proof {
            assert(ids_of(kept@).contains(ids_of(kept@)[0]));
        }
        index.insert(delegate.clone(), kept);
    }
}

/// Puts `delegator` on the list that the reverse index keeps for `delegate`,
/// unless it is on it already.
fn add_delegator_to_delegate(
    index: &mut AddressMap<Vec<Address>>,
    delegator: &Address,
    delegate: &Address,
)
    requires
        lists_ok(*old(index)),
    ensures
        lists_ok(*final(index)),
        forall|d: Id, x: Id|
            listed(*final(index), d, x) <==> listed(*old(index), d, x) || (d == delegate@ && x
                == delegator@),
{
    let ghost before = *index;
    let mut list: Vec<Address> = Vec::new();
    match index.get(delegate) {
        None => {},
        Some(stored) => {
            let mut i: usize = 0;
            while i < stored.len()
                invariant
                    i <= stored@.len(),
                    list@ == stored@.take(i as int),
                    forall|j: int| 0 <= j < i ==> ids_of(stored@)[j] != delegator@,
                    *index == before,
                    lists_ok(before),
                    before@.contains_key(delegate@),
                    stored@ == before@[delegate@]@,
                decreases stored@.len() - i,
            {
                if stored[i] == *delegator {
                    proof {
                        assert(ids_of(stored@)[i as int] == delegator@);
                        assert(listed(before, delegate@, delegator@));
                    }
                    return ;
                }
                proof {
                    assert(ids_of(stored@)[i as int] == stored@[i as int]@);
                }
                list.push(stored[i].clone());
                proof {
                    assert(list@ =~= stored@.take(i + 1));
                }
                i += 1;
            }
            proof {
                assert(list@ =~= stored@);
            }
        },
    }
    let ghost prev = list@;
    list.push(delegator.clone());
    proof {
        assert(ids_of(list@) =~= ids_of(prev).push(delegator@));
        assert(ids_of(list@)[prev.len() as int] == delegator@);
        assert forall|x: Id|
            ids_of(list@).contains(x) <==> x == delegator@ || ids_of(prev).contains(x) by {
            if ids_of(list@).contains(x) {
                let p = ids_of(list@).index_of(x);
                if p < prev.len() {
                    assert(ids_of(prev)[p] == x);
                }
            }
            if ids_of(prev).contains(x) {
                let p = ids_of(prev).index_of(x);
                assert(ids_of(list@)[p] == x);
            }
        }
        if before@.contains_key(delegate@) {
            assert(!ids_of(prev).contains(delegator@)) by {
                if ids_of(prev).contains(delegator@) {
                    let p = ids_of(prev).index_of(delegator@);
                    assert(ids_of(prev)[p] == delegator@);
                }
            }
        } else {
            assert(ids_of(prev) =~= Seq::<Id>::empty());
        }
    }
    index.insert(delegate.clone(), list);
}

/// Lets `delegator` delegate its votes to `delegate`.
///
/// A member cannot delegate to itself: that is refused and nothing changes.
/// Otherwise the edge of `delegator` points to `delegate` afterwards; an
/// earlier delegation is replaced.
pub fn delegate_votes(
    ledger: &mut DelegationLedger,
    delegator: &Address,
    delegate: &Address,
) -> (result: Result<(), DelegationError>)
    requires
        old(ledger).wf(),
    ensures
        final(ledger).wf(),
        delegator@ == delegate@ ==> result == Err::<(), DelegationError>(
            DelegationError::SelfDelegation,
        ) && *final(ledger) == *old(ledger),
        delegator@ != delegate@ ==> result == Ok::<(), DelegationError>(()) && final(ledger)@
            == old(ledger)@.delegate_votes(delegator@, delegate@),
{
    if *delegator == *delegate {
        return Err(DelegationError::SelfDelegation);
    }
    let ghost before = *ledger;
    let current = get_delegate(ledger, delegator);
    if let Some(current_delegate) = current {
        remove_delegator_from_delegate(&mut ledger.delegators, delegator, &current_delegate);
    }
    ledger.delegations.insert(delegator.clone(), delegate.clone());
    add_delegator_to_delegate(&mut ledger.delegators, delegator, delegate);
    proof {
        assert(ledger@.delegate =~= before@.delegate.insert(delegator@, delegate@));
        assert forall|d: Id, x: Id| #[trigger] listed(ledger.delegators, d, x) implies
            ledger.delegations@.contains_key(x) && ledger.delegations@[x]@ == d by {
            if !(d == delegate@ && x == delegator@) {
                assert(listed(before.delegators, d, x));
            }
        }
        assert forall|x: Id| #[trigger] ledger.delegations@.contains_key(x) implies listed(
            ledger.delegators,
            ledger.delegations@[x]@,
            x,
        ) by {
            if x != delegator@ {
                assert(before.delegations@.contains_key(x));
                assert(listed(before.delegators, before.delegations@[x]@, x));
            }
        }
    }
    Ok(())
}

/// Withdraws the delegation of `delegator`.
///
/// Refused, with nothing changed, when `delegator` has no delegate.
pub fn undelegate(ledger: &mut DelegationLedger, delegator: &Address) -> (result: Result<
    (),
    DelegationError,
>)
    requires
        old(ledger).wf(),
    ensures
        final(ledger).wf(),
        old(ledger)@.delegate_of(delegator@) is None ==> result == Err::<(), DelegationError>(
            DelegationError::NoDelegation,
        ) && *final(ledger) == *old(ledger),
        old(ledger)@.delegate_of(delegator@) is Some ==> result == Ok::<(), DelegationError>(())
            && final(ledger)@ == old(ledger)@.undelegate(delegator@),
{
    let ghost before = *ledger;
    let current_delegate = match get_delegate(ledger, delegator) {
        Some(delegate) => delegate,
        None => {
            return Err(DelegationError::NoDelegation);
        },
    };
    ledger.delegations.remove(delegator);
    remove_delegator_from_delegate(&mut ledger.delegators, delegator, &current_delegate);
    proof {
        assert(ledger@.delegate =~= before@.delegate.remove(delegator@));
        assert forall|d: Id, x: Id| #[trigger] listed(ledger.delegators, d, x) implies
            ledger.delegations@.contains_key(x) && ledger.delegations@[x]@ == d by {
            assert(listed(before.delegators, d, x));
        }
        assert forall|x: Id| #[trigger] ledger.delegations@.contains_key(x) implies listed(
            ledger.delegators,
            ledger.delegations@[x]@,
            x,
        ) by {
            assert(before.delegations@.contains_key(x));
            assert(listed(before.delegators, before.delegations@[x]@, x));
        }
    }
    Ok(())
}

/// The current delegate of `delegator`, if it has one.
pub fn get_delegate(ledger: &DelegationLedger, delegator: &Address) -> (delegate: Option<Address>)
    requires
        ledger.wf(),
    ensures
        match delegate {
            Some(d) => ledger@.delegate_of(delegator@) == Some(d@),
            None => ledger@.delegate_of(delegator@) is None,
        },
{
    match ledger.delegations.get(delegator) {
        Some(d) => Some(d.clone()),
        None => None,
    }
}

/// The members that currently delegate to `delegate`, each once; empty when
/// there are none. The order of the list is not promised.
pub fn get_delegators(ledger: &DelegationLedger, delegate: &Address) -> (delegators: Vec<Address>)
    requires
        ledger.wf(),
    ensures
        ids_of(delegators@).no_duplicates(),
        forall|x: Id|
            ids_of(delegators@).contains(x) <==> ledger@.delegate_of(x) == Some(delegate@),
        ids_of(delegators@).to_set() == ledger@.delegators_of(delegate@),
{
    let mut result: Vec<Address> = Vec::new();
    match ledger.delegators.get(delegate) {
        None => {
            proof {
                assert(ids_of(result@) =~= Seq::<Id>::empty());
                assert forall|x: Id| !(ledger@.delegate_of(x) == Some(delegate@)) by {
                    if ledger@.delegate_of(x) == Some(delegate@) {
                        assert(ledger.delegations@.contains_key(x));
                        assert(listed(ledger.delegators, delegate@, x));
                    }
                }
            }
        },
        Some(stored) => {
            let mut i: usize = 0;
            while i < stored.len()
                invariant
                    i <= stored@.len(),
                    result@ == stored@.take(i as int),
                decreases stored@.len() - i,
            {
                result.push(stored[i].clone());
                proof {
                    assert(result@ =~= stored@.take(i + 1));
                }
                i += 1;
            }
            proof {
                assert(result@ =~= stored@);
                assert forall|x: Id|
                    ids_of(result@).contains(x) <==> ledger@.delegate_of(x) == Some(
                        delegate@,
                    ) by {
                    if ids_of(result@).contains(x) {
                        assert(listed(ledger.delegators, delegate@, x));
                    }
                    if ledger@.delegate_of(x) == Some(delegate@) {
                        assert(ledger.delegations@.contains_key(x));
                        assert(listed(ledger.delegators, delegate@, x));
                    }
                }
            }
        },
    }
    proof {
        assert(ids_of(result@).to_set() =~= ledger@.delegators_of(delegate@));
    }
    result
}

/// Whether `address` takes part in any delegation, as delegator or as
/// delegate.
pub fn has_delegation(ledger: &DelegationLedger, address: &Address) -> (involved: bool)
    requires
        ledger.wf(),
    ensures
        involved == ledger@.has_delegation(address@),
{
    if ledger.delegations.contains_key(address) {
        return true;
    }
    match ledger.delegators.get(address) {
        Some(stored) => {
            proof {
                let y = ids_of(stored@)[0];
                assert(ids_of(stored@).contains(y));
                assert(listed(ledger.delegators, address@, y));
                assert(ledger@.delegate_of(y) == Some(address@));
            }
            true
        },
        None => {
            proof {
                assert forall|y: Id| !(#[trigger] ledger@.delegate_of(y) == Some(address@)) by {
                    if ledger@.delegate_of(y) == Some(address@) {
                        assert(ledger.delegations@.contains_key(y));
                        assert(listed(ledger.delegators, address@, y));
                    }
                }
            }
            false
        },
    }
}

} // verus!
