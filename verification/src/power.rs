//! Base power and effective voting power.

use vstd::prelude::*;
use vstd::set_lib::*;
use crate::address::{Address, Id};
use crate::chains::{chain, lemma_chain_ended, lemma_leads_within, next};
use crate::delegation::{DelegationError, DelegationLedger};
use crate::graph::{
    lemma_total_base_empty, lemma_total_base_insert, lemma_total_base_subset, total_base,
};

verus! {

/// The base power that a member has when none was set.
pub const DEFAULT_BASE_POWER: i128 = 1;

/// The base power of `member`: what was set for it, or 1.
pub fn get_base_power(ledger: &DelegationLedger, member: &Address) -> (power: i128)
    requires
        ledger.wf(),
    ensures
        power == ledger@.base_power(member@),
        power > 0,
{
    proof {
        ledger.lemma_parts();
    }
    match ledger.powers.get(member) {
        Some(power) => *power,
        None => DEFAULT_BASE_POWER,
    }
}

/// Sets the base power of `member`. A positive amount is stored as it is;
/// zero or less deletes the entry, so that the member is back at the default.
pub fn set_base_power(ledger: &mut DelegationLedger, member: &Address, power: i128)
    requires
        old(ledger).wf(),
    ensures
        final(ledger).wf(),
        final(ledger)@ == old(ledger)@.set_base_power(member@, power),
{
    if power <= 0 {
        ledger.powers.remove(member);
    } else {
        ledger.powers.insert(member.clone(), power);
    }
}

/// Whether the chain of delegations that starts at `from` arrives at `target`.
fn leads_to(ledger: &DelegationLedger, from: &Address, target: &Address) -> (arrives: bool)
    requires
        ledger.wf(),
    ensures
        arrives == ledger@.leads_to(from@, target@),
{
    proof {
        ledger.lemma_parts();
    }
    let limit = ledger.delegations.len();
    let mut current: &Address = from;
    let mut hops: usize = 0;
    while hops < limit
        invariant
            ledger.wf(),
            hops <= limit,
            limit == ledger@.delegate.dom().len(),
            chain(ledger@.delegate, from@, hops as nat) == Some(current@),
            forall|k: nat| 1 <= k <= hops ==> #[trigger] chain(ledger@.delegate, from@, k) != Some(target@),
        decreases limit - hops,
    {
        proof {
            ledger.lemma_parts();
            assert(chain(ledger@.delegate, from@, (hops + 1) as nat) == next(
                ledger@.delegate,
                chain(ledger@.delegate, from@, hops as nat),
            ));
        }
        match ledger.delegations.get(current) {
            None => {
                proof {
                    assert(chain(ledger@.delegate, from@, (hops + 1) as nat) is None);
                    assert forall|k: nat| k >= 1 implies #[trigger] chain(ledger@.delegate, from@, k)
                        != Some(target@) by {
                        if k > hops {
                            lemma_chain_ended(ledger@.delegate, from@, (hops + 1) as nat, k);
                        }
                    }
                }
                return false;
            },
            Some(next) => {
                if *next == *target {
                    return true;
                }
                current = next;
                hops += 1;
            },
        }
    }
    proof {
        if ledger@.leads_to(from@, target@) {
            let k = choose|k: nat| k >= 1 && #[trigger] chain(ledger@.delegate, from@, k) == Some(target@);
            lemma_leads_within(ledger@.delegate, from@, target@, k);
        }
    }
    false
}

/// The supporters of `m` among the first `i` delegators of the scan.
spec fn counted(ledger: &DelegationLedger, m: Id, i: int) -> Set<Id> {
    Set::new(
        |x: Id|
            ledger@.leads_to(x, m) && ledger.delegations.ids().take(i).contains(x),
    )
}

/// The effective voting power of `member`: its own base power plus the base
/// power of every member whose chain of delegations leads to it.
///
/// A member on a cycle of delegations has no such power:
/// `CircularDelegation`. A power beyond the 128-bit range is `PowerOverflow`.
pub fn get_voting_power(ledger: &DelegationLedger, member: &Address) -> (result: Result<
    i128,
    DelegationError,
>)
    requires
        ledger.wf(),
    ensures
        match result {
            Ok(power) => !ledger@.in_cycle(member@) && power == ledger@.voting_power(member@),
            Err(DelegationError::CircularDelegation) => ledger@.in_cycle(member@),
            Err(DelegationError::PowerOverflow) => !ledger@.in_cycle(member@)
                && ledger@.voting_power(member@) > i128::MAX,
            Err(_) => false,
        },
{
    if leads_to(ledger, member, member) {
        return Err(DelegationError::CircularDelegation);
    }
    let mut total: i128 = get_base_power(ledger, member);
    let count = ledger.delegations.len();
    let mut i: usize = 0;
    proof {
        ledger.lemma_parts();
        ledger@.lemma_supporters_finite(member@);
        assert(counted(ledger, member@, 0) =~= Set::<Id>::empty());
        lemma_total_base_empty(ledger@.base);
    }
    while i < count
        invariant
            ledger.wf(),
            i <= count,
            count == ledger.delegations.ids().len(),
            total == ledger@.base_power(member@) + total_base(
                ledger@.base,
                counted(ledger, member@, i as int),
            ),
            total > 0,
            !ledger@.in_cycle(member@),
        decreases count - i,
    {
        let delegator = ledger.delegations.key_at(i);
        let ghost ids = ledger.delegations.ids();
        let ghost before = counted(ledger, member@, i as int);
        let ghost after = counted(ledger, member@, i + 1);
        proof {
            ledger.lemma_parts();
            ledger@.lemma_supporters_finite(member@);
            assert(ids.take(i + 1) =~= ids.take(i as int).push(ids[i as int]));
            assert(!ids.take(i as int).contains(ids[i as int]));
            assert(before.subset_of(ledger@.supporters(member@)));
            assert(after.subset_of(ledger@.supporters(member@)));
            lemma_len_subset(before, ledger@.supporters(member@));
            assert forall|x: Id| ids.take(i + 1).contains(x) <==> (x == ids[i as int]
                || ids.take(i as int).contains(x)) by {
                if ids.take(i as int).contains(x) {
                    let p = ids.take(i as int).index_of(x);
                    assert(ids.take(i + 1)[p] == x);
                }
                if x == ids[i as int] {
                    assert(ids.take(i + 1)[i as int] == x);
                }
            }
        }
        if leads_to(ledger, delegator, member) {
            let share = get_base_power(ledger, delegator);
            proof {
                assert(after =~= before.insert(delegator@));
                lemma_total_base_insert(ledger@.base, before, delegator@);
            }
            match total.checked_add(share) {
                Some(sum) => {
                    total = sum;
                },
                None => {
                    proof {
                        lemma_total_base_subset(
                            ledger@.base,
                            after,
                            ledger@.supporters(member@),
                        );
                    }
                    return Err(DelegationError::PowerOverflow);
                },
            }
        } else {
            proof {
                assert(after =~= before);
            }
        }
        i += 1;
    }
    proof {
        ledger.lemma_parts();
        ledger@.lemma_supporters_finite(member@);
        let ids = ledger.delegations.ids();
        assert(ids.take(count as int) =~= ids);
        assert(counted(ledger, member@, count as int) =~= ledger@.supporters(member@)) by {
            assert forall|x: Id| ledger@.supporters(member@).contains(x) implies ids.contains(
                x,
            ) by {
                assert(ledger@.delegate.dom().contains(x));
                assert(ids.to_set().contains(x));
            }
        }
    }
    Ok(total)
}

} // verus!
