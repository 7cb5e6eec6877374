//! The referral graph as a mathematical object.
//!
//! Every referee has one referrer, fixed when the referral is registered. A
//! referral is refused when the walk up from the new referrer meets the new
//! referee within [`MAX_DEPTH`] hops, and also when that walk is still not at
//! its end after [`MAX_DEPTH`] hops: a chain too long to inspect is not
//! extended. Under that rule the graph never holds a cycle.

use vstd::prelude::*;
use crate::address::Id;
use crate::chains::{
    acyclic, chain, leads_to, lemma_chain_prefix, lemma_new_edge_acyclic, target,
};

verus! {

/// How many hops the cycle check walks up from a new referrer.
pub const MAX_DEPTH: u32 = 5;

/// Why an operation of the referral engine was refused.
#[derive(Clone, Copy, Debug, PartialEq, Eq, Structural)]
pub enum ReferralError {
    /// A member tried to refer itself.
    SelfReferral,
    /// The referee has a referrer already.
    RefereeAlreadyReferred,
    /// The referee is an ancestor of the referrer, or the referrer's chain
    /// is too long to tell.
    CircularReferral,
    /// A conversion was claimed for a member that nobody referred.
    NotReferred,
    /// The member was marked as converted before.
    AlreadyConverted,
}

/// Conversion figures of one referrer.
#[derive(Clone, Copy, Debug, PartialEq, Eq, Structural)]
pub struct ReferralStats {
    pub total_invites: u32,
    pub converted: u32,
    pub pending: u32,
}

/// The two reward counters of one member.
pub struct RewardTally {
    /// Earned as a referrer; a claim sets it back to zero.
    pub amount: int,
    /// Earned as a referee.
    pub referee_amount: int,
}

/// The abstract state of the referral engine.
pub struct ReferralGraph {
    /// `referrer[x]` is the member that referred `x`.
    pub referrer: Map<Id, Id>,
    /// When the referral of `x` was registered.
    pub registered_at: Map<Id, u64>,
    /// The reward counters of the members that have any.
    pub rewards: Map<Id, RewardTally>,
    /// The referees that were marked as converted.
    pub converted: Set<Id>,
    /// The conversion counters kept per referrer.
    pub counters: Map<Id, ReferralStats>,
    /// The invitation code of each inviter that has one.
    pub codes: Map<Id, Seq<char>>,
}

impl ReferralGraph {
    /// The state without any referral.
    pub open spec fn empty() -> ReferralGraph {
        ReferralGraph {
            referrer: Map::empty(),
            registered_at: Map::empty(),
            rewards: Map::empty(),
            converted: Set::empty(),
            counters: Map::empty(),
            codes: Map::empty(),
        }
    }

    /// The invariant of the referral state: finitely many referrals, with
    /// their timestamps; nobody refers itself and no chain of referrals comes
    /// back to where it started; only referees are converted; and no
    /// counter exceeds the number of referrals, which fits 32 bits.
    pub open spec fn wf(self) -> bool {
        &&& self.referrer.dom().finite()
        &&& self.referrer.dom().len() <= u32::MAX
        &&& self.registered_at.dom() == self.referrer.dom()
        &&& forall|x: Id| #[trigger] self.referrer.contains_key(x) ==> self.referrer[x] != x
        &&& acyclic(self.referrer)
        &&& self.converted.subset_of(self.referrer.dom())
        &&& forall|x: Id| #[trigger]
            self.rewards.contains_key(x) ==> 0 <= self.rewards[x].amount
                <= self.referrer.dom().len() && 0 <= self.rewards[x].referee_amount
                <= self.referrer.dom().len()
        &&& forall|x: Id| #[trigger]
            self.counters.contains_key(x) ==> self.counters[x].converted <= self.converted.len()
    }

    /// The referrer of `referee`, if it was referred.
    pub open spec fn referrer_of(self, referee: Id) -> Option<Id> {
        target(self.referrer, referee)
    }

    /// The members that `inviter` referred.
    pub open spec fn invited(self, inviter: Id) -> Set<Id> {
        Set::new(|x: Id| self.referrer_of(x) == Some(inviter))
    }

    /// The members that `inviter` referred and that were marked as converted.
    pub open spec fn converted_of(self, inviter: Id) -> Set<Id> {
        Set::new(|x: Id| self.referrer_of(x) == Some(inviter) && self.converted.contains(x))
    }

    /// The reward counters of `member`; both zero where none are kept.
    pub open spec fn reward_of(self, member: Id) -> RewardTally {
        if self.rewards.contains_key(member) {
            self.rewards[member]
        } else {
            RewardTally { amount: 0, referee_amount: 0 }
        }
    }

    /// What `member` has earned as a referrer and not claimed yet.
    pub open spec fn reward_balance(self, member: Id) -> int {
        self.reward_of(member).amount
    }

    /// The conversion counters kept for `inviter`; all zero where none are.
    pub open spec fn counters_of(self, inviter: Id) -> ReferralStats {
        if self.counters.contains_key(inviter) {
            self.counters[inviter]
        } else {
            ReferralStats { total_invites: 0, converted: 0, pending: 0 }
        }
    }

    /// Whether the walk up from `from` meets `wanted` after at most `depth`
    /// hops.
    pub open spec fn found_within(self, from: Id, wanted: Id, depth: nat) -> bool {
        exists|hops: nat| hops <= depth && #[trigger] chain(self.referrer, from, hops) == Some(wanted)
    }

    /// Whether the cycle check refuses `referrer` as the referrer of
    /// `referee`: the walk up from `referrer` meets `referee` within
    /// `MAX_DEPTH` hops, or has not ended after `MAX_DEPTH` hops.
    pub open spec fn walk_rejects(self, referrer: Id, referee: Id) -> bool {
        self.found_within(referrer, referee, MAX_DEPTH as nat) || chain(
            self.referrer,
            referrer,
            (MAX_DEPTH + 1) as nat,
        ) is Some
    }

    /// Why a referral of `referee` by `referrer` is refused, if it is. The
    /// tests are made in this order.
    pub open spec fn register_refusal(self, referrer: Id, referee: Id) -> Option<ReferralError> {
        if referrer == referee {
            Some(ReferralError::SelfReferral)
        } else if self.referrer.contains_key(referee) {
            Some(ReferralError::RefereeAlreadyReferred)
        } else if self.walk_rejects(referrer, referee) {
            Some(ReferralError::CircularReferral)
        } else {
            None
        }
    }

    /// The state after the referral of `referee` by `referrer` was registered
    /// at `timestamp`: the edge is stored, the referrer has earned one more
    /// as a referrer and the referee one more as a referee.
    pub open spec fn register(self, referrer: Id, referee: Id, timestamp: u64) -> ReferralGraph {
        let credited = ReferralGraph {
            rewards: self.rewards.insert(
                referrer,
                RewardTally {
                    amount: self.reward_of(referrer).amount + 1,
                    referee_amount: self.reward_of(referrer).referee_amount,
                },
            ),
            ..self
        };
        ReferralGraph {
            referrer: self.referrer.insert(referee, referrer),
            registered_at: self.registered_at.insert(referee, timestamp),
            rewards: credited.rewards.insert(
                referee,
                RewardTally {
                    amount: credited.reward_of(referee).amount,
                    referee_amount: credited.reward_of(referee).referee_amount + 1,
                },
            ),
            ..self
        }
    }

    /// Whether a claim by `referrer` pays out: it has earned something.
    pub open spec fn claimable(self, referrer: Id) -> bool {
        self.rewards.contains_key(referrer) && self.rewards[referrer].amount > 0
    }

    /// The state after `referrer` has claimed what it earned as a referrer.
    pub open spec fn grant_reward(self, referrer: Id) -> ReferralGraph {
        if self.claimable(referrer) {
            ReferralGraph {
                rewards: self.rewards.insert(
                    referrer,
                    RewardTally {
                        amount: 0,
                        referee_amount: self.rewards[referrer].referee_amount,
                    },
                ),
                ..self
            }
        } else {
            self
        }
    }

    /// Why marking `user` as converted is refused, if it is.
    pub open spec fn conversion_refusal(self, user: Id) -> Option<ReferralError> {
        if !self.referrer.contains_key(user) {
            Some(ReferralError::NotReferred)
        } else if self.converted.contains(user) {
            Some(ReferralError::AlreadyConverted)
        } else {
            None
        }
    }

    /// The state after `user` was marked as converted: the flag is set, and
    /// the counters of its referrer show one conversion more and, unless
    /// there was none, one pending invitation less.
    pub open spec fn mark_converted(self, user: Id) -> ReferralGraph {
        let inviter = self.referrer[user];
        let kept = self.counters_of(inviter);
        ReferralGraph {
            converted: self.converted.insert(user),
            counters: self.counters.insert(
                inviter,
                ReferralStats {
                    total_invites: kept.total_invites,
                    converted: (kept.converted + 1) as u32,
                    pending: if kept.pending > 0 {
                        (kept.pending - 1) as u32
                    } else {
                        0
                    },
                },
            ),
            ..self
        }
    }

    /// The figures of `inviter`, counted over all referrals: how many members
    /// it referred, how many of them converted, and the rest.
    pub open spec fn referral_stats(self, inviter: Id) -> ReferralStats {
        ReferralStats {
            total_invites: self.invited(inviter).len() as u32,
            converted: self.converted_of(inviter).len() as u32,
            pending: (self.invited(inviter).len() - self.converted_of(inviter).len()) as u32,
        }
    }

    /// The state after `inviter` was given the invitation code `code`.
    pub open spec fn assign_code(self, inviter: Id, code: Seq<char>) -> ReferralGraph {
        ReferralGraph { codes: self.codes.insert(inviter, code), ..self }
    }
}

/// Marking a referee as converted for the first time keeps the state
/// well-formed, and the counter that goes up stays within 32 bits.
pub proof fn lemma_mark_converted_keeps_wf(g: ReferralGraph, user: Id)
    requires
        g.wf(),
        g.conversion_refusal(user) is None,
    ensures
        g.mark_converted(user).wf(),
        g.converted.finite(),
        g.counters_of(g.referrer[user]).converted < g.referrer.dom().len(),
        g.mark_converted(user).converted.len() == g.converted.len() + 1,
{
    let after = g.mark_converted(user);
    vstd::set_lib::lemma_len_subset(g.converted, g.referrer.dom());
    assert(after.converted.subset_of(g.referrer.dom()));
    vstd::set_lib::lemma_len_subset(after.converted, g.referrer.dom());
}

/// A referral that passes the three tests keeps the state well-formed; in
/// particular it closes no cycle.
pub proof fn lemma_register_keeps_wf(g: ReferralGraph, referrer: Id, referee: Id, timestamp: u64)
    requires
        g.wf(),
        g.register_refusal(referrer, referee) is None,
        g.referrer.dom().len() < u32::MAX,
    ensures
        g.register(referrer, referee, timestamp).wf(),
        g.register(referrer, referee, timestamp).referrer.dom().len() == g.referrer.dom().len()
            + 1,
{
    let after = g.register(referrer, referee, timestamp);
    assert(!leads_to(g.referrer, referrer, referee)) by {
        if leads_to(g.referrer, referrer, referee) {
            let k = choose|hops: nat|
                hops >= 1 && #[trigger] chain(g.referrer, referrer, hops) == Some(referee);
            if k > MAX_DEPTH {
                lemma_chain_prefix(g.referrer, referrer, k);
                if k > MAX_DEPTH + 1 {
                    assert(chain(g.referrer, referrer, (MAX_DEPTH + 1) as nat) is Some);
                }
            }
        }
    }
    lemma_new_edge_acyclic(g.referrer, referee, referrer);
    assert(after.referrer.dom() =~= g.referrer.dom().insert(referee));
    assert(after.registered_at.dom() =~= after.referrer.dom());
}

/// A claim keeps the state well-formed and leaves nothing to claim.
pub proof fn law_claim_leaves_nothing(g: ReferralGraph, referrer: Id)
    requires
        g.wf(),
    ensures
        g.grant_reward(referrer).wf(),
        g.grant_reward(referrer).reward_balance(referrer) == 0,
        !g.grant_reward(referrer).claimable(referrer),
{
}

/// Nobody can refer itself: such a referral is refused as `SelfReferral`
/// whatever the state.
pub proof fn law_self_referral_refused(g: ReferralGraph, a: Id)
    ensures
        g.register_refusal(a, a) == Some(ReferralError::SelfReferral),
{
}

/// Once `referrer` has referred `referee`, the same referral is refused as
/// `RefereeAlreadyReferred`, and so is any other referral of `referee`.
pub proof fn law_one_referrer_per_referee(
    g: ReferralGraph,
    referrer: Id,
    referee: Id,
    timestamp: u64,
    other: Id,
)
    requires
        g.wf(),
        g.register_refusal(referrer, referee) is None,
        other != referee,
    ensures
        g.register(referrer, referee, timestamp).referrer_of(referee) == Some(referrer),
        g.register(referrer, referee, timestamp).register_refusal(other, referee) == Some(
            ReferralError::RefereeAlreadyReferred,
        ),
{
}

/// After `a` has referred `b`, a referral of `a` by `b` is refused: as
/// `CircularReferral` when `a` has no referrer, and as
/// `RefereeAlreadyReferred` when it has one.
pub proof fn law_reverse_referral_refused(g: ReferralGraph, a: Id, b: Id, timestamp: u64)
    requires
        g.wf(),
        g.register_refusal(a, b) is None,
    ensures
        g.register(a, b, timestamp).register_refusal(b, a) == Some(
            if g.referrer.contains_key(a) {
                ReferralError::RefereeAlreadyReferred
            } else {
                ReferralError::CircularReferral
            },
        ),
{
    let after = g.register(a, b, timestamp);
    if !g.referrer.contains_key(a) {
        assert(chain(after.referrer, b, 0) == Some(b));
        assert(chain(after.referrer, b, 1) == crate::chains::next(
            after.referrer,
            chain(after.referrer, b, 0),
        ));
        assert(chain(after.referrer, b, 1) == Some(a));
        assert(after.found_within(b, a, MAX_DEPTH as nat));
    }
}

/// A registered referral raises what the referrer can claim by one, and a
/// claim sets it back to zero.
pub proof fn law_reward_claim_resets(g: ReferralGraph, referrer: Id, referee: Id, timestamp: u64)
    requires
        g.wf(),
        g.register_refusal(referrer, referee) is None,
    ensures
        g.register(referrer, referee, timestamp).reward_balance(referrer) == g.reward_balance(
            referrer,
        ) + 1,
        g.register(referrer, referee, timestamp).reward_of(referee).referee_amount
            == g.reward_of(referee).referee_amount + 1,
        g.register(referrer, referee, timestamp).claimable(referrer),
        g.register(referrer, referee, timestamp).grant_reward(referrer).reward_balance(referrer)
            == 0,
{
}

/// The figures of a referrer add up: the invitations are the converted ones
/// and the pending ones, and each figure is the size of the set it counts.
pub proof fn law_stats_consistent(g: ReferralGraph, inviter: Id)
    requires
        g.wf(),
    ensures
        g.referral_stats(inviter).total_invites == g.referral_stats(inviter).converted
            + g.referral_stats(inviter).pending,
        g.referral_stats(inviter).total_invites == g.invited(inviter).len(),
        g.referral_stats(inviter).converted == g.converted_of(inviter).len(),
{
    assert(g.invited(inviter).subset_of(g.referrer.dom()));
    vstd::set_lib::lemma_len_subset(g.invited(inviter), g.referrer.dom());
    assert(g.converted_of(inviter).subset_of(g.invited(inviter)));
    vstd::set_lib::lemma_len_subset(g.converted_of(inviter), g.invited(inviter));
}

/// In a well-formed state no chain of referrals leads from a member back
/// to it.
pub proof fn law_no_referral_cycle(g: ReferralGraph, x: Id)
    requires
        g.wf(),
    ensures
        !leads_to(g.referrer, x, x),
        g.referrer_of(x) != Some(x),
{
}

} // verus!
