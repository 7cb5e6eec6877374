//! The referral engine: who referred whom, what that earned, and who
//! converted.

use vstd::prelude::*;
use vstd::set_lib::*;
use crate::address::{ids_of, lemma_ids_of_push, Address, Id};
use crate::chains::{chain, lemma_chain_ended, next};
use crate::referral_graph::{
    lemma_register_keeps_wf, ReferralError, ReferralGraph, ReferralStats, RewardTally,
    MAX_DEPTH,
};
use crate::scan::{lemma_seen_all, lemma_seen_none, lemma_seen_step, seen};
use crate::store::AddressMap;

verus! {

/// A referral: `referrer` brought `referee` in at `timestamp`.
#[derive(Clone, Debug, PartialEq, Eq)]
pub struct Referral {
    pub referee: Address,
    pub referrer: Address,
    pub timestamp: u64,
}

/// The reward counters of one member.
#[derive(Clone, Debug, PartialEq, Eq)]
pub struct Reward {
    /// The member that the counters belong to.
    pub referrer: Address,
    /// Earned as a referrer; a claim sets it back to zero.
    pub amount: i128,
    /// Earned as a referee.
    pub referee_amount: i128,
}

/// The key under which the referrals of the current campaign are kept.
pub const REFERRALS: &'static str = "referrals";

/// The key under which the referrals of the current campaign are kept.
pub fn get_campaign_key() -> (key: &'static str)
    ensures
        key@ == REFERRALS@,
{
    REFERRALS
}

/// The persistent state of the referral engine.
pub struct ReferralLedger {
    /// referee -> its referral
    pub(crate) referrals: AddressMap<Referral>,
    /// member -> its reward counters
    pub(crate) rewards: AddressMap<Reward>,
    /// the converted referees
    pub(crate) converted: AddressMap<bool>,
    /// referrer -> its conversion counters
    pub(crate) counters: AddressMap<ReferralStats>,
    /// inviter -> its invitation code
    pub(crate) codes: AddressMap<String>,
}

impl View for ReferralLedger {
    type V = ReferralGraph;

    open(crate) spec fn view(&self) -> ReferralGraph {
        ReferralGraph {
            referrer: Map::new(
                |x: Id| self.referrals@.contains_key(x),
                |x: Id| self.referrals@[x].referrer@,
            ),
            registered_at: Map::new(
                |x: Id| self.referrals@.contains_key(x),
                |x: Id| self.referrals@[x].timestamp,
            ),
            rewards: Map::new(
                |x: Id| self.rewards@.contains_key(x),
                |x: Id|
                    RewardTally {
                        amount: self.rewards@[x].amount as int,
                        referee_amount: self.rewards@[x].referee_amount as int,
                    },
            ),
            converted: self.converted@.dom(),
            counters: self.counters@,
            codes: Map::new(|x: Id| self.codes@.contains_key(x), |x: Id| self.codes@[x]@),
        }
    }
}

impl ReferralLedger {
    /// The invariant of the ledger: no table holds a key twice, and the
    /// state is a well-formed referral graph.
    pub open(crate) spec fn wf(&self) -> bool {
        &&& self.referrals.wf()
        &&& self.rewards.wf()
        &&& self.converted.wf()
        &&& self.counters.wf()
        &&& self.codes.wf()
        &&& self@.wf()
        &&& forall|x: Id| #[trigger]
            self.referrals@.contains_key(x) ==> self.referrals@[x].referee@ == x
        &&& forall|x: Id| #[trigger]
            self.rewards@.contains_key(x) ==> self.rewards@[x].referrer@ == x
    }

    /// The state of a well-formed ledger is well-formed.
    pub proof fn lemma_graph_wf(&self)
        requires
            self.wf(),
        ensures
            self@.wf(),
    {
    }

    /// What the tables of a well-formed ledger have to do with its state.
    pub(crate) proof fn lemma_parts(&self)
        requires
            self.wf(),
        ensures
            self@.referrer.dom() =~= self.referrals@.dom(),
            self@.referrer.dom() =~= self.referrals.ids().to_set(),
            self@.referrer.dom().len() == self.referrals.ids().len(),
            self.referrals.ids().no_duplicates(),
            self.referrals.ids().len() <= u32::MAX,
            self@.converted.finite(),
            self@.converted.len() == self.converted.ids().len(),
            self@.converted.len() <= self@.referrer.dom().len(),
            forall|x: Id| self.referrals.ids().contains(x) <==> self@.referrer.contains_key(x),
    {
        self.referrals.lemma_view();
        self.converted.lemma_view();
        assert(self@.referrer.dom() =~= self.referrals@.dom());
        lemma_len_subset(self@.converted, self@.referrer.dom());
    }

    /// The ledger without any referral.
    pub fn new() -> (ledger: ReferralLedger)
        ensures
            ledger.wf(),
            ledger@ == ReferralGraph::empty(),
    {
        let ledger = ReferralLedger {
            referrals: AddressMap::new(),
            rewards: AddressMap::new(),
            converted: AddressMap::new(),
            counters: AddressMap::new(),
            codes: AddressMap::new(),
        };
        proof {
            assert(ledger@.referrer =~= Map::<Id, Id>::empty());
            assert(ledger@.registered_at =~= Map::<Id, u64>::empty());
            assert(ledger@.rewards =~= Map::<Id, RewardTally>::empty());
            assert(ledger@.converted =~= Set::<Id>::empty());
            assert(ledger@.codes =~= Map::<Id, Seq<char>>::empty());
            assert forall|x: Id| !crate::chains::leads_to(ledger@.referrer, x, x) by {
                if crate::chains::leads_to(ledger@.referrer, x, x) {
                    let k = choose|hops: nat|
                        hops >= 1 && #[trigger] chain(ledger@.referrer, x, hops) == Some(x);
                    crate::chains::lemma_chain_prefix(ledger@.referrer, x, k);
                    assert(chain(ledger@.referrer, x, 0) is Some);
                }
            }
        }
        ledger
    }

    /// The referral of `referee` as it is stored, if it was referred.
    pub fn referral(&self, referee: &Address) -> (stored: Option<&Referral>)
        requires
            self.wf(),
        ensures
            match stored {
                Some(referral) => self@.referrer_of(referee@) == Some(referral.referrer@)
                    && referral.referee@ == referee@ && self@.registered_at[referee@]
                    == referral.timestamp,
                None => self@.referrer_of(referee@) is None,
            },
    {
        self.referrals.get(referee)
    }

    /// The reward counters of `member` as they are stored, if it has any.
    pub fn reward(&self, member: &Address) -> (stored: Option<&Reward>)
        requires
            self.wf(),
        ensures
            match stored {
                Some(reward) => self@.rewards.contains_key(member@) && reward.referrer@ == member@
                    && reward.amount == self@.reward_of(member@).amount && reward.referee_amount
                    == self@.reward_of(member@).referee_amount,
                None => !self@.rewards.contains_key(member@),
            },
    {
        self.rewards.get(member)
    }

    /// The number of referrals on record.
    pub fn referral_count(&self) -> (n: usize)
        requires
            self.wf(),
        ensures
            n == self@.referrer.dom().len(),
            n <= u32::MAX,
    {
        proof {
            self.lemma_parts();
        }
        self.referrals.len()
    }
}

/// The cycle check: walks up from `referrer` and says whether the referral
/// of `referee` by `referrer` has to be refused.
fn has_cycle(ledger: &ReferralLedger, referrer: &Address, referee: &Address) -> (refused: bool)
    requires
        ledger.wf(),
    ensures
        refused == ledger@.walk_rejects(referrer@, referee@),
{
    let mut current: &Address = referrer;
    let mut depth: u32 = 0;
    while depth <= MAX_DEPTH
        invariant
            ledger.wf(),
            depth <= MAX_DEPTH + 1,
            chain(ledger@.referrer, referrer@, depth as nat) == Some(current@),
            forall|h: nat| h < depth ==> #[trigger] chain(ledger@.referrer, referrer@, h) != Some(
                referee@,
            ),
        decreases MAX_DEPTH + 1 - depth,
    {
        if *current == *referee {
            return true;
        }
        proof {
            assert(chain(ledger@.referrer, referrer@, (depth + 1) as nat) == next(
                ledger@.referrer,
                chain(ledger@.referrer, referrer@, depth as nat),
            ));
        }
        match ledger.referrals.get(current) {
            Some(referral) => {
                current = &referral.referrer;
                depth += 1;
            },
            None => {
                proof {
                    let ended = (depth + 1) as nat;
                    assert(chain(ledger@.referrer, referrer@, ended) is None);
                    lemma_chain_ended(
                        ledger@.referrer,
                        referrer@,
                        ended,
                        (MAX_DEPTH + 1) as nat,
                    );
                    assert forall|h: nat| h <= MAX_DEPTH implies #[trigger] chain(
                        ledger@.referrer,
                        referrer@,
                        h,
                    ) != Some(referee@) by {
                        if h > depth {
                            lemma_chain_ended(ledger@.referrer, referrer@, ended, h);
                        }
                    }
                }
                return false;
            },
        }
    }
    true
}

/// Registers that `referrer` referred `referee`, at `timestamp`.
///
/// Refused, with nothing changed, when the two are the same member, when
/// `referee` has a referrer already, or when the cycle check objects, in
/// this order. Otherwise the referral is stored, `referrer` earns one as a
/// referrer and `referee` one as a referee.
pub fn register_referral(
    ledger: &mut ReferralLedger,
    referrer: &Address,
    referee: &Address,
    timestamp: u64,
) -> (result: Result<(), ReferralError>)
    requires
        old(ledger).wf(),
        old(ledger)@.referrer.dom().len() < u32::MAX,
    ensures
        final(ledger).wf(),
        match old(ledger)@.register_refusal(referrer@, referee@) {
            Some(reason) => result == Err::<(), ReferralError>(reason) && *final(ledger) == *old(
                ledger,
            ),
            None => result == Ok::<(), ReferralError>(()) && final(ledger)@ == old(
                ledger,
            )@.register(referrer@, referee@, timestamp),
        },
{
    if *referrer == *referee {
        return Err(ReferralError::SelfReferral);
    }
    if ledger.referrals.contains_key(referee) {
        return Err(ReferralError::RefereeAlreadyReferred);
    }
    if has_cycle(ledger, referrer, referee) {
        return Err(ReferralError::CircularReferral);
    }
    let ghost before = *ledger;
    proof {
        before.lemma_parts();
        lemma_register_keeps_wf(before@, referrer@, referee@, timestamp);
    }
    ledger.referrals.insert(
        referee.clone(),
        Referral { referee: referee.clone(), referrer: referrer.clone(), timestamp },
    );

    let referrer_reward = match ledger.rewards.get(referrer) {
        Some(reward) => Reward {
            referrer: referrer.clone(),
            amount: reward.amount + 1,
            referee_amount: reward.referee_amount,
        },
        None => Reward { referrer: referrer.clone(), amount: 1, referee_amount: 0 },
    };
    ledger.rewards.insert(referrer.clone(), referrer_reward);

    let referee_reward = match ledger.rewards.get(referee) {
        Some(reward) => Reward {
            referrer: referee.clone(),
            amount: reward.amount,
            referee_amount: reward.referee_amount + 1,
        },
        None => Reward { referrer: referee.clone(), amount: 0, referee_amount: 1 },
    };
    ledger.rewards.insert(referee.clone(), referee_reward);
    proof {
        let expected = before@.register(referrer@, referee@, timestamp);
        assert(ledger@.referrer =~= expected.referrer);
        assert(ledger@.registered_at =~= expected.registered_at);
        assert(ledger@.rewards =~= expected.rewards);
        assert(ledger@.codes =~= expected.codes);
        assert(ledger@ == expected);
    }
    Ok(())
}

/// The referrer of `referee`, if it was referred.
pub fn get_referrer(ledger: &ReferralLedger, referee: &Address) -> (referrer: Option<Address>)
    requires
        ledger.wf(),
    ensures
        match referrer {
            Some(r) => ledger@.referrer_of(referee@) == Some(r@),
            None => ledger@.referrer_of(referee@) is None,
        },
{
    match ledger.referrals.get(referee) {
        Some(referral) => Some(referral.referrer.clone()),
        None => None,
    }
}

/// Pays out what `referrer` has earned as a referrer: returns the amount
/// and sets the counter back to zero. Where nothing was earned, nothing is
/// paid and nothing changes.
pub fn grant_reward(ledger: &mut ReferralLedger, referrer: &Address) -> (paid: Option<i128>)
    requires
        old(ledger).wf(),
    ensures
        final(ledger).wf(),
        final(ledger)@ == old(ledger)@.grant_reward(referrer@),
        match paid {
            Some(amount) => old(ledger)@.claimable(referrer@) && amount == old(
                ledger,
            )@.reward_balance(referrer@),
            None => !old(ledger)@.claimable(referrer@) && *final(ledger) == *old(ledger),
        },
{
    let ghost before = *ledger;
    let (amount, referee_amount) = match ledger.rewards.get(referrer) {
        Some(reward) => (reward.amount, reward.referee_amount),
        None => {
            return None;
        },
    };
    if amount > 0 {
        ledger.rewards.insert(
            referrer.clone(),
            Reward { referrer: referrer.clone(), amount: 0, referee_amount },
        );
        proof {
            assert(ledger@.rewards =~= before@.grant_reward(referrer@).rewards);
        }
        Some(amount)
    } else {
        None
    }
}

/// Whether `user` was referred by somebody.
pub fn has_been_referred(ledger: &ReferralLedger, user: &Address) -> (referred: bool)
    requires
        ledger.wf(),
    ensures
        referred == ledger@.referrer.contains_key(user@),
{
    ledger.referrals.contains_key(user)
}

/// The members that `referrer` referred, each once. The order of the list
/// is not promised.
pub fn list_referrals(ledger: &ReferralLedger, referrer: &Address) -> (referees: Vec<Address>)
    requires
        ledger.wf(),
    ensures
        ids_of(referees@).no_duplicates(),
        forall|x: Id| ids_of(referees@).contains(x) <==> ledger@.referrer_of(x) == Some(referrer@),
        ids_of(referees@).to_set() == ledger@.invited(referrer@),
{
    let mut result: Vec<Address> = Vec::new();
    let count = ledger.referrals.len();
    let mut i: usize = 0;
    let ghost ids = ledger.referrals.ids();
    let ghost wanted = ledger@.invited(referrer@);
    proof {
        ledger.lemma_parts();
        lemma_seen_none(wanted, ids);
        assert(ids_of(result@) =~= Seq::<Id>::empty());
    }
    while i < count
        invariant
            ledger.wf(),
            i <= count,
            count == ids.len(),
            ids == ledger.referrals.ids(),
            ids.no_duplicates(),
            wanted == ledger@.invited(referrer@),
            ids_of(result@).no_duplicates(),
            forall|x: Id| ids_of(result@).contains(x) <==> seen(wanted, ids, i as int).contains(x),
        decreases count - i,
    {
        proof {
            lemma_seen_step(wanted, ids, i as int);
        }
        let referral = ledger.referrals.value_at(i);
        proof {
            assert(ledger@.referrer.contains_key(ids[i as int]));
            assert(ledger@.referrer[ids[i as int]] == referral.referrer@);
            assert(wanted.contains(ids[i as int]) <==> referral.referrer@ == referrer@);
        }
        if referral.referrer == *referrer {
            let ghost prev = result@;
            let referee = ledger.referrals.key_at(i).clone();
            result.push(referee);
            proof {
                lemma_ids_of_push(prev, referee);
                assert(result@ == prev.push(referee));
                assert(referee@ == ids[i as int]);
                assert(!ids_of(prev).contains(referee@));
                assert forall|x: Id|
                    ids_of(result@).contains(x) <==> seen(wanted, ids, i + 1).contains(x) by {
                    assert(seen(wanted, ids, i + 1).contains(x) <==> (x == ids[i as int]
                        || seen(wanted, ids, i as int).contains(x)));
                    assert(ids_of(prev).contains(x) <==> seen(wanted, ids, i as int).contains(x));
                    assert(ids_of(prev.push(referee)).contains(x) <==> (x == referee@ || ids_of(
                        prev,
                    ).contains(x)));
                }
            }
        } else {
            proof {
                assert(seen(wanted, ids, i + 1) == seen(wanted, ids, i as int));
            }
        }
        i += 1;
    }
    proof {
        assert forall|x: Id| wanted.contains(x) implies ids.contains(x) by {
            assert(ledger@.referrer.contains_key(x));
        }
        lemma_seen_all(wanted, ids);
        assert(ids_of(result@).to_set() =~= wanted);
    }
    result
}

/// What `referrer` has earned as a referrer and not claimed yet.
pub fn get_reward_balance(ledger: &ReferralLedger, referrer: &Address) -> (balance: i128)
    requires
        ledger.wf(),
    ensures
        balance == ledger@.reward_balance(referrer@),
{
    match ledger.rewards.get(referrer) {
        Some(reward) => reward.amount,
        None => 0,
    }
}

/// Whether `user` was marked as converted.
pub fn is_converted(ledger: &ReferralLedger, user: &Address) -> (converted: bool)
    requires
        ledger.wf(),
    ensures
        converted == ledger@.converted.contains(user@),
{
    ledger.converted.contains_key(user)
}

} // verus!
