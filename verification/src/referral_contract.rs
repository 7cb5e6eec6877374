//! The referral contract: the referral engine together with conversions,
//! statistics, the leaderboard and invitation codes.

use vstd::prelude::*;
use vstd::set_lib::*;
use vstd::string::*;
use crate::address::{ids_of, Address, Id};
use crate::codes::{code_of, hash_to_code};
use crate::referral::{
    get_referrer, get_reward_balance, grant_reward, has_been_referred, is_converted,
    list_referrals, register_referral, ReferralLedger,
};
use crate::referral_graph::{
    lemma_mark_converted_keeps_wf, ReferralError, ReferralGraph, ReferralStats,
};
use crate::scan::{lemma_seen_all, lemma_seen_none, lemma_seen_step, seen};
use crate::store::AddressMap;

verus! {

/// One line of the leaderboard: a referrer and how many of its referees
/// converted.
#[derive(Clone, Debug, PartialEq, Eq)]
pub struct ReferralLeaderboardEntry {
    pub address: Address,
    pub converted: u32,
}

/// The referrers of a leaderboard, from the top down.
pub open spec fn board_ids(board: Seq<ReferralLeaderboardEntry>) -> Seq<Id> {
    Seq::new(board.len(), |i: int| board[i].address@)
}

/// Whether the conversion counts of `board` never go up from one line to the
/// next.
pub open spec fn descending(board: Seq<ReferralLeaderboardEntry>) -> bool {
    forall|i: int, j: int| 0 <= i < j < board.len() ==> board[i].converted >= board[j].converted
}

/// Whether `board` is a leaderboard of the state `g`: it lists each referrer
/// with at least one converted referee once, with the number of its
/// converted referees, and no one else, in descending order of that number.
pub open spec fn is_leaderboard(g: ReferralGraph, board: Seq<ReferralLeaderboardEntry>) -> bool {
    &&& descending(board)
    &&& board_ids(board).no_duplicates()
    &&& forall|i: int|
        0 <= i < board.len() ==> board[i].converted >= 1 && #[trigger] board[i].converted
            == g.converted_of(board[i].address@).len()
    &&& forall|r: Id| #[trigger]
        g.converted_of(r).len() >= 1 ==> board_ids(board).contains(r)
}

/// Counts, for each referrer, its converted referees; a referrer without
/// any gets no entry.
fn tally_conversions(ledger: &ReferralLedger) -> (tally: AddressMap<u32>)
    requires
        ledger.wf(),
    ensures
        tally.wf(),
        forall|r: Id| #[trigger] tally@.contains_key(r) <==> ledger@.converted_of(r).len() >= 1,
        forall|r: Id| #[trigger]
            tally@.contains_key(r) ==> tally@[r] == ledger@.converted_of(r).len(),
{
    let mut tally: AddressMap<u32> = AddressMap::new();
    let count = ledger.referrals.len();
    let mut i: usize = 0;
    let ghost ids = ledger.referrals.ids();
    proof {
        ledger.lemma_parts();
        assert forall|r: Id| seen(ledger@.converted_of(r), ids, 0).len() == 0 by {
            lemma_seen_none(ledger@.converted_of(r), ids);
        }
    }
    while i < count
        invariant
            ledger.wf(),
            tally.wf(),
            i <= count,
            count == ids.len(),
            count <= u32::MAX,
            ids == ledger.referrals.ids(),
            ids.no_duplicates(),
            forall|r: Id| #[trigger]
                tally@.contains_key(r) <==> seen(ledger@.converted_of(r), ids, i as int).len()
                    >= 1,
            forall|r: Id| #[trigger]
                tally@.contains_key(r) ==> tally@[r] == seen(
                    ledger@.converted_of(r),
                    ids,
                    i as int,
                ).len(),
        decreases count - i,
    {
        let referral = ledger.referrals.value_at(i);
        let referee = ledger.referrals.key_at(i);
        let ghost before = tally;
        proof {
            assert(ledger@.referrer.contains_key(ids[i as int]));
            assert(ledger@.referrer[ids[i as int]] == referral.referrer@);
        }
        if is_converted(ledger, referee) {
            let so_far: u32 = match tally.get(&referral.referrer) {
                Some(n) => *n,
                None => 0,
            };
            proof {
                lemma_seen_step(ledger@.converted_of(referral.referrer@), ids, i as int);
            }
            tally.insert(referral.referrer.clone(), so_far + 1);
        }
        proof {
            let inviter = referral.referrer@;
            assert forall|r: Id|
                (#[trigger] tally@.contains_key(r) <==> seen(
                    ledger@.converted_of(r),
                    ids,
                    i + 1,
                ).len() >= 1) && (tally@.contains_key(r) ==> tally@[r] == seen(
                    ledger@.converted_of(r),
                    ids,
                    i + 1,
                ).len()) by {
                lemma_seen_step(ledger@.converted_of(r), ids, i as int);
                assert(before@.contains_key(r) <==> seen(
                    ledger@.converted_of(r),
                    ids,
                    i as int,
                ).len() >= 1);
                if before@.contains_key(r) {
                    assert(before@[r] == seen(ledger@.converted_of(r), ids, i as int).len());
                }
                assert(ledger@.converted_of(r).contains(ids[i as int]) <==> (r == inviter
                    && ledger@.converted.contains(ids[i as int])));
            }
        }
        i += 1;
    }
    proof {
        assert forall|r: Id|
            seen(ledger@.converted_of(r), ids, count as int) == ledger@.converted_of(r) by {
            assert forall|x: Id| ledger@.converted_of(r).contains(x) implies ids.contains(x) by {
                assert(ledger@.referrer.contains_key(x));
            }
            lemma_seen_all(ledger@.converted_of(r), ids);
        }
    }
    tally
}

/// Lists the entries of `tally`, the larger counts first.
fn rank(tally: &AddressMap<u32>) -> (board: Vec<ReferralLeaderboardEntry>)
    requires
        tally.wf(),
    ensures
        descending(board@),
        board_ids(board@).no_duplicates(),
        forall|i: int|
            0 <= i < board@.len() ==> tally@.contains_key(#[trigger] board@[i].address@)
                && board@[i].converted == tally@[board@[i].address@],
        forall|x: Id| board_ids(board@).contains(x) <==> tally@.contains_key(x),
{
    let mut board: Vec<ReferralLeaderboardEntry> = Vec::new();
    let count = tally.len();
    let mut k: usize = 0;
    let ghost ids = tally.ids();
    proof {
        tally.lemma_view();
        assert(board_ids(board@) =~= Seq::<Id>::empty());
    }
    while k < count
        invariant
            tally.wf(),
            k <= count,
            count == ids.len(),
            ids == tally.ids(),
            ids.no_duplicates(),
            descending(board@),
            board_ids(board@).no_duplicates(),
            forall|i: int|
                0 <= i < board@.len() ==> tally@.contains_key(#[trigger] board@[i].address@)
                    && board@[i].converted == tally@[board@[i].address@],
            forall|x: Id| board_ids(board@).contains(x) <==> ids.take(k as int).contains(x),
        decreases count - k,
    {
        let address = tally.key_at(k).clone();
        let converted: u32 = *tally.value_at(k);
        let mut at: usize = 0;
        while at < board.len() && board[at].converted >= converted
            invariant
                at <= board@.len(),
                forall|q: int| 0 <= q < at ==> board@[q].converted >= converted,
            decreases board@.len() - at,
        {
            at += 1;
        }
        let ghost prev = board@;
        let entry = ReferralLeaderboardEntry { address, converted };
        board.insert(at, entry);
        proof {
            crate::scan::lemma_take_step(ids, k as int);
            assert(board_ids(board@) =~= board_ids(prev).insert(at as int, entry.address@));
            crate::scan::lemma_insert_contains(board_ids(prev), at as int, entry.address@);
            assert(!board_ids(prev).contains(entry.address@));
            assert forall|i: int, j: int| 0 <= i < j < board@.len() implies board@[i].converted
                >= board@[j].converted by {
                if i < at && j > at {
                    assert(board@[i] == prev[i]);
                    assert(board@[j] == prev[j - 1]);
                } else if i > at {
                    assert(board@[i] == prev[i - 1]);
                    assert(board@[j] == prev[j - 1]);
                } else if j < at {
                    assert(board@[i] == prev[i]);
                    assert(board@[j] == prev[j]);
                } else if i == at {
                    assert(board@[j] == prev[j - 1]);
                    if at < prev.len() {
                        assert(prev[at as int].converted < converted);
                    }
                } else {
                    assert(board@[i] == prev[i]);
                }
            }
            assert forall|i: int| 0 <= i < board@.len() implies tally@.contains_key(
                #[trigger] board@[i].address@,
            ) && board@[i].converted == tally@[board@[i].address@] by {
                if i < at {
                    assert(board@[i] == prev[i]);
                } else if i > at {
                    assert(board@[i] == prev[i - 1]);
                }
            }
            assert forall|x: Id| board_ids(board@).contains(x) <==> ids.take(k + 1).contains(
                x,
            ) by {
                assert(board_ids(prev).contains(x) <==> ids.take(k as int).contains(x));
            }
        }
        k += 1;
    }
    proof {
        assert(ids.take(count as int) =~= ids);
    }
    board
}

/// The first of the inviters `ids[0]`, ..., `ids[i - 1]` whose code is `code`.
pub open spec fn owner_before(ids: Seq<Id>, codes: Map<Id, Seq<char>>, code: Seq<char>, i: int) -> Option<Id>
    decreases i,
{
    if i <= 0 {
        None
    } else if owner_before(ids, codes, code, i - 1) is Some {
        owner_before(ids, codes, code, i - 1)
    } else if codes[ids[i - 1]] == code {
        Some(ids[i - 1])
    } else {
        None
    }
}

/// What the first owner of a code is: an inviter of the list with that
/// code; and there is none only if no inviter of the list has the code.
pub proof fn lemma_owner_before(ids: Seq<Id>, codes: Map<Id, Seq<char>>, code: Seq<char>, i: int)
    requires
        0 <= i <= ids.len(),
    ensures
        match owner_before(ids, codes, code, i) {
            Some(r) => ids.take(i).contains(r) && codes[r] == code,
            None => forall|j: int| 0 <= j < i ==> codes[#[trigger] ids[j]] != code,
        },
    decreases i,
{
    if i > 0 {
        lemma_owner_before(ids, codes, code, i - 1);
        match owner_before(ids, codes, code, i - 1) {
            Some(r) => {
                let p = ids.take(i - 1).index_of(r);
                assert(ids.take(i)[p] == r);
            },
            None => {
                if codes[ids[i - 1]] == code {
                    assert(ids.take(i)[i - 1] == ids[i - 1]);
                }
            },
        }
    }
}

/// The referral contract. Its state is a [`ReferralLedger`].
pub struct ReferralContract {
    pub(crate) ledger: ReferralLedger,
}

impl View for ReferralContract {
    type V = ReferralGraph;

    open(crate) spec fn view(&self) -> ReferralGraph {
        self.ledger@
    }
}

impl ReferralContract {
    /// The invariant of the contract: that of its ledger.
    pub open(crate) spec fn wf(&self) -> bool {
        self.ledger.wf()
    }

    /// The state of a well-formed contract is well-formed.
    pub proof fn lemma_graph_wf(&self)
        requires
            self.wf(),
        ensures
            self@.wf(),
    {
    }

    /// A contract without any referral.
    pub fn new() -> (contract: ReferralContract)
        ensures
            contract.wf(),
            contract@ == ReferralGraph::empty(),
    {
        ReferralContract { ledger: ReferralLedger::new() }
    }

    /// The state of the referral engine.
    pub fn ledger(&self) -> (ledger: &ReferralLedger)
        requires
            self.wf(),
        ensures
            ledger.wf(),
            ledger@ == self@,
    {
        &self.ledger
    }

    /// The number of referrals on record.
    pub fn referral_count(&self) -> (n: usize)
        requires
            self.wf(),
        ensures
            n == self@.referrer.dom().len(),
            n <= u32::MAX,
    {
        self.ledger.referral_count()
    }

    /// Marks `user` as converted.
    ///
    /// Refused, with nothing changed, when nobody referred `user`
    /// (`NotReferred`) or when it was marked before (`AlreadyConverted`).
    /// Otherwise the flag is set and the counters of its referrer are moved:
    /// one conversion more, one pending invitation less where there is one.
    pub fn mark_converted(&mut self, user: &Address) -> (result: Result<(), ReferralError>)
        requires
            old(self).wf(),
        ensures
            final(self).wf(),
            match old(self)@.conversion_refusal(user@) {
                Some(reason) => result == Err::<(), ReferralError>(reason) && *final(self) == *old(
                    self,
                ),
                None => result == Ok::<(), ReferralError>(()) && final(self)@ == old(
                    self,
                )@.mark_converted(user@),
            },
    {
        let ghost before = *self;
        let inviter = match self.ledger.referrals.get(user) {
            Some(referral) => referral.referrer.clone(),
            None => {
                return Err(ReferralError::NotReferred);
            },
        };
        if self.ledger.converted.contains_key(user) {
            return Err(ReferralError::AlreadyConverted);
        }
        proof {
            before.ledger.lemma_parts();
            lemma_mark_converted_keeps_wf(before@, user@);
        }
        self.ledger.converted.insert(user.clone(), true);
        let kept = match self.ledger.counters.get(&inviter) {
            Some(stats) => *stats,
            None => ReferralStats { total_invites: 0, converted: 0, pending: 0 },
        };
        let moved = ReferralStats {
            total_invites: kept.total_invites,
            converted: kept.converted + 1,
            pending: if kept.pending > 0 {
                kept.pending - 1
            } else {
                0
            },
        };
        self.ledger.counters.insert(inviter, moved);
        proof {
            let expected = before@.mark_converted(user@);
            assert(self@.converted =~= expected.converted);
            assert(self@.counters =~= expected.counters);
            assert(self@.referrer =~= expected.referrer);
            assert(self@.registered_at =~= expected.registered_at);
            assert(self@.rewards =~= expected.rewards);
            assert(self@.codes =~= expected.codes);
        }
        Ok(())
    }

    /// The figures of `inviter`, counted over all referrals on record: how
    /// many members it referred, how many of those converted, and how many
    /// are still pending. The first is always the sum of the other two.
    pub fn get_referral_stats(&self, inviter: &Address) -> (stats: ReferralStats)
        requires
            self.wf(),
        ensures
            stats == self@.referral_stats(inviter@),
            stats.total_invites == self@.invited(inviter@).len(),
            stats.converted == self@.converted_of(inviter@).len(),
            stats.total_invites == stats.converted + stats.pending,
    {
        let mut total: u32 = 0;
        let mut converted: u32 = 0;
        let count = self.ledger.referrals.len();
        let mut i: usize = 0;
        let ghost ids = self.ledger.referrals.ids();
        let ghost invited = self@.invited(inviter@);
        let ghost won = self@.converted_of(inviter@);
        proof {
            self.ledger.lemma_parts();
            lemma_seen_none(invited, ids);
            lemma_seen_none(won, ids);
        }
        while i < count
            invariant
                self.wf(),
                i <= count,
                count == ids.len(),
                count <= u32::MAX,
                ids == self.ledger.referrals.ids(),
                ids.no_duplicates(),
                invited == self@.invited(inviter@),
                won == self@.converted_of(inviter@),
                total == seen(invited, ids, i as int).len(),
                converted == seen(won, ids, i as int).len(),
                converted <= total <= i,
            decreases count - i,
        {
            proof {
                lemma_seen_step(invited, ids, i as int);
                lemma_seen_step(won, ids, i as int);
            }
            let referral = self.ledger.referrals.value_at(i);
            let referee = self.ledger.referrals.key_at(i);
            proof {
                assert(self@.referrer.contains_key(ids[i as int]));
                assert(self@.referrer[ids[i as int]] == referral.referrer@);
            }
            if referral.referrer == *inviter {
                total += 1;
                if is_converted(&self.ledger, referee) {
                    converted += 1;
                }
            }
            i += 1;
        }
        proof {
            assert forall|x: Id| invited.contains(x) implies ids.contains(x) by {
                assert(self@.referrer.contains_key(x));
            }
            assert forall|x: Id| won.contains(x) implies ids.contains(x) by {
                assert(self@.referrer.contains_key(x));
            }
            lemma_seen_all(invited, ids);
            lemma_seen_all(won, ids);
        }
        ReferralStats { total_invites: total, converted, pending: total - converted }
    }

    /// The inviter that a code belongs to: the first one that was given it.
    pub open(crate) spec fn code_owner(&self, code: Seq<char>) -> Option<Id> {
        owner_before(self.ledger.codes.ids(), self@.codes, code, self.ledger.codes.ids().len() as int)
    }

    /// The owner of a code has that code, and a code without an owner is
    /// nobody's code.
    pub proof fn law_code_owner(&self, code: Seq<char>)
        requires
            self.wf(),
        ensures
            match self.code_owner(code) {
                Some(r) => self@.codes.contains_key(r) && self@.codes[r] == code,
                None => forall|r: Id| #[trigger]
                    self@.codes.contains_key(r) ==> self@.codes[r] != code,
            },
    {
        let ids = self.ledger.codes.ids();
        self.ledger.codes.lemma_view();
        lemma_owner_before(ids, self@.codes, code, ids.len() as int);
        assert(ids.take(ids.len() as int) =~= ids);
        if self.code_owner(code) is None {
            assert forall|r: Id| #[trigger] self@.codes.contains_key(r) implies self@.codes[r]
                != code by {
                let j = ids.index_of(r);
                assert(ids[j] == r);
            }
        }
    }

    /// The invitation code of `inviter`, if it has one.
    pub fn get_code(&self, inviter: &Address) -> (code: Option<String>)
        requires
            self.wf(),
        ensures
            match code {
                Some(c) => self@.codes.contains_key(inviter@) && c@ == self@.codes[inviter@],
                None => !self@.codes.contains_key(inviter@),
            },
    {
        match self.ledger.codes.get(inviter) {
            Some(existing) => Some(existing.clone()),
            None => None,
        }
    }

    /// The invitation code of `inviter`. An inviter that has a code keeps
    /// it; one that has none is given the code that belongs to `digest`,
    /// which the caller has computed over the inviter and the time.
    pub fn generate_code(&mut self, inviter: &Address, digest: &Vec<u8>) -> (code: String)
        requires
            old(self).wf(),
        ensures
            final(self).wf(),
            old(self)@.codes.contains_key(inviter@) ==> code@ == old(self)@.codes[inviter@]
                && *final(self) == *old(self),
            !old(self)@.codes.contains_key(inviter@) ==> code@ == code_of(digest@) && final(self)@
                == old(self)@.assign_code(inviter@, code_of(digest@)),
    {
        match self.ledger.codes.get(inviter) {
            Some(existing) => {
                return existing.clone();
            },
            None => {},
        }
        let ghost before = *self;
        let code = hash_to_code(digest);
        self.ledger.codes.insert(inviter.clone(), code.clone());
        proof {
            let expected = before@.assign_code(inviter@, code_of(digest@));
            assert(self@.codes =~= expected.codes);
            assert(self@.referrer =~= expected.referrer);
            assert(self@.registered_at =~= expected.registered_at);
            assert(self@.rewards =~= expected.rewards);
        }
        code
    }

    /// Finds the inviter that `code` belongs to.
    fn find_code_owner(&self, code: &str) -> (owner: Option<Address>)
        requires
            self.wf(),
        ensures
            match owner {
                Some(r) => self.code_owner(code@) == Some(r@),
                None => self.code_owner(code@) is None,
            },
    {
        let count = self.ledger.codes.len();
        let wanted = String::from_str(code);
        let ghost ids = self.ledger.codes.ids();
        let mut i: usize = 0;
        while i < count
            invariant
                self.wf(),
                i <= count,
                count == ids.len(),
                ids == self.ledger.codes.ids(),
                wanted@ == code@,
                owner_before(ids, self@.codes, code@, i as int) is None,
            decreases count - i,
        {
            let stored = self.ledger.codes.value_at(i);
            if *stored == wanted {
                let found = self.ledger.codes.key_at(i).clone();
                proof {
                    assert(owner_before(ids, self@.codes, code@, i + 1) == Some(found@));
                    Self::lemma_owner_stays(ids, self@.codes, code@, i + 1, count as int);
                }
                return Some(found);
            }
            i += 1;
        }
        None
    }

    /// Once an owner is found, a longer scan finds the same one.
    proof fn lemma_owner_stays(ids: Seq<Id>, codes: Map<Id, Seq<char>>, code: Seq<char>, i: int, n: int)
        requires
            i <= n,
            owner_before(ids, codes, code, i) is Some,
        ensures
            owner_before(ids, codes, code, n) == owner_before(ids, codes, code, i),
        decreases n - i,
    {
        if i < n {
            Self::lemma_owner_stays(ids, codes, code, i, n - 1);
        }
    }

    /// Redeems an invitation code for `new_user` at `timestamp`. Where
    /// `code` belongs to nobody, nothing happens. Otherwise the owner of
    /// the code refers `new_user`, exactly as in [`register_referral`], and
    /// is returned when the referral is registered.
    pub fn use_code(&mut self, code: &str, new_user: &Address, timestamp: u64) -> (result: Result<
        Option<Address>,
        ReferralError,
    >)
        requires
            old(self).wf(),
            old(self)@.referrer.dom().len() < u32::MAX,
        ensures
            final(self).wf(),
            match old(self).code_owner(code@) {
                None => result == Ok::<Option<Address>, ReferralError>(None) && *final(self) == *old(self),
                Some(inviter) => match old(self)@.register_refusal(inviter, new_user@) {
                    Some(reason) => result == Err::<Option<Address>, ReferralError>(reason)
                        && *final(self) == *old(self),
                    None => result is Ok && result->Ok_0 is Some && result->Ok_0->0@ == inviter
                        && final(self)@ == old(self)@.register(inviter, new_user@, timestamp),
                },
            },
    {
        let inviter = match self.find_code_owner(code) {
            Some(inviter) => inviter,
            None => {
                return Ok(None);
            },
        };
        match register_referral(&mut self.ledger, &inviter, new_user, timestamp) {
            Ok(()) => Ok(Some(inviter)),
            Err(reason) => Err(reason),
        }
    }

    /// The leaderboard: every referrer with at least one converted referee,
    /// with the number of its converted referees, the larger numbers first.
    /// The order among equal numbers is not promised.
    pub fn get_leaderboard(&self) -> (board: Vec<ReferralLeaderboardEntry>)
        requires
            self.wf(),
        ensures
            is_leaderboard(self@, board@),
    {
        let tally = tally_conversions(&self.ledger);
        let board = rank(&tally);
        proof {
            assert forall|r: Id| #[trigger] self@.converted_of(r).len() >= 1 implies board_ids(
                board@,
            ).contains(r) by {
                assert(tally@.contains_key(r));
            }
            assert forall|i: int| 0 <= i < board@.len() implies board@[i].converted >= 1
                && #[trigger] board@[i].converted == self@.converted_of(
                board@[i].address@,
            ).len() by {
                assert(tally@.contains_key(board@[i].address@));
            }
        }
        board
    }

    /// See [`register_referral`].
    pub fn register_referral(&mut self, referrer: &Address, referee: &Address, timestamp: u64) -> (result:
        Result<(), ReferralError>)
        requires
            old(self).wf(),
            old(self)@.referrer.dom().len() < u32::MAX,
        ensures
            final(self).wf(),
            match old(self)@.register_refusal(referrer@, referee@) {
                Some(reason) => result == Err::<(), ReferralError>(reason) && *final(self) == *old(
                    self,
                ),
                None => result == Ok::<(), ReferralError>(()) && final(self)@ == old(
                    self,
                )@.register(referrer@, referee@, timestamp),
            },
    {
        register_referral(&mut self.ledger, referrer, referee, timestamp)
    }

    /// See [`get_referrer`].
    pub fn get_referrer(&self, referee: &Address) -> (referrer: Option<Address>)
        requires
            self.wf(),
        ensures
            match referrer {
                Some(r) => self@.referrer_of(referee@) == Some(r@),
                None => self@.referrer_of(referee@) is None,
            },
    {
        get_referrer(&self.ledger, referee)
    }

    /// See [`has_been_referred`].
    pub fn has_been_referred(&self, referee: &Address) -> (referred: bool)
        requires
            self.wf(),
        ensures
            referred == self@.referrer.contains_key(referee@),
    {
        has_been_referred(&self.ledger, referee)
    }

    /// See [`list_referrals`].
    pub fn list_referrals(&self, referrer: &Address) -> (referees: Vec<Address>)
        requires
            self.wf(),
        ensures
            ids_of(referees@).no_duplicates(),
            forall|x: Id|
                ids_of(referees@).contains(x) <==> self@.referrer_of(x) == Some(referrer@),
            ids_of(referees@).to_set() == self@.invited(referrer@),
    {
        list_referrals(&self.ledger, referrer)
    }

    /// See [`get_reward_balance`].
    pub fn get_reward_balance(&self, address: &Address) -> (balance: i128)
        requires
            self.wf(),
        ensures
            balance == self@.reward_balance(address@),
    {
        get_reward_balance(&self.ledger, address)
    }

    /// See [`grant_reward`].
    pub fn grant_reward(&mut self, address: &Address) -> (paid: Option<i128>)
        requires
            old(self).wf(),
        ensures
            final(self).wf(),
            final(self)@ == old(self)@.grant_reward(address@),
            match paid {
                Some(amount) => old(self)@.claimable(address@) && amount == old(
                    self,
                )@.reward_balance(address@),
                None => !old(self)@.claimable(address@) && *final(self) == *old(self),
            },
    {
        grant_reward(&mut self.ledger, address)
    }
}

} // verus!
