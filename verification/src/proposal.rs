//! The proposal contract: proposals, votes on them, and their outcome.
//!
//! A proposal is open until it is finalized, which can happen once its
//! deadline has passed. Every member votes at most once on a proposal.

use vstd::prelude::*;
use crate::address::{Address, Id};
use crate::resolution::byte_len;
use crate::text::same_text;

verus! {

/// The longest title of a proposal, in bytes.
pub const MAX_TITLE_LENGTH: u32 = 100;

/// What a proposal is about.
#[derive(Clone, Copy, Debug, PartialEq, Eq, Structural)]
pub enum ProposalType {
    Treasury,
    Governance,
    Community,
    Technical,
}

/// Where a proposal stands.
#[derive(Clone, Copy, Debug, PartialEq, Eq, Structural)]
pub enum ProposalStatus {
    Open,
    Closed,
    Accepted,
    Rejected,
}

/// Why an operation on proposals was refused.
#[derive(Clone, Copy, Debug, PartialEq, Eq, Structural)]
pub enum ProposalError {
    InvalidDeadline,
    InvalidTitleLength,
    InvalidProposalType,
    AlreadyVoted,
    ProposalNotFound,
    ProposalNotOpen,
    VotingClosed,
    InvalidVoteChoice,
    AlreadyFinalized,
    DeadlineNotReached,
}

/// A vote.
#[derive(Clone, Copy, Debug, PartialEq, Eq, Structural)]
pub enum VoteChoice {
    For,
    Against,
    Abstain,
}

/// A proposal and its tally.
#[derive(Debug, PartialEq, Eq)]
pub struct Proposal {
    pub id: u32,
    pub title: String,
    pub description: String,
    pub created_at: u64,
    pub deadline: u64,
    pub proposal_type: ProposalType,
    pub status: ProposalStatus,
    pub for_votes: u32,
    pub against_votes: u32,
    pub abstain_votes: u32,
    pub created_by: Address,
    pub quorum: Option<u32>,
}

/// The record that a member has voted on a proposal.
#[derive(Debug, PartialEq, Eq)]
pub struct Ballot {
    pub proposal_id: u32,
    pub voter: Address,
    pub choice: VoteChoice,
}

/// The type that a type name stands for.
pub open spec fn type_named(name: Seq<char>) -> Option<ProposalType> {
    if name == "treasury"@ {
        Some(ProposalType::Treasury)
    } else if name == "governance"@ {
        Some(ProposalType::Governance)
    } else if name == "community"@ {
        Some(ProposalType::Community)
    } else if name == "technical"@ {
        Some(ProposalType::Technical)
    } else {
        None
    }
}

/// The vote that a name stands for.
pub open spec fn choice_named(name: Seq<char>) -> Option<VoteChoice> {
    if name == "For"@ {
        Some(VoteChoice::For)
    } else if name == "Against"@ {
        Some(VoteChoice::Against)
    } else if name == "Abstain"@ {
        Some(VoteChoice::Abstain)
    } else {
        None
    }
}

/// The name under which a status is announced.
pub open spec fn status_name(status: ProposalStatus) -> Seq<char> {
    match status {
        ProposalStatus::Open => "open"@,
        ProposalStatus::Closed => "closed"@,
        ProposalStatus::Accepted => "accepted"@,
        ProposalStatus::Rejected => "rejected"@,
    }
}

/// The outcome of a vote. With a quorum, fewer votes than the quorum close
/// the proposal. Otherwise it is accepted when the votes for it outnumber
/// those against it, and rejected when they do not.
pub open spec fn outcome(for_votes: u32, against_votes: u32, abstain_votes: u32, quorum: Option<u32>) -> ProposalStatus {
    let total = for_votes + against_votes + abstain_votes;
    if quorum is Some && total < quorum->0 {
        ProposalStatus::Closed
    } else if for_votes > against_votes {
        ProposalStatus::Accepted
    } else {
        ProposalStatus::Rejected
    }
}

/// Parses the name of a proposal type.
pub fn parse_proposal_type(name: &str) -> (parsed: Option<ProposalType>)
    ensures
        parsed == type_named(name@),
{
    if same_text(name, "treasury") {
        Some(ProposalType::Treasury)
    } else if same_text(name, "governance") {
        Some(ProposalType::Governance)
    } else if same_text(name, "community") {
        Some(ProposalType::Community)
    } else if same_text(name, "technical") {
        Some(ProposalType::Technical)
    } else {
        None
    }
}

/// Parses the name of a vote.
pub fn parse_vote_choice(name: &str) -> (parsed: Option<VoteChoice>)
    ensures
        parsed == choice_named(name@),
{
    if same_text(name, "For") {
        Some(VoteChoice::For)
    } else if same_text(name, "Against") {
        Some(VoteChoice::Against)
    } else if same_text(name, "Abstain") {
        Some(VoteChoice::Abstain)
    } else {
        None
    }
}

/// Decides a vote. See [`outcome`].
pub fn decide(for_votes: u32, against_votes: u32, abstain_votes: u32, quorum: Option<u32>) -> (status:
    ProposalStatus)
    requires
        for_votes + against_votes + abstain_votes <= u32::MAX,
    ensures
        status == outcome(for_votes, against_votes, abstain_votes, quorum),
        status != ProposalStatus::Open,
{
    let total_votes = for_votes + against_votes + abstain_votes;
    let effective_votes = for_votes + against_votes;
    match quorum {
        Some(q) => {
            if total_votes < q {
                ProposalStatus::Closed
            } else if for_votes > against_votes && for_votes > 0 {
                ProposalStatus::Accepted
            } else {
                ProposalStatus::Rejected
            }
        },
        None => {
            if effective_votes == 0 {
                ProposalStatus::Rejected
            } else if for_votes > against_votes && for_votes > 0 {
                ProposalStatus::Accepted
            } else {
                ProposalStatus::Rejected
            }
        },
    }
}

/// The state of the proposal contract.
pub struct ProposalContract {
    /// The proposals; the one with identifier `i` stands at index `i - 1`.
    pub proposals: Vec<Proposal>,
    /// Who has voted on what.
    pub ballots: Vec<Ballot>,
}

impl ProposalContract {
    /// The invariant of the contract: the proposals are numbered from 1 in
    /// the order in which they stand, their number fits 32 bits, and no
    /// proposal counts more votes than there are ballots.
    pub open spec fn wf(&self) -> bool {
        &&& self.proposals@.len() < u32::MAX
        &&& self.ballots@.len() <= u32::MAX
        &&& forall|i: int|
            0 <= i < self.proposals@.len() ==> (#[trigger] self.proposals@[i]).id == i + 1
        &&& forall|i: int|
            0 <= i < self.proposals@.len() ==> (#[trigger] self.proposals@[i]).for_votes
                + self.proposals@[i].against_votes + self.proposals@[i].abstain_votes
                <= self.ballots@.len()
    }

    /// Whether a proposal with identifier `id` exists.
    pub open spec fn known(&self, id: u32) -> bool {
        1 <= id <= self.proposals@.len()
    }

    /// The proposal with identifier `id`.
    pub open spec fn proposal(&self, id: u32) -> Proposal {
        self.proposals@[id - 1]
    }

    /// Whether `voter` has voted on the proposal `id`.
    pub open spec fn has_voted(&self, id: u32, voter: Id) -> bool {
        exists|i: int|
            0 <= i < self.ballots@.len() && (#[trigger] self.ballots@[i]).proposal_id == id
                && self.ballots@[i].voter@ == voter
    }

    /// The contract without proposals.
    pub fn new() -> (contract: ProposalContract)
        ensures
            contract.wf(),
            contract.proposals@.len() == 0,
            contract.ballots@.len() == 0,
    {
        ProposalContract { proposals: Vec::new(), ballots: Vec::new() }
    }

    /// The identifier that the next proposal gets: they start at 1.
    pub fn next_id(&self) -> (id: u32)
        requires
            self.wf(),
        ensures
            id == self.proposals@.len() + 1,
    {
        self.proposals.len() as u32 + 1
    }

    /// Why a proposal cannot be created, if it cannot. The tests are made
    /// in this order.
    pub open spec fn create_refusal(title: Seq<char>, deadline: u64, kind: Seq<char>, now: u64) -> Option<
        ProposalError,
    > {
        if deadline <= now {
            Some(ProposalError::InvalidDeadline)
        } else if title.len() == 0 || byte_len(title) > MAX_TITLE_LENGTH {
            Some(ProposalError::InvalidTitleLength)
        } else if type_named(kind) is None {
            Some(ProposalError::InvalidProposalType)
        } else {
            None
        }
    }

    /// Creates a proposal at the time `now` and returns its identifier. The
    /// deadline has to lie in the future, the title has to hold between 1
    /// and [`MAX_TITLE_LENGTH`] bytes, and the type has to be one of the
    /// four known names.
    pub fn create_proposal(
        &mut self,
        user: &Address,
        title: &str,
        description: &str,
        deadline: u64,
        proposal_type_symbol: &str,
        quorum: Option<u32>,
        now: u64,
    ) -> (result: Result<u32, ProposalError>)
        requires
            old(self).wf(),
            old(self).proposals@.len() + 1 < u32::MAX,
        ensures
            final(self).wf(),
            match Self::create_refusal(title@, deadline, proposal_type_symbol@, now) {
                Some(reason) => result == Err::<u32, ProposalError>(reason) && *final(self) == *old(self),
                None => result == Ok::<u32, ProposalError>((old(self).proposals@.len() + 1) as u32)
                    && final(self).ballots == old(self).ballots
                    && final(self).proposals@.len() == old(self).proposals@.len() + 1
                    && final(self).proposals@.drop_last() == old(self).proposals@
                    && ({
                        let created = final(self).proposals@.last();
                        &&& created.id == old(self).proposals@.len() + 1
                        &&& created.title@ == title@
                        &&& created.description@ == description@
                        &&& created.created_at == now
                        &&& created.deadline == deadline
                        &&& Some(created.proposal_type) == type_named(proposal_type_symbol@)
                        &&& created.status == ProposalStatus::Open
                        &&& created.for_votes == 0
                        &&& created.against_votes == 0
                        &&& created.abstain_votes == 0
                        &&& created.created_by == *user
                        &&& created.quorum == quorum
                    }),
            },
    {
        if deadline <= now {
            return Err(ProposalError::InvalidDeadline);
        }
        if title.is_empty() || title.len() > MAX_TITLE_LENGTH as usize {
            return Err(ProposalError::InvalidTitleLength);
        }
        let proposal_type = match parse_proposal_type(proposal_type_symbol) {
            Some(parsed) => parsed,
            None => {
                return Err(ProposalError::InvalidProposalType);
            },
        };
        let id = self.next_id();
        let proposal = Proposal {
            id,
            title: title.to_owned(),
            description: description.to_owned(),
            created_at: now,
            deadline,
            proposal_type,
            status: ProposalStatus::Open,
            for_votes: 0,
            against_votes: 0,
            abstain_votes: 0,
            created_by: user.clone(),
            quorum,
        };
        let ghost before = *self;
        self.proposals.push(proposal);
        proof {
            assert(self.proposals@.drop_last() =~= before.proposals@);
        }
        Ok(id)
    }

    /// Whether `voter` has voted on the proposal `id`.
    pub fn voted(&self, id: u32, voter: &Address) -> (found: bool)
        ensures
            found == self.has_voted(id, voter@),
    {
        let mut i: usize = 0;
        while i < self.ballots.len()
            invariant
                i <= self.ballots@.len(),
                forall|j: int|
                    0 <= j < i ==> !((#[trigger] self.ballots@[j]).proposal_id == id
                        && self.ballots@[j].voter@ == voter@),
            decreases self.ballots@.len() - i,
        {
            if self.ballots[i].proposal_id == id && self.ballots[i].voter == *voter {
                return true;
            }
            i += 1;
        }
        false
    }

    /// Why `user` cannot vote on the proposal `id`, if it cannot. The tests
    /// are made in this order.
    pub open spec fn vote_refusal(&self, user: Id, id: u32, choice: Seq<char>, now: u64) -> Option<
        ProposalError,
    > {
        if self.has_voted(id, user) {
            Some(ProposalError::AlreadyVoted)
        } else if !self.known(id) {
            Some(ProposalError::ProposalNotFound)
        } else if self.proposal(id).status != ProposalStatus::Open {
            Some(ProposalError::ProposalNotOpen)
        } else if now > self.proposal(id).deadline {
            Some(ProposalError::VotingClosed)
        } else if choice_named(choice) is None {
            Some(ProposalError::InvalidVoteChoice)
        } else {
            None
        }
    }

    /// Whether `after` is `before` with one more vote of the given kind.
    pub open spec fn counted(before: Proposal, after: Proposal, choice: VoteChoice) -> bool {
        &&& after.id == before.id
        &&& after.title == before.title
        &&& after.description == before.description
        &&& after.created_at == before.created_at
        &&& after.deadline == before.deadline
        &&& after.proposal_type == before.proposal_type
        &&& after.status == before.status
        &&& after.created_by == before.created_by
        &&& after.quorum == before.quorum
        &&& after.for_votes == before.for_votes + (if choice == VoteChoice::For {
            1int
        } else {
            0int
        })
        &&& after.against_votes == before.against_votes + (if choice == VoteChoice::Against {
            1int
        } else {
            0int
        })
        &&& after.abstain_votes == before.abstain_votes + (if choice == VoteChoice::Abstain {
            1int
        } else {
            0int
        })
    }

    /// Casts the vote of `user` on the proposal `proposal_id` at the time
    /// `now`: the tally of the proposal goes up by one where the vote says,
    /// and the ballot is kept.
    pub fn vote(&mut self, user: &Address, proposal_id: u32, vote_choice: &str, now: u64) -> (result: Result<
        (),
        ProposalError,
    >)
        requires
            old(self).wf(),
            old(self).ballots@.len() < u32::MAX,
        ensures
            final(self).wf(),
            match old(self).vote_refusal(user@, proposal_id, vote_choice@, now) {
                Some(reason) => result == Err::<(), ProposalError>(reason) && *final(self) == *old(self),
                None => result == Ok::<(), ProposalError>(())
                    && final(self).proposals@.len() == old(self).proposals@.len()
                    && (forall|i: int|
                        0 <= i < old(self).proposals@.len() && i != proposal_id - 1 ==> #[trigger] final(self).proposals@[i]
                            == old(self).proposals@[i])
                    && Self::counted(
                        old(self).proposal(proposal_id),
                        final(self).proposal(proposal_id),
                        choice_named(vote_choice@)->0,
                    )
                    && final(self).ballots@.len() == old(self).ballots@.len() + 1
                    && final(self).ballots@.drop_last() == old(self).ballots@
                    && final(self).ballots@.last().proposal_id == proposal_id
                    && final(self).ballots@.last().voter == *user
                    && Some(final(self).ballots@.last().choice) == choice_named(vote_choice@)
                    && final(self).has_voted(proposal_id, user@),
            },
    {
        if self.voted(proposal_id, user) {
            return Err(ProposalError::AlreadyVoted);
        }
        if proposal_id < 1 || proposal_id as usize > self.proposals.len() {
            return Err(ProposalError::ProposalNotFound);
        }
        let index: usize = (proposal_id - 1) as usize;
        match self.proposals[index].status {
            ProposalStatus::Open => {},
            _ => {
                return Err(ProposalError::ProposalNotOpen);
            },
        }
        if now > self.proposals[index].deadline {
            return Err(ProposalError::VotingClosed);
        }
        let choice = match parse_vote_choice(vote_choice) {
            Some(parsed) => parsed,
            None => {
                return Err(ProposalError::InvalidVoteChoice);
            },
        };
        let ghost before = *self;
        let mut proposal = self.proposals.remove(index);
        match choice {
            VoteChoice::For => {
                proposal.for_votes = proposal.for_votes + 1;
            },
            VoteChoice::Against => {
                proposal.against_votes = proposal.against_votes + 1;
            },
            VoteChoice::Abstain => {
                proposal.abstain_votes = proposal.abstain_votes + 1;
            },
        }
        self.proposals.insert(index, proposal);
        self.ballots.push(Ballot { proposal_id, voter: user.clone(), choice });
        proof {
            assert(self.ballots@.drop_last() =~= before.ballots@);
            let last = self.ballots@.len() - 1;
            assert(self.ballots@[last].proposal_id == proposal_id && self.ballots@[last].voter@
                == user@);
        }
        Ok(())
    }

    /// Why the proposal `id` cannot be finalized, if it cannot.
    pub open spec fn finalize_refusal(&self, id: u32, now: u64) -> Option<ProposalError> {
        if !self.known(id) {
            Some(ProposalError::ProposalNotFound)
        } else if self.proposal(id).status != ProposalStatus::Open {
            Some(ProposalError::AlreadyFinalized)
        } else if now < self.proposal(id).deadline {
            Some(ProposalError::DeadlineNotReached)
        } else {
            None
        }
    }

    /// Whether `after` is `before` with the status `status`.
    pub open spec fn settled(before: Proposal, after: Proposal, status: ProposalStatus) -> bool {
        &&& after.id == before.id
        &&& after.title == before.title
        &&& after.description == before.description
        &&& after.created_at == before.created_at
        &&& after.deadline == before.deadline
        &&& after.proposal_type == before.proposal_type
        &&& after.status == status
        &&& after.created_by == before.created_by
        &&& after.quorum == before.quorum
        &&& after.for_votes == before.for_votes
        &&& after.against_votes == before.against_votes
        &&& after.abstain_votes == before.abstain_votes
    }

    /// Finalizes the proposal `proposal_id` at the time `now`, which must
    /// not lie before its deadline, and returns the outcome. See
    /// [`outcome`].
    pub fn finalize(&mut self, proposal_id: u32, now: u64) -> (result: Result<ProposalStatus, ProposalError>)
        requires
            old(self).wf(),
        ensures
            final(self).wf(),
            match old(self).finalize_refusal(proposal_id, now) {
                Some(reason) => result == Err::<ProposalStatus, ProposalError>(reason) && *final(self)
                    == *old(self),
                None => {
                    let before = old(self).proposal(proposal_id);
                    let status = outcome(
                        before.for_votes,
                        before.against_votes,
                        before.abstain_votes,
                        before.quorum,
                    );
                    &&& result == Ok::<ProposalStatus, ProposalError>(status)
                    &&& final(self).ballots == old(self).ballots
                    &&& final(self).proposals@.len() == old(self).proposals@.len()
                    &&& forall|i: int|
                        0 <= i < old(self).proposals@.len() && i != proposal_id - 1 ==> #[trigger] final(self).proposals@[i]
                            == old(self).proposals@[i]
                    &&& Self::settled(before, final(self).proposal(proposal_id), status)
                },
            },
    {
        if proposal_id < 1 || proposal_id as usize > self.proposals.len() {
            return Err(ProposalError::ProposalNotFound);
        }
        let index: usize = (proposal_id - 1) as usize;
        match self.proposals[index].status {
            ProposalStatus::Open => {},
            _ => {
                return Err(ProposalError::AlreadyFinalized);
            },
        }
        if now < self.proposals[index].deadline {
            return Err(ProposalError::DeadlineNotReached);
        }
        let mut proposal = self.proposals.remove(index);
        let status = decide(
            proposal.for_votes,
            proposal.against_votes,
            proposal.abstain_votes,
            proposal.quorum,
        );
        proposal.status = status;
        self.proposals.insert(index, proposal);
        Ok(status)
    }

    /// The tally of the proposal `proposal_id`: the votes for it, against
    /// it, and the abstentions.
    pub fn get_votes(&self, proposal_id: u32) -> (votes: (u32, u32, u32))
        requires
            self.known(proposal_id),
        ensures
            votes == (
                self.proposal(proposal_id).for_votes,
                self.proposal(proposal_id).against_votes,
                self.proposal(proposal_id).abstain_votes,
            ),
    {
        let proposal = &self.proposals[(proposal_id - 1) as usize];
        (proposal.for_votes, proposal.against_votes, proposal.abstain_votes)
    }

    /// The proposal `proposal_id`, if there is one.
    pub fn find_proposal(&self, proposal_id: u32) -> (found: Option<&Proposal>)
        ensures
            match found {
                Some(proposal) => self.known(proposal_id) && *proposal == self.proposal(proposal_id),
                None => !self.known(proposal_id),
            },
    {
        if proposal_id < 1 || proposal_id as usize > self.proposals.len() {
            None
        } else {
            Some(&self.proposals[(proposal_id - 1) as usize])
        }
    }

    /// The proposal `proposal_id`.
    pub fn get_proposal(&self, proposal_id: u32) -> (proposal: &Proposal)
        requires
            self.known(proposal_id),
        ensures
            *proposal == self.proposal(proposal_id),
    {
        &self.proposals[(proposal_id - 1) as usize]
    }

    /// All proposals, in the order of their identifiers.
    pub fn get_all_proposals(&self) -> (all: &Vec<Proposal>)
        ensures
            all@ == self.proposals@,
    {
        &self.proposals
    }
}

/// The name under which a status is announced.
pub fn status_to_symbol(status: ProposalStatus) -> (name: &'static str)
    ensures
        name@ == status_name(status),
{
    match status {
        ProposalStatus::Open => "open",
        ProposalStatus::Closed => "closed",
        ProposalStatus::Accepted => "accepted",
        ProposalStatus::Rejected => "rejected",
    }
}

/// A quorum that is not reached closes a proposal whatever the votes say;
/// without a quorum, and with a quorum that is reached, the votes for and
/// against decide alone.
pub proof fn law_outcome(for_votes: u32, against_votes: u32, abstain_votes: u32, quorum: Option<u32>)
    ensures
        outcome(for_votes, against_votes, abstain_votes, quorum) != ProposalStatus::Open,
        quorum is Some && for_votes + against_votes + abstain_votes < quorum->0 ==> outcome(
            for_votes,
            against_votes,
            abstain_votes,
            quorum,
        ) == ProposalStatus::Closed,
        !(quorum is Some && for_votes + against_votes + abstain_votes < quorum->0) ==> (outcome(
            for_votes,
            against_votes,
            abstain_votes,
            quorum,
        ) == ProposalStatus::Accepted <==> for_votes > against_votes),
{
}

} // verus!
