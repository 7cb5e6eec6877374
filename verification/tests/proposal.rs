use harmonia_dao::address::Address;
use harmonia_dao::proposal::{
    decide, parse_proposal_type, parse_vote_choice, status_to_symbol, ProposalContract,
    ProposalError, ProposalStatus, ProposalType, VoteChoice, MAX_TITLE_LENGTH,
};

fn status_eq(a: &ProposalStatus, s: &str) -> bool {
    status_to_symbol(*a) == s
}

fn setup() -> (u64, Address, ProposalContract) {
    (0, Address::new("user"), ProposalContract::new())
}

#[test]
fn test_test_create_and_get_proposal() {
    let (now, user, mut client) = setup();

    let created = client.create_proposal(
        &user,
        "Title",
        "Description",
        now + 100,
        "governance",
        Some(3),
        now,
    );
    assert_eq!(created, Ok(1));

    let proposal = client.get_proposal(1);
    assert_eq!(proposal.title, "Title");
    assert!(status_eq(&proposal.status, "open"));
    assert_eq!(proposal.proposal_type, ProposalType::Governance);
    assert_eq!(proposal.quorum, Some(3));
    assert_eq!(proposal.created_by, user);
    assert_eq!(proposal.deadline, 100);
    assert_eq!(client.get_votes(1), (0, 0, 0));
}

#[test]
fn test_test_prevent_double_vote() {
    let (now, user, mut client) = setup();
    client
        .create_proposal(&user, "Proposal", "Test", now + 100, "governance", None, now)
        .unwrap();

    assert_eq!(client.vote(&user, 1, "For", now), Ok(()));
    assert_eq!(client.vote(&user, 1, "For", now), Err(ProposalError::AlreadyVoted));
    assert_eq!(client.vote(&user, 1, "Against", now), Err(ProposalError::AlreadyVoted));
    assert_eq!(client.get_votes(1), (1, 0, 0));
}

#[test]
fn test_test_finalize_accepted_when_quorum_met() {
    let (now, user1, mut client) = setup();
    let user2 = Address::new("user-2");
    let user3 = Address::new("user-3");

    client
        .create_proposal(&user1, "Majority For", "Accepted 1", now + 10, "community", Some(3), now)
        .unwrap();

    client.vote(&user1, 1, "For", now).unwrap();
    client.vote(&user2, 1, "For", now).unwrap();
    client.vote(&user3, 1, "Abstain", now).unwrap();

    assert_eq!(client.finalize(1, now + 20), Ok(ProposalStatus::Accepted));

    let proposal = client.get_proposal(1);
    assert!(status_eq(&proposal.status, "accepted"));
}

#[test]
fn test_test_finalize_closed_when_quorum_not_met() {
    let (now, user, mut client) = setup();
    client
        .create_proposal(&user, "Low Votes", "Will Close", now + 5, "governance", Some(5), now)
        .unwrap();

    client.vote(&user, 1, "For", now).unwrap();

    assert_eq!(client.finalize(1, now + 10), Ok(ProposalStatus::Closed));

    let proposal = client.get_proposal(1);
    assert!(status_eq(&proposal.status, "closed"));
}

#[test]
fn test_test_finalize_without_quorum_majority_against() {
    let (now, user1, mut client) = setup();
    let user2 = Address::new("user-2");
    let deadline = now + 10;

    client
        .create_proposal(&user1, "No Quorum", "Majority Against", deadline, "treasury", None, now)
        .unwrap();

    client.vote(&user1, 1, "Against", now).unwrap();
    client.vote(&user2, 1, "Abstain", now).unwrap();

    assert_eq!(client.finalize(1, deadline + 5), Ok(ProposalStatus::Rejected));

    let proposal = client.get_proposal(1);
    assert!(status_eq(&proposal.status, "rejected"));
}

#[test]
fn test_test_finalize_rejected_on_for_against_tie() {
    let (now, user1, mut client) = setup();
    let user2 = Address::new("user-2");

    client
        .create_proposal(&user1, "Tie", "Tie Votes", now + 10, "technical", None, now)
        .unwrap();

    client.vote(&user1, 1, "For", now).unwrap();
    client.vote(&user2, 1, "Against", now).unwrap();

    assert_eq!(client.finalize(1, now + 20), Ok(ProposalStatus::Rejected));

    let proposal = client.get_proposal(1);
    assert!(status_eq(&proposal.status, "rejected"));
}

#[test]
fn test_test_finalize_rejected_when_only_abstain() {
    let (now, user1, mut client) = setup();
    let user2 = Address::new("user-2");
    let deadline = now + 10;

    client
        .create_proposal(&user1, "Only Abstain", "No Effective Votes", deadline, "treasury", None, now)
        .unwrap();

    client.vote(&user1, 1, "Abstain", now).unwrap();
    client.vote(&user2, 1, "Abstain", now).unwrap();

    assert_eq!(client.finalize(1, deadline + 1), Ok(ProposalStatus::Rejected));

    let proposal = client.get_proposal(1);
    assert!(status_eq(&proposal.status, "rejected"));
}

#[test]
fn test_test_finalize_panics_before_deadline() {
    let (now, user, mut client) = setup();
    client
        .create_proposal(&user, "Too Early", "Panic Test", now + 100, "governance", None, now)
        .unwrap();

    assert_eq!(client.finalize(1, now), Err(ProposalError::DeadlineNotReached));
    assert_eq!(client.finalize(1, now + 99), Err(ProposalError::DeadlineNotReached));
    assert!(status_eq(&client.get_proposal(1).status, "open"));
    assert_eq!(client.finalize(1, now + 100), Ok(ProposalStatus::Rejected));
}

#[test]
fn test_test_vote_on_nonexistent_proposal() {
    let (now, user, mut client) = setup();
    assert_eq!(client.vote(&user, 99, "For", now), Err(ProposalError::ProposalNotFound));
    assert_eq!(client.vote(&user, 0, "For", now), Err(ProposalError::ProposalNotFound));
    assert_eq!(client.finalize(99, now), Err(ProposalError::ProposalNotFound));
    assert!(client.find_proposal(99).is_none());
}

#[test]
fn test_test_invalid_proposal_type() {
    let (now, user, mut client) = setup();
    assert_eq!(
        client.create_proposal(&user, "Invalid Type", "Invalid", now + 50, "invalid_type", None, now),
        Err(ProposalError::InvalidProposalType)
    );
    assert_eq!(client.get_all_proposals().len(), 0);
}

#[test]
fn test_test_vote_after_deadline() {
    let (now, user, mut client) = setup();
    let deadline = now + 10;
    client
        .create_proposal(&user, "Late Vote", "Closed", deadline, "treasury", None, now)
        .unwrap();

    assert_eq!(client.vote(&user, 1, "For", deadline + 5), Err(ProposalError::VotingClosed));
    // a vote at the deadline itself still counts
    assert_eq!(client.vote(&user, 1, "For", deadline), Ok(()));
}

#[test]
fn test_test_vote_on_closed_proposal() {
    let (now, user, mut client) = setup();
    client
        .create_proposal(&user, "Closed Test", "Closed", now + 10, "community", None, now)
        .unwrap();

    assert_eq!(client.finalize(1, now + 20), Ok(ProposalStatus::Rejected));

    assert_eq!(client.vote(&user, 1, "For", now + 20), Err(ProposalError::ProposalNotOpen));
    assert_eq!(client.finalize(1, now + 30), Err(ProposalError::AlreadyFinalized));
}

#[test]
fn test_test_invalid_vote_choice() {
    let (now, user, mut client) = setup();
    client
        .create_proposal(&user, "Bad Vote", "Invalid Choice", now + 100, "governance", None, now)
        .unwrap();

    assert_eq!(client.vote(&user, 1, "Bad", now), Err(ProposalError::InvalidVoteChoice));
    assert_eq!(client.vote(&user, 1, "for", now), Err(ProposalError::InvalidVoteChoice));
    assert!(!client.voted(1, &user));
    assert_eq!(client.vote(&user, 1, "Abstain", now), Ok(()));
    assert!(client.voted(1, &user));
    assert_eq!(client.get_votes(1), (0, 0, 1));
}

#[test]
fn test_test_finalize_closed_with_quorum_and_no_votes() {
    let (now, user, mut client) = setup();
    let deadline = now + 10;
    client
        .create_proposal(&user, "No Votes With Quorum", "Should Be Closed", deadline, "treasury", Some(3), now)
        .unwrap();

    assert_eq!(client.finalize(1, deadline + 1), Ok(ProposalStatus::Closed));

    let proposal = client.get_proposal(1);
    assert!(status_eq(&proposal.status, "closed"));
}

#[test]
fn test_test_finalize_rejected_without_quorum_and_no_votes() {
    let (now, user, mut client) = setup();
    let deadline = now + 10;
    client
        .create_proposal(&user, "No Votes No Quorum", "Should Be Rejected", deadline, "treasury", None, now)
        .unwrap();

    assert_eq!(client.finalize(1, deadline + 1), Ok(ProposalStatus::Rejected));

    let proposal = client.get_proposal(1);
    assert!(status_eq(&proposal.status, "rejected"));
}

#[test]
fn test_get_all_proposals_returns_all() {
    let (now, user, mut client) = setup();

    client
        .create_proposal(&user, "Proposal 1", "Description 1", now + 100, "governance", Some(2), now)
        .unwrap();
    client
        .create_proposal(&user, "Proposal 2", "Description 2", now + 200, "technical", None, now)
        .unwrap();

    let proposals = client.get_all_proposals();
    assert_eq!(proposals.len(), 2);
    assert_eq!(proposals.get(0).unwrap().title, "Proposal 1");
    assert_eq!(proposals.get(1).unwrap().title, "Proposal 2");
    assert_eq!(proposals[1].id, 2);
    assert_eq!(client.next_id(), 3);
}

#[test]
fn proposals_are_checked_when_created() {
    let (_, user, mut client) = setup();
    let now = 50;
    assert_eq!(
        client.create_proposal(&user, "T", "D", now, "governance", None, now),
        Err(ProposalError::InvalidDeadline)
    );
    assert_eq!(
        client.create_proposal(&user, "T", "D", now - 1, "nothing", None, now),
        Err(ProposalError::InvalidDeadline)
    );
    assert_eq!(
        client.create_proposal(&user, "", "D", now + 1, "governance", None, now),
        Err(ProposalError::InvalidTitleLength)
    );
    let long = "t".repeat(MAX_TITLE_LENGTH as usize + 1);
    assert_eq!(
        client.create_proposal(&user, &long, "D", now + 1, "governance", None, now),
        Err(ProposalError::InvalidTitleLength)
    );
    let longest = "t".repeat(MAX_TITLE_LENGTH as usize);
    assert_eq!(client.create_proposal(&user, &longest, "D", now + 1, "technical", None, now), Ok(1));
    assert_eq!(client.get_proposal(1).created_at, 50);
    assert_eq!(parse_proposal_type("treasury"), Some(ProposalType::Treasury));
    assert_eq!(parse_proposal_type("governance"), Some(ProposalType::Governance));
    assert_eq!(parse_proposal_type("community"), Some(ProposalType::Community));
    assert_eq!(parse_proposal_type("technical"), Some(ProposalType::Technical));
    assert_eq!(parse_proposal_type("Treasury"), None);
    assert_eq!(parse_vote_choice("For"), Some(VoteChoice::For));
    assert_eq!(parse_vote_choice("Against"), Some(VoteChoice::Against));
    assert_eq!(parse_vote_choice("Abstain"), Some(VoteChoice::Abstain));
    assert_eq!(parse_vote_choice(""), None);
}

#[test]
fn outcome_of_a_vote() {
    assert_eq!(decide(0, 0, 0, None), ProposalStatus::Rejected);
    assert_eq!(decide(0, 0, 0, Some(0)), ProposalStatus::Rejected);
    assert_eq!(decide(0, 0, 0, Some(1)), ProposalStatus::Closed);
    assert_eq!(decide(1, 0, 0, None), ProposalStatus::Accepted);
    assert_eq!(decide(1, 0, 0, Some(1)), ProposalStatus::Accepted);
    assert_eq!(decide(1, 0, 0, Some(2)), ProposalStatus::Closed);
    assert_eq!(decide(1, 0, 1, Some(2)), ProposalStatus::Accepted);
    assert_eq!(decide(2, 2, 0, None), ProposalStatus::Rejected);
    assert_eq!(decide(2, 3, 9, Some(14)), ProposalStatus::Rejected);
    assert_eq!(decide(2, 3, 9, Some(15)), ProposalStatus::Closed);
    assert_eq!(decide(3, 2, 0, Some(5)), ProposalStatus::Accepted);
    assert_eq!(status_to_symbol(ProposalStatus::Open), "open");
    assert_eq!(status_to_symbol(ProposalStatus::Closed), "closed");
    assert_eq!(status_to_symbol(ProposalStatus::Accepted), "accepted");
    assert_eq!(status_to_symbol(ProposalStatus::Rejected), "rejected");
}

#[test]
fn votes_on_one_proposal_do_not_touch_another() {
    let (now, user, mut client) = setup();
    let other = Address::new("other");
    client.create_proposal(&user, "One", "D", now + 10, "treasury", None, now).unwrap();
    client.create_proposal(&user, "Two", "D", now + 10, "treasury", None, now).unwrap();
    client.vote(&user, 1, "For", now).unwrap();
    client.vote(&user, 2, "Against", now).unwrap();
    client.vote(&other, 2, "Against", now).unwrap();
    assert_eq!(client.get_votes(1), (1, 0, 0));
    assert_eq!(client.get_votes(2), (0, 2, 0));
    assert!(client.voted(2, &other));
    assert!(!client.voted(1, &other));
    assert_eq!(client.finalize(2, now + 10), Ok(ProposalStatus::Rejected));
    assert_eq!(client.get_proposal(1).status, ProposalStatus::Open);
    assert_eq!(client.finalize(1, now + 10), Ok(ProposalStatus::Accepted));
}
