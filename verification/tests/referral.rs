use harmonia_dao::address::Address;
use harmonia_dao::codes::hash_to_code;
use harmonia_dao::referral::{
    get_campaign_key, get_referrer, get_reward_balance, grant_reward, has_been_referred,
    is_converted, list_referrals, register_referral, ReferralLedger,
};
use harmonia_dao::referral_contract::ReferralContract;
use harmonia_dao::referral_graph::{ReferralError, ReferralStats, MAX_DEPTH};

#[test]
fn test_referral_stats_struct() {
    let stats = ReferralStats { total_invites: 10, converted: 5, pending: 5 };

    assert_eq!(stats.total_invites, 10);
    assert_eq!(stats.converted, 5);
    assert_eq!(stats.pending, 5);
}

#[test]
fn test_register_referral() {
    let mut ledger = ReferralLedger::new();
    let referrer = Address::new("referrer");
    let referee = Address::new("referee");

    register_referral(&mut ledger, &referrer, &referee, 12345).unwrap();

    let stored = ledger.referral(&referee).unwrap();
    assert_eq!(stored.referrer, referrer);
    assert_eq!(stored.referee, referee);
    assert_eq!(stored.timestamp, 12345);

    assert_eq!(ledger.reward(&referrer).unwrap().amount, 1);
    assert_eq!(ledger.reward(&referee).unwrap().referee_amount, 1);
}

#[test]
fn test_self_referral() {
    let mut ledger = ReferralLedger::new();
    let user = Address::new("user");
    assert_eq!(
        register_referral(&mut ledger, &user, &user, 0),
        Err(ReferralError::SelfReferral)
    );
    assert_eq!(ledger.referral_count(), 0);
    assert!(ledger.reward(&user).is_none());
}

#[test]
fn test_duplicate_referral() {
    let mut ledger = ReferralLedger::new();
    let referrer1 = Address::new("referrer-1");
    let referrer2 = Address::new("referrer-2");
    let referee = Address::new("referee");

    register_referral(&mut ledger, &referrer1, &referee, 0).unwrap();
    assert_eq!(
        register_referral(&mut ledger, &referrer2, &referee, 0),
        Err(ReferralError::RefereeAlreadyReferred)
    );
    assert_eq!(get_referrer(&ledger, &referee), Some(referrer1));
    assert_eq!(get_reward_balance(&ledger, &referrer2), 0);
}

#[test]
fn test_get_referrer() {
    let mut ledger = ReferralLedger::new();
    let referrer = Address::new("referrer");
    let referee = Address::new("referee");

    register_referral(&mut ledger, &referrer, &referee, 0).unwrap();

    let result = get_referrer(&ledger, &referee);
    assert_eq!(result, Some(referrer));
}

#[test]
fn test_has_been_referred() {
    let mut ledger = ReferralLedger::new();
    let referrer = Address::new("referrer");
    let referee = Address::new("referee");

    let result_before = has_been_referred(&ledger, &referee);
    assert_eq!(result_before, false);

    register_referral(&mut ledger, &referrer, &referee, 0).unwrap();

    let result_after = has_been_referred(&ledger, &referee);
    assert_eq!(result_after, true);
}

#[test]
fn test_list_referrals() {
    let mut ledger = ReferralLedger::new();
    let referrer = Address::new("referrer");
    let referee1 = Address::new("referee-1");
    let referee2 = Address::new("referee-2");

    register_referral(&mut ledger, &referrer, &referee1, 0).unwrap();
    register_referral(&mut ledger, &referrer, &referee2, 0).unwrap();

    let result = list_referrals(&ledger, &referrer);
    assert_eq!(result.len(), 2);
    assert!(result.contains(&referee1));
    assert!(result.contains(&referee2));
}

#[test]
fn test_grant_reward() {
    let mut ledger = ReferralLedger::new();
    let referrer = Address::new("referrer");
    let referee = Address::new("referee");

    register_referral(&mut ledger, &referrer, &referee, 0).unwrap();

    let balance_before = get_reward_balance(&ledger, &referrer);
    assert_eq!(balance_before, 1);

    let paid = grant_reward(&mut ledger, &referrer);
    assert_eq!(paid, Some(1));

    let balance_after = get_reward_balance(&ledger, &referrer);
    assert_eq!(balance_after, 0);
}

#[test]
fn test_circular_referral() {
    let mut ledger = ReferralLedger::new();
    let addr1 = Address::new("addr-1");
    let addr2 = Address::new("addr-2");

    register_referral(&mut ledger, &addr1, &addr2, 7).unwrap();
    assert_eq!(
        register_referral(&mut ledger, &addr2, &addr1, 8),
        Err(ReferralError::CircularReferral)
    );
    // the first referral stands as it was
    assert_eq!(get_referrer(&ledger, &addr2), Some(addr1.clone()));
    assert_eq!(ledger.referral(&addr2).unwrap().timestamp, 7);
    assert_eq!(get_referrer(&ledger, &addr1), None);
    assert_eq!(get_reward_balance(&ledger, &addr1), 1);
    assert_eq!(get_reward_balance(&ledger, &addr2), 0);
}

#[test]
fn test_idempotent_registration_panics_on_repeat() {
    let mut ledger = ReferralLedger::new();
    let referrer = Address::new("referrer");
    let referee = Address::new("referee");

    register_referral(&mut ledger, &referrer, &referee, 0).unwrap();
    assert_eq!(
        register_referral(&mut ledger, &referrer, &referee, 0),
        Err(ReferralError::RefereeAlreadyReferred)
    );
    assert_eq!(get_reward_balance(&ledger, &referrer), 1);
}

// The engine beyond the scenarios above.

fn member(i: usize) -> Address {
    Address::from_string(format!("member-{i}"))
}

#[test]
fn cycle_through_several_referrals_is_refused() {
    let mut ledger = ReferralLedger::new();
    // 0 referred 1, 1 referred 2, 2 referred 3
    for i in 0..3 {
        register_referral(&mut ledger, &member(i), &member(i + 1), 0).unwrap();
    }
    // 0 has no referrer; 3 as its referrer would close the circle
    assert_eq!(
        register_referral(&mut ledger, &member(3), &member(0), 0),
        Err(ReferralError::CircularReferral)
    );
    assert_eq!(get_referrer(&ledger, &member(0)), None);
}

#[test]
fn referrer_with_a_chain_of_max_depth_is_accepted() {
    assert_eq!(MAX_DEPTH, 5);
    let mut ledger = ReferralLedger::new();
    // member(5) has five ancestors: 4, 3, 2, 1, 0
    for i in 0..5 {
        register_referral(&mut ledger, &member(i), &member(i + 1), 0).unwrap();
    }
    let outsider = Address::new("outsider");
    assert_eq!(register_referral(&mut ledger, &member(5), &outsider, 0), Ok(()));
    assert_eq!(get_referrer(&ledger, &outsider), Some(member(5)));
}

#[test]
fn referrer_with_a_longer_chain_is_refused() {
    let mut ledger = ReferralLedger::new();
    // member(6) has six ancestors: the walk is not over after MAX_DEPTH hops
    for i in 0..6 {
        register_referral(&mut ledger, &member(i), &member(i + 1), 0).unwrap();
    }
    let outsider = Address::new("outsider");
    assert_eq!(
        register_referral(&mut ledger, &member(6), &outsider, 0),
        Err(ReferralError::CircularReferral)
    );
    assert!(!has_been_referred(&ledger, &outsider));
    assert_eq!(get_reward_balance(&ledger, &member(6)), 0);
}

#[test]
fn rewards_count_referrals_and_a_claim_resets_them() {
    let mut ledger = ReferralLedger::new();
    let referrer = Address::new("referrer");
    assert_eq!(grant_reward(&mut ledger, &referrer), None);
    for i in 0..3 {
        register_referral(&mut ledger, &referrer, &member(i), i as u64).unwrap();
    }
    assert_eq!(get_reward_balance(&ledger, &referrer), 3);
    assert_eq!(ledger.reward(&referrer).unwrap().referee_amount, 0);
    assert_eq!(ledger.reward(&member(1)).unwrap().amount, 0);
    assert_eq!(ledger.reward(&member(1)).unwrap().referee_amount, 1);
    assert_eq!(grant_reward(&mut ledger, &referrer), Some(3));
    assert_eq!(get_reward_balance(&ledger, &referrer), 0);
    assert_eq!(grant_reward(&mut ledger, &referrer), None);
    // a referee that claims has nothing to claim
    assert_eq!(grant_reward(&mut ledger, &member(1)), None);
    assert_eq!(ledger.reward(&member(1)).unwrap().referee_amount, 1);
    register_referral(&mut ledger, &referrer, &member(7), 0).unwrap();
    assert_eq!(get_reward_balance(&ledger, &referrer), 1);
}

#[test]
fn campaign_key_is_spelled_out() {
    assert_eq!(get_campaign_key(), "referrals");
}

#[test]
fn conversions_are_marked_once() {
    let mut contract = ReferralContract::new();
    let inviter = Address::new("inviter");
    let user = Address::new("user");
    assert_eq!(contract.mark_converted(&user), Err(ReferralError::NotReferred));
    contract.register_referral(&inviter, &user, 0).unwrap();
    assert!(!is_converted(contract.ledger(), &user));
    assert_eq!(contract.mark_converted(&user), Ok(()));
    assert!(is_converted(contract.ledger(), &user));
    assert_eq!(contract.mark_converted(&user), Err(ReferralError::AlreadyConverted));
    assert_eq!(contract.mark_converted(&inviter), Err(ReferralError::NotReferred));
}

#[test]
fn stats_add_up() {
    let mut contract = ReferralContract::new();
    let inviter = Address::new("inviter");
    let other = Address::new("other");
    assert_eq!(
        contract.get_referral_stats(&inviter),
        ReferralStats { total_invites: 0, converted: 0, pending: 0 }
    );
    for i in 0..5 {
        contract.register_referral(&inviter, &member(i), 0).unwrap();
    }
    contract.register_referral(&other, &member(9), 0).unwrap();
    contract.mark_converted(&member(1)).unwrap();
    contract.mark_converted(&member(3)).unwrap();
    contract.mark_converted(&member(9)).unwrap();
    let stats = contract.get_referral_stats(&inviter);
    assert_eq!(stats, ReferralStats { total_invites: 5, converted: 2, pending: 3 });
    assert_eq!(stats.total_invites, stats.converted + stats.pending);
    assert_eq!(
        contract.get_referral_stats(&other),
        ReferralStats { total_invites: 1, converted: 1, pending: 0 }
    );
    assert_eq!(contract.referral_count(), 6);
    assert_eq!(contract.list_referrals(&inviter).len(), 5);
    assert_eq!(contract.get_referrer(&member(9)), Some(other.clone()));
    assert!(contract.has_been_referred(&member(0)));
    assert_eq!(contract.get_reward_balance(&inviter), 5);
    assert_eq!(contract.grant_reward(&inviter), Some(5));
}

#[test]
fn leaderboard_lists_the_most_conversions_first() {
    let mut contract = ReferralContract::new();
    let referrer1 = Address::new("referrer-1");
    let referrer2 = Address::new("referrer-2");
    let referrer3 = Address::new("referrer-3");
    assert!(contract.get_leaderboard().is_empty());
    contract.register_referral(&referrer2, &member(0), 0).unwrap();
    contract.register_referral(&referrer1, &member(1), 0).unwrap();
    contract.register_referral(&referrer1, &member(2), 0).unwrap();
    contract.register_referral(&referrer3, &member(3), 0).unwrap();
    // nobody has converted yet
    assert!(contract.get_leaderboard().is_empty());
    contract.mark_converted(&member(0)).unwrap();
    contract.mark_converted(&member(1)).unwrap();
    contract.mark_converted(&member(2)).unwrap();
    let board = contract.get_leaderboard();
    assert_eq!(board.len(), 2);
    assert_eq!(board[0].address, referrer1);
    assert_eq!(board[0].converted, 2);
    assert_eq!(board[1].address, referrer2);
    assert_eq!(board[1].converted, 1);
}

#[test]
fn invitation_codes_are_kept_and_redeemed() {
    assert_eq!(hash_to_code(&vec![0x00, 0xab, 0x1f, 0xf0, 0x99, 0x01]), "00AB1FF0");
    assert_eq!(hash_to_code(&vec![0xde, 0xad]), "DEAD");
    assert_eq!(hash_to_code(&Vec::new()), "");
    let digest: Vec<u8> = (0u8..32).map(|i| i.wrapping_mul(37).wrapping_add(200)).collect();
    let code = hash_to_code(&digest);
    assert_eq!(code, "C8ED1237");

    let mut contract = ReferralContract::new();
    let inviter = Address::new("inviter");
    let other = Address::new("other");
    let user = Address::new("user");
    assert_eq!(contract.generate_code(&inviter, &digest), "C8ED1237");
    // the inviter keeps its code whatever the digest
    assert_eq!(contract.generate_code(&inviter, &vec![1, 2, 3, 4]), "C8ED1237");
    assert_eq!(contract.generate_code(&other, &vec![1, 2, 3, 4]), "01020304");
    // an unknown code does nothing
    assert_eq!(contract.use_code("FFFFFFFF", &user, 9), Ok(None));
    assert!(!contract.has_been_referred(&user));
    assert_eq!(contract.use_code("01020304", &user, 9), Ok(Some(other.clone())));
    assert_eq!(contract.get_referrer(&user), Some(other.clone()));
    assert_eq!(contract.ledger().referral(&user).unwrap().timestamp, 9);
    assert_eq!(contract.get_reward_balance(&other), 1);
    // a code cannot be redeemed twice by one user, nor by its owner
    assert_eq!(
        contract.use_code("C8ED1237", &user, 10),
        Err(ReferralError::RefereeAlreadyReferred)
    );
    assert_eq!(contract.use_code("C8ED1237", &inviter, 10), Err(ReferralError::SelfReferral));
    assert_eq!(contract.get_reward_balance(&inviter), 0);
}
