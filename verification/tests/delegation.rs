use harmonia_dao::address::Address;
use harmonia_dao::delegation::DelegationError;
use harmonia_dao::delegation_contract::DelegationContract;

fn create_test_env() -> (DelegationContract, Address, Address, Address, Address, Address) {
    let admin = Address::new("admin");
    let client = DelegationContract::new(admin.clone());
    let member_1 = Address::new("member-1");
    let member_2 = Address::new("member-2");
    let member_3 = Address::new("member-3");
    let member_4 = Address::new("member-4");
    (client, admin, member_1, member_2, member_3, member_4)
}

#[test]
fn test_basic_delegation() {
    let (mut client, _admin, member_1, member_2, _member_3, _member_4) = create_test_env();

    client.set_base_power(&member_1, 10);
    client.set_base_power(&member_2, 5);

    assert_eq!(client.get_voting_power(&member_1), Ok(10));
    assert_eq!(client.get_voting_power(&member_2), Ok(5));

    client.delegate_votes(&member_1, &member_2).unwrap();

    assert_eq!(client.get_voting_power(&member_1), Ok(10));
    assert_eq!(client.get_voting_power(&member_2), Ok(15));

    assert_eq!(client.get_delegate(&member_1), Some(member_2.clone()));
    let delegators = client.get_delegators(&member_2);
    assert_eq!(delegators.len(), 1);
    assert_eq!(delegators[0], member_1);
}

#[test]
fn test_undelegation() {
    let (mut client, _admin, member_1, member_2, _member_3, _member_4) = create_test_env();

    client.set_base_power(&member_1, 10);
    client.set_base_power(&member_2, 5);

    client.delegate_votes(&member_1, &member_2).unwrap();
    assert_eq!(client.get_voting_power(&member_2), Ok(15));

    client.undelegate(&member_1).unwrap();

    assert_eq!(client.get_voting_power(&member_1), Ok(10));
    assert_eq!(client.get_voting_power(&member_2), Ok(5));

    assert_eq!(client.get_delegate(&member_1), None);
    assert_eq!(client.get_delegators(&member_2).len(), 0);
}

#[test]
fn test_self_delegation_prevention() {
    let (mut client, _admin, member_1, _member_2, _member_3, _member_4) = create_test_env();

    client.set_base_power(&member_1, 10);

    let result = client.delegate_votes(&member_1, &member_1);
    assert!(result.is_err());
    assert_eq!(result, Err(DelegationError::SelfDelegation));

    assert_eq!(client.get_voting_power(&member_1), Ok(10));
    assert_eq!(client.get_delegate(&member_1), None);
    assert!(!client.has_delegation(&member_1));
}

#[test]
fn test_multiple_delegators() {
    let (mut client, _admin, member_1, member_2, member_3, member_4) = create_test_env();

    client.set_base_power(&member_1, 10);
    client.set_base_power(&member_2, 5);
    client.set_base_power(&member_3, 3);
    client.set_base_power(&member_4, 2);

    client.delegate_votes(&member_1, &member_2).unwrap();
    client.delegate_votes(&member_3, &member_2).unwrap();
    client.delegate_votes(&member_4, &member_2).unwrap();

    let delegators = client.get_delegators(&member_2);
    assert_eq!(delegators.len(), 3);

    let delegator_addrs: Vec<Address> = delegators;
    assert!(delegator_addrs.contains(&member_1));
    assert!(delegator_addrs.contains(&member_3));
    assert!(delegator_addrs.contains(&member_4));
}

#[test]
fn test_redelegation() {
    let (mut client, _admin, member_1, member_2, member_3, _member_4) = create_test_env();

    client.set_base_power(&member_1, 10);
    client.set_base_power(&member_2, 5);
    client.set_base_power(&member_3, 3);

    client.delegate_votes(&member_1, &member_2).unwrap();
    assert_eq!(client.get_voting_power(&member_2), Ok(15));
    assert_eq!(client.get_voting_power(&member_3), Ok(3));

    client.delegate_votes(&member_1, &member_3).unwrap();

    assert_eq!(client.get_voting_power(&member_2), Ok(5));
    assert_eq!(client.get_voting_power(&member_3), Ok(13));

    assert_eq!(client.get_delegate(&member_1), Some(member_3.clone()));
    assert_eq!(client.get_delegators(&member_2).len(), 0);
    assert_eq!(client.get_delegators(&member_3).len(), 1);
}

#[test]
fn test_zero_base_power() {
    let (mut client, _admin, member_1, member_2, _member_3, _member_4) = create_test_env();

    client.set_base_power(&member_2, 10);

    client.delegate_votes(&member_1, &member_2).unwrap();

    assert_eq!(client.get_voting_power(&member_1), Ok(1));
    assert_eq!(client.get_voting_power(&member_2), Ok(11));
}

#[test]
fn test_has_delegation_check() {
    let (mut client, _admin, member_1, member_2, member_3, _member_4) = create_test_env();

    assert_eq!(client.has_delegation(&member_1), false);
    assert_eq!(client.has_delegation(&member_2), false);

    client.delegate_votes(&member_1, &member_2).unwrap();

    assert_eq!(client.has_delegation(&member_1), true);
    assert_eq!(client.has_delegation(&member_2), true);
    assert_eq!(client.has_delegation(&member_3), false);

    client.undelegate(&member_1).unwrap();
    assert_eq!(client.has_delegation(&member_1), false);
    assert_eq!(client.has_delegation(&member_2), false);
}

#[test]
fn test_voting_power_details() {
    let (mut client, _admin, member_1, member_2, _member_3, _member_4) = create_test_env();

    client.set_base_power(&member_1, 10);
    client.set_base_power(&member_2, 5);

    client.delegate_votes(&member_1, &member_2).unwrap();

    let member_2_details = client.get_voting_power_details(&member_2).unwrap();
    assert_eq!(member_2_details.member, member_2);
    assert_eq!(member_2_details.total_power, 15);
}

#[test]
fn test_circular_delegation_prevention() {
    let (mut client, _admin, member_1, member_2, member_3, _member_4) = create_test_env();

    client.set_base_power(&member_1, 10);
    client.set_base_power(&member_2, 5);
    client.set_base_power(&member_3, 3);

    client.delegate_votes(&member_1, &member_2).unwrap();
    client.delegate_votes(&member_2, &member_3).unwrap();

    assert_eq!(client.get_delegate(&member_1), Some(member_2.clone()));
    assert_eq!(client.get_delegate(&member_2), Some(member_3.clone()));

    let member_2_delegators = client.get_delegators(&member_2);
    assert_eq!(member_2_delegators.len(), 1);
    assert!(member_2_delegators.contains(&member_1));

    let member_3_delegators = client.get_delegators(&member_3);
    assert_eq!(member_3_delegators.len(), 1);
    assert!(member_3_delegators.contains(&member_2));

    // Closing the circle is not refused when the edge is written.
    client.delegate_votes(&member_3, &member_1).unwrap();
    assert_eq!(client.get_delegate(&member_3), Some(member_1.clone()));
}

#[test]
fn test_max_power_delegation() {
    let (mut client, _admin, member_1, member_2, _member_3, _member_4) = create_test_env();

    let max_power = i128::MAX / 2;
    client.set_base_power(&member_1, max_power);
    client.set_base_power(&member_2, max_power);

    client.delegate_votes(&member_1, &member_2).unwrap();

    assert_eq!(client.get_voting_power(&member_1), Ok(max_power));
    assert_eq!(client.get_voting_power(&member_2), Ok(max_power * 2));
}

#[test]
fn test_concurrent_delegations() {
    let (mut client, _admin, member_1, member_2, member_3, member_4) = create_test_env();

    client.set_base_power(&member_1, 10);
    client.set_base_power(&member_2, 5);
    client.set_base_power(&member_3, 3);
    client.set_base_power(&member_4, 2);

    client.delegate_votes(&member_1, &member_2).unwrap();
    client.delegate_votes(&member_3, &member_2).unwrap();
    client.delegate_votes(&member_4, &member_2).unwrap();

    assert_eq!(client.get_voting_power(&member_2), Ok(20));

    let delegators = client.get_delegators(&member_2);
    assert_eq!(delegators.len(), 3);

    client.undelegate(&member_1).unwrap();
    client.undelegate(&member_3).unwrap();
    client.undelegate(&member_4).unwrap();

    assert_eq!(client.get_voting_power(&member_2), Ok(5));
    assert_eq!(client.get_delegators(&member_2).len(), 0);
}

// The engine beyond the scenarios above.

#[test]
fn power_flows_along_a_chain_of_delegations() {
    let (mut client, _admin, member_1, member_2, member_3, member_4) = create_test_env();
    client.set_base_power(&member_1, 10);
    client.set_base_power(&member_2, 5);
    client.set_base_power(&member_3, 3);

    client.delegate_votes(&member_1, &member_2).unwrap();
    client.delegate_votes(&member_2, &member_3).unwrap();
    client.delegate_votes(&member_4, &member_1).unwrap();

    // 4 -> 1 -> 2 -> 3
    assert_eq!(client.get_voting_power(&member_4), Ok(1));
    assert_eq!(client.get_voting_power(&member_1), Ok(11));
    assert_eq!(client.get_voting_power(&member_2), Ok(16));
    assert_eq!(client.get_voting_power(&member_3), Ok(19));
}

#[test]
fn power_on_a_cycle_is_refused() {
    let (mut client, _admin, member_1, member_2, member_3, member_4) = create_test_env();
    client.delegate_votes(&member_1, &member_2).unwrap();
    client.delegate_votes(&member_2, &member_3).unwrap();
    client.delegate_votes(&member_3, &member_1).unwrap();
    client.delegate_votes(&member_4, &member_1).unwrap();

    assert_eq!(client.get_voting_power(&member_1), Err(DelegationError::CircularDelegation));
    assert_eq!(client.get_voting_power(&member_2), Err(DelegationError::CircularDelegation));
    assert_eq!(client.get_voting_power(&member_3), Err(DelegationError::CircularDelegation));
    assert!(client.get_voting_power_details(&member_3).is_err());
    // member_4 feeds the cycle but does not lie on it
    assert_eq!(client.get_voting_power(&member_4), Ok(1));

    // breaking the cycle makes the powers defined again
    client.undelegate(&member_3).unwrap();
    assert_eq!(client.get_voting_power(&member_3), Ok(4));
    assert_eq!(client.get_voting_power(&member_1), Ok(2));
}

#[test]
fn power_beyond_the_range_is_an_overflow() {
    let (mut client, _admin, member_1, member_2, member_3, _member_4) = create_test_env();
    client.set_base_power(&member_1, i128::MAX);
    client.set_base_power(&member_2, 1);
    client.delegate_votes(&member_1, &member_2).unwrap();
    assert_eq!(client.get_voting_power(&member_2), Err(DelegationError::PowerOverflow));
    assert_eq!(client.get_voting_power(&member_1), Ok(i128::MAX));

    client.set_base_power(&member_3, i128::MAX - 1);
    client.delegate_votes(&member_1, &member_3).unwrap();
    assert_eq!(client.get_voting_power(&member_3), Err(DelegationError::PowerOverflow));
    client.undelegate(&member_1).unwrap();
    client.delegate_votes(&member_2, &member_3).unwrap();
    assert_eq!(client.get_voting_power(&member_3), Ok(i128::MAX));
}

#[test]
fn undelegate_without_delegation_is_refused() {
    let (mut client, _admin, member_1, member_2, _member_3, _member_4) = create_test_env();
    assert_eq!(client.undelegate(&member_1), Err(DelegationError::NoDelegation));
    client.delegate_votes(&member_1, &member_2).unwrap();
    assert_eq!(client.undelegate(&member_2), Err(DelegationError::NoDelegation));
    assert_eq!(client.undelegate(&member_1), Ok(()));
    assert_eq!(client.undelegate(&member_1), Err(DelegationError::NoDelegation));
}

#[test]
fn base_power_of_zero_or_less_resets_to_the_default() {
    let (mut client, admin, member_1, _member_2, _member_3, _member_4) = create_test_env();
    assert_eq!(client.admin(), &admin);
    assert_eq!(client.get_voting_power(&member_1), Ok(1));
    client.set_base_power(&member_1, 42);
    assert_eq!(client.get_voting_power(&member_1), Ok(42));
    client.set_base_power(&member_1, 0);
    assert_eq!(client.get_voting_power(&member_1), Ok(1));
    client.set_base_power(&member_1, 7);
    client.set_base_power(&member_1, -3);
    assert_eq!(client.get_voting_power(&member_1), Ok(1));
}

#[test]
fn reverse_index_matches_the_forward_edges() {
    let (mut client, _admin, member_1, member_2, member_3, member_4) = create_test_env();
    let members = [member_1.clone(), member_2.clone(), member_3.clone(), member_4.clone()];
    client.delegate_votes(&member_1, &member_2).unwrap();
    client.delegate_votes(&member_3, &member_2).unwrap();
    client.delegate_votes(&member_4, &member_3).unwrap();
    client.delegate_votes(&member_1, &member_3).unwrap();
    client.delegate_votes(&member_1, &member_3).unwrap();
    client.undelegate(&member_4).unwrap();
    for delegate in members.iter() {
        let listed = client.get_delegators(delegate);
        for x in members.iter() {
            let points_here = client.get_delegate(x) == Some(delegate.clone());
            assert_eq!(listed.contains(x), points_here);
        }
        for (i, x) in listed.iter().enumerate() {
            assert!(!listed[..i].contains(x));
        }
    }
    assert_eq!(client.get_delegators(&member_3), vec![member_1.clone()]);
    assert_eq!(client.get_delegators(&member_2), vec![member_3.clone()]);
}

#[test]
fn delegating_again_after_undelegating_restores_the_edge() {
    let (mut client, _admin, member_1, member_2, member_3, _member_4) = create_test_env();
    client.delegate_votes(&member_3, &member_2).unwrap();
    client.delegate_votes(&member_1, &member_2).unwrap();
    let delegate_before = client.get_delegate(&member_1);
    let mut listed_before = client.get_delegators(&member_2);
    client.undelegate(&member_1).unwrap();
    client.delegate_votes(&member_1, &member_2).unwrap();
    let mut listed_after = client.get_delegators(&member_2);
    assert_eq!(client.get_delegate(&member_1), delegate_before);
    listed_before.sort_by(|a, b| a.as_str().cmp(b.as_str()));
    listed_after.sort_by(|a, b| a.as_str().cmp(b.as_str()));
    assert_eq!(listed_before, listed_after);
}
