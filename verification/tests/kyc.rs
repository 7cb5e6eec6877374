use harmonia_dao::kyc::{KycContract, KycKybContract};

#[test]
fn test_register_and_get_kyc() {
    let mut client = KycKybContract::new();

    let kyc_id = "user123";
    let data_hash = "sha256_hash_example";
    let status = "approved";

    client.register_kyc(kyc_id, data_hash, status);

    let retrieved_status = client.get_kyc_status(kyc_id);
    assert_eq!(retrieved_status, Some(status.to_string()));
}

#[test]
fn test_update_existing_record() {
    let mut client = KycKybContract::new();

    let kyc_id = "user456";
    let original_hash = "original_hash";
    let updated_hash = "updated_hash";
    let original_status = "pending";
    let updated_status = "approved";

    client.register_kyc(kyc_id, original_hash, original_status);

    let status1 = client.get_kyc_status(kyc_id);
    assert_eq!(status1, Some(original_status.to_string()));

    client.register_kyc(kyc_id, updated_hash, updated_status);

    let status2 = client.get_kyc_status(kyc_id);
    assert_eq!(status2, Some(updated_status.to_string()));
    assert_eq!(client.store.records.len(), 1);
    assert_eq!(client.store.records[0].data_hash, updated_hash);
}

#[test]
fn test_get_nonexistent_record() {
    let client = KycKybContract::new();

    let result = client.get_kyc_status("nonexistent");
    assert_eq!(result, None);
}

#[test]
fn test_empty_strings() {
    let mut client = KycKybContract::new();

    client.register_kyc("", "", "");

    let result = client.get_kyc_status("");
    assert_eq!(result, Some(String::new()));
}

#[test]
fn test_multiple_records() {
    let mut client = KycKybContract::new();

    let records = [
        ("user1", "hash1", "approved"),
        ("user2", "hash2", "rejected"),
        ("user3", "hash3", "pending"),
    ];

    for (id, hash, status) in &records {
        client.register_kyc(id, hash, status);
    }

    for (id, _hash, expected_status) in &records {
        let result = client.get_kyc_status(id);
        assert_eq!(result, Some(expected_status.to_string()));
    }
}

#[test]
fn test_event_emission() {
    let mut client = KycKybContract::new();

    client.register_kyc("event_test", "test_hash", "approved");

    // what the event carries: the identifier and the status
    let record = &client.store.records[0];
    assert_eq!(record.kyc_id, "event_test");
    assert_eq!(record.status, "approved");
}

#[test]
fn test_long_strings() {
    let mut client = KycKybContract::new();

    let long_id = "very_long_user_identifier_with_many_characters_12345";
    let long_hash = "sha256_1234567890abcdef1234567890abcdef1234567890abcdef1234567890abcdef";
    let status = "approved";

    client.register_kyc(long_id, long_hash, status);

    let result = client.get_kyc_status(long_id);
    assert_eq!(result, Some(status.to_string()));
}

#[test]
fn test_special_characters() {
    let mut client = KycKybContract::new();

    let special_id = "user@domain.com";
    let hash_with_chars = "0x1234abcd";
    let status = "pending-review";

    client.register_kyc(special_id, hash_with_chars, status);

    let result = client.get_kyc_status(special_id);
    assert_eq!(result, Some(status.to_string()));
}

#[test]
fn test_case_sensitivity() {
    let mut client = KycKybContract::new();

    let id1 = "User123";
    let id2 = "user123";
    let hash = "test_hash";
    let status1 = "approved";
    let status2 = "rejected";

    client.register_kyc(id1, hash, status1);
    client.register_kyc(id2, hash, status2);

    let result1 = client.get_kyc_status(id1);
    let result2 = client.get_kyc_status(id2);

    assert_eq!(result1, Some(status1.to_string()));
    assert_eq!(result2, Some(status2.to_string()));
}

#[test]
fn registering_twice_is_registering_once() {
    let mut store = KycContract::new();
    store.register_kyc("a", "h", "approved");
    store.register_kyc("b", "h", "pending");
    store.register_kyc("a", "h", "approved");
    assert_eq!(store.records.len(), 2);
    assert_eq!(store.get_kyc_status("a"), Some("approved".to_string()));
    assert_eq!(store.get_kyc_status("b"), Some("pending".to_string()));
    assert_eq!(store.get_kyc_status("c"), None);
}
