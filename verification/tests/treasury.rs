use harmonia_dao::address::Address;
use harmonia_dao::decimal::u64_to_str;
use harmonia_dao::treasury::{
    check_rate_limit, generate_tx_id, validate_milestone_id, RateLimit, TransactionLog,
    TreasuryContract, TreasuryError, TxDirection, TxStatus, PLACEHOLDER_ADDRESS,
};

/// Stands in for the proposal contract that vouches for milestones.
pub struct MockProposalContract {
    milestones: Vec<String>,
}

impl MockProposalContract {
    pub fn milestone_exists(&self, milestone_id: &str) -> bool {
        self.milestones.iter().any(|m| m == milestone_id)
    }

    pub fn create_milestone(&mut self, milestone_id: &str) -> bool {
        self.milestones.push(milestone_id.to_string());
        true
    }
}

/// Plays the host: it keeps the time and the ledger sequence, and asks the
/// proposal contract about milestones once one is set.
struct Client {
    treasury: TreasuryContract,
    proposals: MockProposalContract,
    timestamp: u64,
    sequence: u32,
}

impl Client {
    fn new() -> Client {
        Client {
            treasury: TreasuryContract::new(),
            proposals: MockProposalContract { milestones: Vec::new() },
            timestamp: 0,
            sequence: 0,
        }
    }

    fn milestone_valid(&self, milestone_id: &str) -> bool {
        match &self.treasury.proposal_contract {
            Some(_) => self.proposals.milestone_exists(milestone_id),
            None => true,
        }
    }

    fn deposit(&mut self, asset: &Address, from: &Address, amount: i128) -> Result<String, TreasuryError> {
        self.treasury.deposit(asset, from, amount, self.timestamp, self.sequence)
    }

    fn schedule_release(
        &mut self,
        caller: &Address,
        asset: &Address,
        amount: i128,
        unlock_time: u64,
        milestone_id: &str,
    ) -> Result<String, TreasuryError> {
        let valid = self.milestone_valid(milestone_id);
        self.treasury.schedule_release(
            caller,
            asset,
            amount,
            unlock_time,
            milestone_id,
            self.timestamp,
            self.sequence,
            valid,
        )
    }

    fn release(
        &mut self,
        caller: &Address,
        asset: &Address,
        to: &Address,
        amount: i128,
        milestone_id: &str,
    ) -> Result<String, TreasuryError> {
        let valid = self.milestone_valid(milestone_id);
        self.treasury.release(
            caller,
            asset,
            to,
            amount,
            milestone_id,
            self.timestamp,
            self.sequence,
            valid,
        )
    }

    fn process_scheduled_release(
        &mut self,
        caller: &Address,
        tx_id: &str,
        to: &Address,
    ) -> Result<(), TreasuryError> {
        let valid = match self.treasury.find_pending(tx_id) {
            Some(tx) => self.milestone_valid(&tx.milestone_id),
            None => true,
        };
        self.treasury.process_scheduled_release(caller, tx_id, to, self.timestamp, valid)
    }

    fn set_rate_limit(
        &mut self,
        caller: &Address,
        asset: &Address,
        max_amount: i128,
        window: u64,
    ) -> Result<(), TreasuryError> {
        self.treasury.set_rate_limit(caller, asset, max_amount, window, self.timestamp)
    }
}

#[test]
fn test_test_initialization() {
    let mut client = Client::new();
    let admin = Address::new("admin");

    client.treasury.init(admin.clone()).unwrap();

    let stored_admin = client.treasury.get_admin();
    assert!(stored_admin.is_some());
    assert_eq!(stored_admin.unwrap(), &admin);
}

#[test]
fn test_initialization_already_initialized() {
    let mut client = Client::new();
    let admin1 = Address::new("admin-1");
    let admin2 = Address::new("admin-2");

    client.treasury.init(admin1.clone()).unwrap();

    let result = client.treasury.init(admin2);
    assert_eq!(result, Err(TreasuryError::AlreadyInitialized));

    let stored_admin = client.treasury.get_admin();
    assert!(stored_admin.is_some());
    assert_eq!(stored_admin.unwrap(), &admin1);
}

#[test]
fn test_admin_functions() {
    let mut client = Client::new();
    let admin = Address::new("admin");
    let non_admin = Address::new("non-admin");
    let proposal_contract = Address::new("proposals");
    let asset = Address::new("asset");

    client.treasury.init(admin.clone()).unwrap();

    client.treasury.set_proposal_contract(&admin, proposal_contract.clone()).unwrap();

    client.set_rate_limit(&admin, &asset, 1000, 3600).unwrap();

    let (max_amount, time_window) = client.treasury.get_rate_limit(&asset);
    assert_eq!(max_amount, 1000);
    assert_eq!(time_window, 3600);

    let result = client.treasury.set_proposal_contract(&non_admin, proposal_contract);
    assert_eq!(result, Err(TreasuryError::Unauthorized));

    let result = client.set_rate_limit(&non_admin, &asset, 2000, 7200);
    assert_eq!(result, Err(TreasuryError::Unauthorized));

    let (max_amount, time_window) = client.treasury.get_rate_limit(&asset);
    assert_eq!(max_amount, 1000);
    assert_eq!(time_window, 3600);
}

#[test]
fn test_deposit() {
    let mut client = Client::new();
    let user = Address::new("user");
    let asset = Address::new("asset");
    let amount = 1000_i128;

    client.deposit(&asset, &user, amount).unwrap();

    assert_eq!(client.treasury.get_balance(&asset), 1000);
}

#[test]
fn test_deposit_invalid_amount() {
    let mut client = Client::new();
    let user = Address::new("user");
    let asset = Address::new("asset");

    let result = client.deposit(&asset, &user, 0);
    assert_eq!(result, Err(TreasuryError::InvalidAmount));
    let result = client.deposit(&asset, &user, -5);
    assert_eq!(result, Err(TreasuryError::InvalidAmount));
    assert_eq!(client.treasury.get_balance(&asset), 0);
    assert!(client.treasury.get_transaction_log().is_empty());
    assert!(client.treasury.get_assets().is_empty());
}

#[test]
fn test_schedule_release_success() {
    let mut client = Client::new();
    let user = Address::new("user");
    let asset = Address::new("asset");
    let amount = 1000_i128;
    let milestone_id = "m1";

    client.timestamp = 12345;

    let current_time = client.timestamp;
    let unlock_time = current_time + 100;

    client.deposit(&asset, &user, amount).unwrap();

    let _tx_id = client.schedule_release(&user, &asset, amount, unlock_time, milestone_id).unwrap();

    assert_eq!(client.treasury.get_reserved(&asset), amount);
}

#[test]
fn test_schedule_release_invalid_unlock_time() {
    let mut client = Client::new();
    let user = Address::new("user");
    let asset = Address::new("asset");
    let milestone_id = "m1";

    client.timestamp = 12345;
    let current_time = client.timestamp;

    client.deposit(&asset, &user, 1000).unwrap();

    let result = client.schedule_release(&user, &asset, 500, current_time, milestone_id);
    assert_eq!(result, Err(TreasuryError::InvalidUnlockTime));
}

#[test]
fn test_schedule_release_insufficient_funds() {
    let mut client = Client::new();
    let user = Address::new("user");
    let asset = Address::new("asset");
    let milestone_id = "m1";

    client.timestamp = 12345;
    let current_time = client.timestamp;

    client.deposit(&asset, &user, 500).unwrap();

    let result = client.schedule_release(&user, &asset, 1000, current_time + 100, milestone_id);
    assert_eq!(result, Err(TreasuryError::InsufficientFunds));
}

#[test]
fn test_release_success() {
    let mut client = Client::new();
    let admin = Address::new("admin");
    client.treasury.init(admin.clone()).unwrap();

    let user = Address::new("user");
    let recipient = Address::new("recipient");
    let asset = Address::new("asset");
    let amount = 1000_i128;
    let milestone_id = "m1";

    client.deposit(&asset, &user, amount).unwrap();

    client.release(&admin, &asset, &recipient, 500, milestone_id).unwrap();

    assert_eq!(client.treasury.get_balance(&asset), 500);
}

#[test]
fn test_release_insufficient_funds() {
    let mut client = Client::new();
    let admin = Address::new("admin");
    client.treasury.init(admin.clone()).unwrap();

    let user = Address::new("user");
    let recipient = Address::new("recipient");
    let asset = Address::new("asset");
    let milestone_id = "m1";

    client.deposit(&asset, &user, 500).unwrap();

    let current_time = client.timestamp;
    let unlock_time = current_time + 100;
    client.schedule_release(&user, &asset, 500, unlock_time, milestone_id).unwrap();

    let result = client.release(&admin, &asset, &recipient, 500, milestone_id);
    assert_eq!(result, Err(TreasuryError::InsufficientFunds));
}

#[test]
fn test_release_invalid_amount() {
    let mut client = Client::new();
    let admin = Address::new("admin");
    client.treasury.init(admin.clone()).unwrap();

    let user = Address::new("user");
    let recipient = Address::new("recipient");
    let asset = Address::new("asset");
    let milestone_id = "m1";

    client.deposit(&asset, &user, 500).unwrap();

    let result = client.release(&admin, &asset, &recipient, 0, milestone_id);
    assert_eq!(result, Err(TreasuryError::InvalidAmount));
}

#[test]
fn test_process_scheduled_release_success() {
    let mut client = Client::new();
    let admin = Address::new("admin");
    client.treasury.init(admin.clone()).unwrap();

    let user = Address::new("user");
    let recipient = Address::new("recipient");
    let asset = Address::new("asset");
    let amount = 1000_i128;
    let milestone_id = "m1";

    client.timestamp = 12345;
    let current_time = client.timestamp;
    let unlock_time = current_time + 100;

    client.deposit(&asset, &user, amount).unwrap();

    let tx_id = client.schedule_release(&user, &asset, 500, unlock_time, milestone_id).unwrap();

    let result = client.process_scheduled_release(&admin, &tx_id, &recipient);
    assert_eq!(result, Err(TreasuryError::UnlockTimeNotReached));

    client.timestamp = unlock_time + 1;

    client.process_scheduled_release(&admin, &tx_id, &recipient).unwrap();

    let tx = client.treasury.get_transaction_by_id(&tx_id).unwrap();
    assert_eq!(tx.status, TxStatus::Released);

    assert_eq!(client.treasury.get_balance(&asset), 500);
    assert_eq!(client.treasury.get_reserved(&asset), 0);
}

#[test]
fn test_process_scheduled_release_not_found() {
    let mut client = Client::new();
    let admin = Address::new("admin");
    client.treasury.init(admin.clone()).unwrap();

    let recipient = Address::new("recipient");
    let tx_id = "not_found";

    let result = client.process_scheduled_release(&admin, tx_id, &recipient);
    assert_eq!(result, Err(TreasuryError::TransactionNotFound));
}

#[test]
fn test_process_scheduled_release_unauthorized() {
    let mut client = Client::new();
    let admin = Address::new("admin");
    client.treasury.init(admin.clone()).unwrap();

    let user = Address::new("user");
    let non_admin = Address::new("non-admin");
    let recipient = Address::new("recipient");
    let asset = Address::new("asset");
    let amount = 1000_i128;
    let milestone_id = "m1";

    client.timestamp = 12345;
    let current_time = client.timestamp;
    let unlock_time = current_time + 100;

    client.deposit(&asset, &user, amount).unwrap();

    let tx_id = client.schedule_release(&user, &asset, 500, unlock_time, milestone_id).unwrap();

    client.timestamp = unlock_time + 1;

    let result = client.process_scheduled_release(&non_admin, &tx_id, &recipient);
    assert_eq!(result, Err(TreasuryError::Unauthorized));

    let tx = client.treasury.get_transaction_by_id(&tx_id).unwrap();
    assert_eq!(tx.status, TxStatus::Pending);

    client.process_scheduled_release(&admin, &tx_id, &recipient).unwrap();

    let tx = client.treasury.get_transaction_by_id(&tx_id).unwrap();
    assert_eq!(tx.status, TxStatus::Released);
}

#[test]
fn test_get_transaction_by_id() {
    let mut client = Client::new();
    let user = Address::new("user");
    let asset = Address::new("asset");

    client.deposit(&asset, &user, 1000).unwrap();

    let logs = client.treasury.get_transaction_log();
    assert_eq!(logs.len(), 1);

    let tx = client.treasury.get_transaction_by_id(&logs.get(0).unwrap().tx_id);
    assert!(tx.is_some());

    let non_existent_tx = client.treasury.get_transaction_by_id("no_tx");
    assert!(non_existent_tx.is_none());
}

#[test]
fn test_get_assets() {
    let mut client = Client::new();
    let user = Address::new("user");
    let asset1 = Address::new("asset-1");
    let asset2 = Address::new("asset-2");

    client.deposit(&asset1, &user, 1000).unwrap();
    client.deposit(&asset2, &user, 500).unwrap();

    let assets = client.treasury.get_assets();
    assert_eq!(assets.len(), 2);
    assert!(assets.contains(&asset1));
    assert!(assets.contains(&asset2));
}

#[test]
fn test_rate_limit_set_and_get() {
    let mut client = Client::new();
    let admin = Address::new("admin");
    let asset = Address::new("asset");

    client.treasury.init(admin.clone()).unwrap();

    let max_amount = 1000_i128;
    let time_window = 3600_u64;
    client.set_rate_limit(&admin, &asset, max_amount, time_window).unwrap();

    let (stored_max, stored_window) = client.treasury.get_rate_limit(&asset);
    assert_eq!(stored_max, max_amount);
    assert_eq!(stored_window, time_window);

    assert_eq!(client.treasury.get_rate_limit_used(&asset), 0);
}

#[test]
fn test_rate_limit_exceeded() {
    let mut client = Client::new();
    let admin = Address::new("admin");
    let user = Address::new("user");
    let recipient = Address::new("recipient");
    let asset = Address::new("asset");
    let milestone_id = "m1";

    client.treasury.init(admin.clone()).unwrap();

    client.timestamp = 12345;

    let max_amount = 1000_i128;
    let time_window = 3600_u64;
    client.set_rate_limit(&admin, &asset, max_amount, time_window).unwrap();

    client.deposit(&asset, &user, 2000).unwrap();

    let _tx_id = client.release(&admin, &asset, &recipient, 600, milestone_id).unwrap();

    let _tx_id = client.release(&admin, &asset, &recipient, 300, milestone_id).unwrap();

    assert_eq!(client.treasury.get_rate_limit_used(&asset), 900);

    let result = client.release(&admin, &asset, &recipient, 200, milestone_id);
    assert_eq!(result, Err(TreasuryError::RateLimitExceeded));

    assert_eq!(client.treasury.get_rate_limit_used(&asset), 900);
    assert_eq!(client.treasury.get_balance(&asset), 1100);
    // exactly up to the limit is allowed
    client.release(&admin, &asset, &recipient, 100, milestone_id).unwrap();
    assert_eq!(client.treasury.get_rate_limit_used(&asset), 1000);
}

#[test]
fn test_rate_limit_reset() {
    let mut client = Client::new();
    let admin = Address::new("admin");
    let user = Address::new("user");
    let recipient = Address::new("recipient");
    let asset = Address::new("asset");

    client.treasury.init(admin.clone()).unwrap();

    let start_time = 12345_u64;
    client.timestamp = start_time;

    let max_amount = 1000_i128;
    let time_window = 3600_u64;
    client.set_rate_limit(&admin, &asset, max_amount, time_window).unwrap();

    client.deposit(&asset, &user, 3000).unwrap();

    let milestone_id = "m1";
    let _tx_id = client.release(&admin, &asset, &recipient, 800, milestone_id).unwrap();
    assert_eq!(client.treasury.get_rate_limit_used(&asset), 800);

    client.timestamp = start_time + time_window + 10;

    let _tx_id = client.release(&admin, &asset, &recipient, 800, milestone_id).unwrap();

    assert_eq!(client.treasury.get_rate_limit_used(&asset), 800);

    let _tx_id = client.release(&admin, &asset, &recipient, 100, milestone_id).unwrap();
    assert_eq!(client.treasury.get_rate_limit_used(&asset), 900);
}

#[test]
fn test_rate_limit_validation() {
    let mut client = Client::new();
    let admin = Address::new("admin");
    let asset = Address::new("asset");

    client.treasury.init(admin.clone()).unwrap();

    let result = client.set_rate_limit(&admin, &asset, 0, 3600);
    assert_eq!(result, Err(TreasuryError::InvalidAmount));

    let result = client.set_rate_limit(&admin, &asset, 1000, 0);
    assert_eq!(result, Err(TreasuryError::InvalidTimeWindow));
}

#[test]
fn test_milestone_based_release() {
    let mut treasury_client = Client::new();
    let proposal_id = Address::new("proposals");

    let admin = Address::new("admin");
    treasury_client.treasury.init(admin.clone()).unwrap();

    treasury_client.treasury.set_proposal_contract(&admin, proposal_id).unwrap();

    let milestone_id = "milestone";
    treasury_client.proposals.create_milestone(milestone_id);

    let user = Address::new("user");
    let recipient = Address::new("recipient");
    let asset = Address::new("asset");
    let deposit_amount = 10000_i128;
    let milestone_amount = 5000_i128;

    treasury_client.deposit(&asset, &user, deposit_amount).unwrap();
    assert_eq!(treasury_client.treasury.get_balance(&asset), deposit_amount);

    let current_time = treasury_client.timestamp;
    let unlock_time = current_time + 1000;

    let tx_id = treasury_client
        .schedule_release(&user, &asset, milestone_amount, unlock_time, milestone_id)
        .unwrap();

    let tx = treasury_client.treasury.get_transaction_by_id(&tx_id).unwrap();
    assert_eq!(tx.status, TxStatus::Pending);
    assert_eq!(tx.milestone_id, milestone_id);

    assert_eq!(treasury_client.treasury.get_reserved(&asset), milestone_amount);

    treasury_client.timestamp = current_time + 1001;

    treasury_client.process_scheduled_release(&admin, &tx_id, &recipient).unwrap();

    let tx = treasury_client.treasury.get_transaction_by_id(&tx_id).unwrap();
    assert_eq!(tx.status, TxStatus::Released);

    assert_eq!(treasury_client.treasury.get_balance(&asset), deposit_amount - milestone_amount);
    assert_eq!(treasury_client.treasury.get_reserved(&asset), 0);
}

#[test]
fn test_milestone_validation() {
    let mut treasury_client = Client::new();
    let proposal_id = Address::new("proposals");

    let admin = Address::new("admin");
    treasury_client.treasury.init(admin.clone()).unwrap();

    treasury_client.treasury.set_proposal_contract(&admin, proposal_id).unwrap();

    let user = Address::new("user");
    let asset = Address::new("asset");
    let deposit_amount = 10000_i128;
    let milestone_amount = 5000_i128;

    treasury_client.deposit(&asset, &user, deposit_amount).unwrap();

    let invalid_milestone = "invalidml";
    let current_time = treasury_client.timestamp;
    let unlock_time = current_time + 1000;

    let result = treasury_client.schedule_release(
        &user,
        &asset,
        milestone_amount,
        unlock_time,
        invalid_milestone,
    );
    assert_eq!(result, Err(TreasuryError::InvalidMilestoneId));

    treasury_client.proposals.create_milestone(invalid_milestone);

    let tx_id = treasury_client
        .schedule_release(&user, &asset, milestone_amount, unlock_time, invalid_milestone)
        .unwrap();
    assert!(tx_id != "");
}

#[test]
fn test_multi_milestone_proposal() {
    let mut treasury_client = Client::new();
    let proposal_id = Address::new("proposals");

    let admin = Address::new("admin");
    treasury_client.treasury.init(admin.clone()).unwrap();

    treasury_client.treasury.set_proposal_contract(&admin, proposal_id).unwrap();

    let milestone_1 = "pr_mlstn1";
    let milestone_2 = "pr_mlstn2";
    let milestone_3 = "pr_mlstn3";

    treasury_client.proposals.create_milestone(milestone_1);
    treasury_client.proposals.create_milestone(milestone_2);
    treasury_client.proposals.create_milestone(milestone_3);

    let dao_member = Address::new("dao-member");
    let contractor = Address::new("contractor");
    let asset = Address::new("asset");

    let deposit_amount = 10000_i128;
    let payment_1 = 2000_i128;
    let payment_2 = 3000_i128;
    let payment_3 = 5000_i128;

    treasury_client.deposit(&asset, &dao_member, deposit_amount).unwrap();

    let current_time = treasury_client.timestamp;

    let unlock_time_1 = current_time + 100;
    let tx_id_1 = treasury_client
        .schedule_release(&dao_member, &asset, payment_1, unlock_time_1, milestone_1)
        .unwrap();

    let unlock_time_2 = current_time + 1_209_600;
    let tx_id_2 = treasury_client
        .schedule_release(&dao_member, &asset, payment_2, unlock_time_2, milestone_2)
        .unwrap();

    let unlock_time_3 = current_time + 2_419_200;
    let tx_id_3 = treasury_client
        .schedule_release(&dao_member, &asset, payment_3, unlock_time_3, milestone_3)
        .unwrap();

    assert!(treasury_client.treasury.get_transaction_by_id(&tx_id_1).is_some());
    assert!(treasury_client.treasury.get_transaction_by_id(&tx_id_2).is_some());
    assert!(treasury_client.treasury.get_transaction_by_id(&tx_id_3).is_some());

    assert_eq!(treasury_client.treasury.get_reserved(&asset), payment_1 + payment_2 + payment_3);

    treasury_client.timestamp = current_time + 500;

    treasury_client.process_scheduled_release(&admin, &tx_id_1, &contractor).unwrap();

    let tx_1 = treasury_client.treasury.get_transaction_by_id(&tx_id_1).unwrap();
    assert_eq!(tx_1.status, TxStatus::Released);

    let tx_2 = treasury_client.treasury.get_transaction_by_id(&tx_id_2).unwrap();
    let tx_3 = treasury_client.treasury.get_transaction_by_id(&tx_id_3).unwrap();
    assert_eq!(tx_2.status, TxStatus::Pending);
    assert_eq!(tx_3.status, TxStatus::Pending);

    assert_eq!(treasury_client.treasury.get_reserved(&asset), payment_2 + payment_3);

    treasury_client.timestamp = current_time + 1_300_000;

    treasury_client.process_scheduled_release(&admin, &tx_id_2, &contractor).unwrap();

    let tx_2 = treasury_client.treasury.get_transaction_by_id(&tx_id_2).unwrap();
    assert_eq!(tx_2.status, TxStatus::Released);

    assert_eq!(
        treasury_client.treasury.get_balance(&asset),
        deposit_amount - payment_1 - payment_2
    );
    assert_eq!(treasury_client.treasury.get_reserved(&asset), payment_3);

    let result = treasury_client.process_scheduled_release(&admin, &tx_id_3, &contractor);
    assert_eq!(result, Err(TreasuryError::UnlockTimeNotReached));

    treasury_client.timestamp = current_time + 2_500_000;

    treasury_client.process_scheduled_release(&admin, &tx_id_3, &contractor).unwrap();

    let tx_3 = treasury_client.treasury.get_transaction_by_id(&tx_id_3).unwrap();
    assert_eq!(tx_3.status, TxStatus::Released);

    assert_eq!(
        treasury_client.treasury.get_balance(&asset),
        deposit_amount - payment_1 - payment_2 - payment_3
    );
    assert_eq!(treasury_client.treasury.get_reserved(&asset), 0);
}

#[test]
fn test_release_unauthorized() {
    let mut client = Client::new();
    let admin = Address::new("admin");
    client.treasury.init(admin.clone()).unwrap();

    let non_admin = Address::new("non-admin");
    let recipient = Address::new("recipient");
    let asset = Address::new("asset");
    let amount = 1000_i128;
    let milestone_id = "m1";

    client.deposit(&asset, &non_admin, amount).unwrap();

    let result = client.release(&non_admin, &asset, &recipient, 500, milestone_id);
    assert_eq!(result, Err(TreasuryError::Unauthorized));

    assert_eq!(client.treasury.get_balance(&asset), amount);

    client.release(&admin, &asset, &recipient, 500, milestone_id).unwrap();

    assert_eq!(client.treasury.get_balance(&asset), amount - 500);
}

// The treasury beyond the scenarios above.

#[test]
fn transaction_identifiers_are_spelled_out() {
    assert_eq!(generate_tx_id(0, 0, 0), "tx_0_0_0_0");
    assert_eq!(generate_tx_id(7, 42, 12345), "tx_42_12345_2307_7");
    // (18446744073709551615 % 10000) ^ (4294967295 % 10000) = 1615 ^ 7295
    assert_eq!(
        generate_tx_id(u32::MAX, u32::MAX, u64::MAX),
        format!("tx_4294967295_18446744073709551615_{}_4294967295", 1615 ^ 7295)
    );
    let mut client = Client::new();
    client.timestamp = 12345;
    client.sequence = 42;
    let user = Address::new("user");
    let asset = Address::new("asset");
    assert_eq!(client.deposit(&asset, &user, 5), Ok(String::from("tx_42_12345_2307_0")));
    assert_eq!(client.deposit(&asset, &user, 5), Ok(String::from("tx_42_12345_2307_1")));
    let log = client.treasury.get_transaction_log();
    assert_eq!(log[1].tx_id, "tx_42_12345_2307_1");
    assert_eq!(log[1].direction, TxDirection::In);
    assert_eq!(log[1].status, TxStatus::Released);
    assert_eq!(log[1].milestone_id, "none");
    assert_eq!(log[1].triggered_by, user);
    assert_eq!(log[1].timestamp, 12345);
    assert_eq!(client.treasury.get_tx_count(), 2);
    // the asset is listed once: the second deposit met a balance
    assert_eq!(client.treasury.get_assets().len(), 1);
}

#[test]
fn numbers_are_written_in_decimal() {
    let mut buffer = [b'x'; 24];
    assert_eq!(u64_to_str(0, &mut buffer), 1);
    assert_eq!(&buffer[..2], b"0x");
    assert_eq!(u64_to_str(7, &mut buffer), 1);
    assert_eq!(&buffer[..2], b"7x");
    assert_eq!(u64_to_str(10, &mut buffer), 2);
    assert_eq!(&buffer[..3], b"10x");
    assert_eq!(u64_to_str(12345, &mut buffer[3..]), 5);
    assert_eq!(&buffer[..9], b"10x12345x");
    assert_eq!(TreasuryContract::u64_to_str(u64::MAX, &mut buffer), 20);
    assert_eq!(&buffer[..21], b"18446744073709551615x");
    let mut exact = [0u8; 3];
    assert_eq!(u64_to_str(999, &mut exact), 3);
    assert_eq!(&exact, b"999");
}

#[test]
fn milestones_named_none_or_nothing_are_refused() {
    let mut client = Client::new();
    let admin = Address::new("admin");
    let user = Address::new("user");
    let asset = Address::new("asset");
    client.treasury.init(admin.clone()).unwrap();
    client.deposit(&asset, &user, 100).unwrap();
    assert_eq!(
        client.schedule_release(&user, &asset, 10, 5, "none"),
        Err(TreasuryError::InvalidMilestoneId)
    );
    assert_eq!(
        client.schedule_release(&user, &asset, 10, 5, ""),
        Err(TreasuryError::InvalidMilestoneId)
    );
    assert_eq!(
        client.release(&admin, &asset, &user, 10, "none"),
        Err(TreasuryError::InvalidMilestoneId)
    );
    assert_eq!(
        client.release(&admin, &asset, &user, 10, ""),
        Err(TreasuryError::InvalidMilestoneId)
    );
    assert_eq!(client.treasury.get_transaction_log().len(), 1);
    assert_eq!(client.treasury.get_reserved(&asset), 0);
}

#[test]
fn milestones_need_a_name_and_a_voucher() {
    assert_eq!(validate_milestone_id("m1", true), Ok(()));
    assert_eq!(validate_milestone_id("m1", false), Err(TreasuryError::InvalidMilestoneId));
    assert_eq!(validate_milestone_id("none", true), Err(TreasuryError::InvalidMilestoneId));
    assert_eq!(validate_milestone_id("", true), Err(TreasuryError::InvalidMilestoneId));
    assert_eq!(validate_milestone_id("None", true), Ok(()));
}

#[test]
fn rate_limit_windows() {
    let limit = RateLimit { max_amount: 1000, time_window: 100, used: 900, window_start: 50 };
    // within the window
    assert_eq!(
        check_rate_limit(Some(limit), 100, 149),
        Ok(Some(RateLimit { used: 1000, ..limit }))
    );
    assert_eq!(check_rate_limit(Some(limit), 101, 149), Err(TreasuryError::RateLimitExceeded));
    // the window is over at its end
    assert_eq!(
        check_rate_limit(Some(limit), 101, 150),
        Ok(Some(RateLimit { used: 101, window_start: 150, ..limit }))
    );
    assert_eq!(check_rate_limit(Some(limit), 1001, 150), Err(TreasuryError::RateLimitExceeded));
    // no limit in force
    assert_eq!(check_rate_limit(None, i128::MAX, 0), Ok(None));
    let open = RateLimit { max_amount: i128::MAX, time_window: 100, used: 5, window_start: 0 };
    assert_eq!(check_rate_limit(Some(open), i128::MAX, 0), Ok(Some(open)));
    let unwindowed = RateLimit { max_amount: 10, time_window: 0, used: 10, window_start: 0 };
    assert_eq!(check_rate_limit(Some(unwindowed), 500, 0), Ok(Some(unwindowed)));
    // a window that never ends
    let endless = RateLimit { max_amount: 10, time_window: u64::MAX, used: 10, window_start: 5 };
    assert_eq!(check_rate_limit(Some(endless), 1, u64::MAX), Err(TreasuryError::RateLimitExceeded));
    // a sum beyond the range exceeds every limit
    let full = RateLimit { max_amount: i128::MAX - 1, time_window: 10, used: i128::MAX - 1, window_start: 0 };
    assert_eq!(check_rate_limit(Some(full), 5, 1), Err(TreasuryError::RateLimitExceeded));
}

#[test]
fn refused_operations_change_nothing() {
    let mut client = Client::new();
    let admin = Address::new("admin");
    let user = Address::new("user");
    let asset = Address::new("asset");
    client.treasury.init(admin.clone()).unwrap();
    client.timestamp = 10;
    client.deposit(&asset, &user, 100).unwrap();
    client.set_rate_limit(&admin, &asset, 50, 1000).unwrap();
    let tx_id = client.schedule_release(&user, &asset, 60, 20, "m1").unwrap();
    client.timestamp = 30;
    // the scheduled amount exceeds the rate limit
    assert_eq!(
        client.process_scheduled_release(&admin, &tx_id, &user),
        Err(TreasuryError::RateLimitExceeded)
    );
    assert_eq!(client.treasury.get_balance(&asset), 100);
    assert_eq!(client.treasury.get_reserved(&asset), 60);
    assert_eq!(client.treasury.get_rate_limit_used(&asset), 0);
    assert_eq!(client.treasury.find_pending(&tx_id).unwrap().status, TxStatus::Pending);
    // released transactions are not processed again
    client.set_rate_limit(&admin, &asset, 60, 1000).unwrap();
    client.process_scheduled_release(&admin, &tx_id, &user).unwrap();
    assert_eq!(
        client.process_scheduled_release(&admin, &tx_id, &user),
        Err(TreasuryError::TransactionNotFound)
    );
    assert!(client.treasury.find_pending(&tx_id).is_none());
    assert!(client.treasury.is_admin(&admin));
    assert!(!client.treasury.is_admin(&user));
    assert_eq!(client.treasury.require_admin(&user), Err(TreasuryError::Unauthorized));
}

#[test]
fn placeholder_transaction() {
    let placeholder = TransactionLog::default();
    assert_eq!(placeholder.tx_id, "default");
    assert_eq!(placeholder.asset, Address::new(PLACEHOLDER_ADDRESS));
    assert_eq!(placeholder.amount, 0);
    assert_eq!(placeholder.direction, TxDirection::Unset);
    assert_eq!(placeholder.timestamp, 0);
    assert_eq!(placeholder.status, TxStatus::Unset);
    assert_eq!(placeholder.triggered_by, Address::new(PLACEHOLDER_ADDRESS));
    assert_eq!(placeholder.milestone_id, "none");
}
