//! The treasury contract: balances per asset, scheduled and immediate
//! releases, a rate limit per asset, and a log of all transactions.
//!
//! The host supplies what the contract cannot know by itself: the time, the
//! ledger sequence, and whether the proposal contract vouches for a
//! milestone. A refused operation changes nothing.

use vstd::prelude::*;
use vstd::string::*;
use crate::address::{Address, Id};
use crate::decimal::{decimal, push_decimal, u64_to_str, decimal_bytes};
use crate::store::AddressMap;
use crate::text::same_text;

verus! {

/// Why an operation of the treasury was refused.
#[derive(Clone, Copy, Debug, PartialEq, Eq, Structural)]
pub enum TreasuryError {
    InvalidAmount,
    InsufficientFunds,
    InvalidUnlockTime,
    TransactionNotFound,
    UnlockTimeNotReached,
    AssetNotFound,
    RateLimitExceeded,
    InvalidTimeWindow,
    InvalidMilestoneId,
    Unauthorized,
    AlreadyInitialized,
}

/// Whether a transaction brings funds in or takes them out.
#[derive(Clone, Copy, Debug, PartialEq, Eq, Structural)]
pub enum TxDirection {
    In,
    Out,
    /// The direction of the placeholder transaction.
    Unset,
}

/// Whether the funds of a transaction have moved.
#[derive(Clone, Copy, Debug, PartialEq, Eq, Structural)]
pub enum TxStatus {
    Pending,
    Released,
    /// The status of the placeholder transaction.
    Unset,
}

/// The address of the placeholder transaction.
pub const PLACEHOLDER_ADDRESS: &'static str =
    "GAAAAAAAAAAAAAAAAAAAAAAAAAAAAAAAAAAAAAAAAAAAAAAAAAAAAWHF";

/// One entry of the transaction log.
#[derive(Debug, PartialEq, Eq)]
pub struct TransactionLog {
    pub tx_id: String,
    pub asset: Address,
    pub amount: i128,
    pub direction: TxDirection,
    /// When the funds moved; for a pending transaction, when they unlock.
    pub timestamp: u64,
    pub status: TxStatus,
    pub triggered_by: Address,
    /// The milestone that the transaction belongs to, or `none`.
    pub milestone_id: String,
}

impl Default for TransactionLog {
    /// The placeholder that stands for a missing transaction.
    fn default() -> (log: TransactionLog)
        ensures
            log.tx_id@ == "default"@,
            log.asset@ == PLACEHOLDER_ADDRESS@,
            log.amount == 0,
            log.direction == TxDirection::Unset,
            log.timestamp == 0,
            log.status == TxStatus::Unset,
            log.triggered_by@ == PLACEHOLDER_ADDRESS@,
            log.milestone_id@ == "none"@,
    {
        TransactionLog {
            tx_id: String::from_str("default"),
            asset: Address::new(PLACEHOLDER_ADDRESS),
            amount: 0,
            direction: TxDirection::Unset,
            timestamp: 0,
            status: TxStatus::Unset,
            triggered_by: Address::new(PLACEHOLDER_ADDRESS),
            milestone_id: String::from_str("none"),
        }
    }
}

/// The rate limit of an asset: at most `max_amount` may leave within any
/// window of `time_window` seconds; `used` has left since `window_start`.
#[derive(Clone, Copy, Debug, PartialEq, Eq, Structural)]
pub struct RateLimit {
    pub max_amount: i128,
    pub time_window: u64,
    pub used: i128,
    pub window_start: u64,
}

/// Whether a milestone identifier names a milestone: `none` and the empty
/// identifier do not.
pub open spec fn names_milestone(milestone_id: Seq<char>) -> bool {
    milestone_id != "none"@ && milestone_id != ""@
}

/// Whether a release may refer to a milestone: the identifier names one,
/// and the proposal contract vouches for it.
pub open spec fn milestone_acceptable(milestone_id: Seq<char>, vouched: bool) -> bool {
    names_milestone(milestone_id) && vouched
}

/// Checks the milestone of a release. `vouched` is the answer of the
/// proposal contract to whether the milestone exists.
pub fn validate_milestone_id(milestone_id: &str, vouched: bool) -> (result: Result<
    (),
    TreasuryError,
>)
    ensures
        result == if milestone_acceptable(milestone_id@, vouched) {
            Ok::<(), TreasuryError>(())
        } else {
            Err::<(), TreasuryError>(TreasuryError::InvalidMilestoneId)
        },
{
    if same_text(milestone_id, "none") || same_text(milestone_id, "") {
        return Err(TreasuryError::InvalidMilestoneId);
    }
    if !vouched {
        return Err(TreasuryError::InvalidMilestoneId);
    }
    Ok(())
}

/// The number that tells transactions of one ledger and second apart.
pub open spec fn instance_factor(ledger_sequence: u32, timestamp: u64) -> u64 {
    (timestamp % 10000) ^ (ledger_sequence as u64 % 10000)
}

/// The identifier of the transaction number `count`, made at the ledger
/// `ledger_sequence` and the time `timestamp`:
/// `tx_<ledger>_<timestamp>_<instance>_<count>`.
pub open spec fn tx_id_for(count: u32, ledger_sequence: u32, timestamp: u64) -> Seq<char> {
    "tx_"@ + decimal(ledger_sequence as nat) + "_"@ + decimal(timestamp as nat) + "_"@ + decimal(
        instance_factor(ledger_sequence, timestamp) as nat,
    ) + "_"@ + decimal(count as nat)
}

/// Builds the identifier of a transaction. See [`tx_id_for`].
pub fn generate_tx_id(count: u32, ledger_sequence: u32, timestamp: u64) -> (tx_id: String)
    ensures
        tx_id@ == tx_id_for(count, ledger_sequence, timestamp),
{
    let instance = (timestamp % 10000) ^ (ledger_sequence as u64 % 10000);
    let mut tx_id = String::from_str("tx_");
    push_decimal(&mut tx_id, ledger_sequence as u64);
    tx_id.append("_");
    push_decimal(&mut tx_id, timestamp);
    tx_id.append("_");
    push_decimal(&mut tx_id, instance);
    tx_id.append("_");
    push_decimal(&mut tx_id, count as u64);
    tx_id
}

/// The amount that `asset` is mapped to, or `otherwise`.
pub open spec fn amount_of(amounts: Map<Id, i128>, asset: Id, otherwise: i128) -> i128 {
    if amounts.contains_key(asset) {
        amounts[asset]
    } else {
        otherwise
    }
}

/// What a release of `amount` at the time `now` makes of a rate limit:
/// nothing where no limit is in force; otherwise the amount is counted in
/// the current window, or in a new one when the window is over. `None`
/// when the limit would be exceeded.
pub open spec fn charge(limit: Option<RateLimit>, amount: i128, now: u64) -> Option<Option<RateLimit>> {
    match limit {
        None => Some(None),
        Some(l) => if l.max_amount == i128::MAX || l.time_window == 0 {
            Some(limit)
        } else {
            let fresh = now >= l.window_start + l.time_window;
            let used: int = if fresh {
                0
            } else {
                l.used as int
            };
            if used + amount > l.max_amount {
                None
            } else {
                Some(
                    Some(
                        RateLimit {
                            max_amount: l.max_amount,
                            time_window: l.time_window,
                            used: (used + amount) as i128,
                            window_start: if fresh {
                                now
                            } else {
                                l.window_start
                            },
                        },
                    ),
                )
            }
        },
    }
}

/// Charges a release to a rate limit. See [`charge`].
pub fn check_rate_limit(limit: Option<RateLimit>, amount: i128, now: u64) -> (result: Result<
    Option<RateLimit>,
    TreasuryError,
>)
    requires
        amount > 0,
        limit is Some ==> limit->0.used >= 0,
    ensures
        match charge(limit, amount, now) {
            Some(charged) => result == Ok::<Option<RateLimit>, TreasuryError>(charged),
            None => result == Err::<Option<RateLimit>, TreasuryError>(
                TreasuryError::RateLimitExceeded,
            ),
        },
        result is Ok && result->Ok_0 is Some ==> result->Ok_0->0.used >= 0,
{
    let l = match limit {
        None => {
            return Ok(None);
        },
        Some(l) => l,
    };
    if l.max_amount == i128::MAX || l.time_window == 0 {
        return Ok(limit);
    }
    let fresh = match l.window_start.checked_add(l.time_window) {
        Some(end) => now >= end,
        None => false,
    };
    let used: i128 = if fresh {
        0
    } else {
        l.used
    };
    match used.checked_add(amount) {
        Some(total) => {
            if total > l.max_amount {
                Err(TreasuryError::RateLimitExceeded)
            } else {
                Ok(
                    Some(
                        RateLimit {
                            max_amount: l.max_amount,
                            time_window: l.time_window,
                            used: total,
                            window_start: if fresh {
                                now
                            } else {
                                l.window_start
                            },
                        },
                    ),
                )
            }
        },
        None => Err(TreasuryError::RateLimitExceeded),
    }
}

/// The state of the treasury contract.
pub struct TreasuryContract {
    /// The administrator, once the contract is initialized.
    pub admin: Option<Address>,
    /// The proposal contract that vouches for milestones, if one is set.
    pub proposal_contract: Option<Address>,
    /// What the treasury holds of each asset.
    pub balances: AddressMap<i128>,
    /// What of each asset is reserved for scheduled releases.
    pub reserved: AddressMap<i128>,
    /// The rate limit of each asset that has one.
    pub limits: AddressMap<RateLimit>,
    /// The assets, in the order in which they came in.
    pub assets: Vec<Address>,
    /// All transactions, in the order in which they were made.
    pub tx_log: Vec<TransactionLog>,
}

impl TreasuryContract {
    /// The invariant of the contract: no table holds a key twice, the log
    /// and the list of assets fit 32 bits, no rate limit has counted a
    /// negative amount, and every pending transaction is about a positive
    /// amount.
    pub open spec fn wf(&self) -> bool {
        &&& self.balances.wf()
        &&& self.reserved.wf()
        &&& self.limits.wf()
        &&& self.assets@.len() <= u32::MAX
        &&& self.tx_log@.len() <= u32::MAX
        &&& forall|a: Id| #[trigger] self.limits@.contains_key(a) ==> self.limits@[a].used >= 0
        &&& forall|i: int|
            0 <= i < self.tx_log@.len() && (#[trigger] self.tx_log@[i]).status == TxStatus::Pending
                ==> self.tx_log@[i].amount > 0
    }

    /// What the treasury holds of `asset`.
    pub open spec fn balance_of(&self, asset: Id) -> i128 {
        amount_of(self.balances@, asset, 0)
    }

    /// What of `asset` is reserved.
    pub open spec fn reserved_of(&self, asset: Id) -> i128 {
        amount_of(self.reserved@, asset, 0)
    }

    /// The rate limit of `asset`, if one was set.
    pub open spec fn limit_of(&self, asset: Id) -> Option<RateLimit> {
        if self.limits@.contains_key(asset) {
            Some(self.limits@[asset])
        } else {
            None
        }
    }

    /// Whether `caller` is the administrator.
    pub open spec fn is_admin_id(&self, caller: Id) -> bool {
        self.admin is Some && self.admin->0@ == caller
    }

    /// Whether the two states agree in everything but the balances, the
    /// reserved amounts, the rate limits, the assets and the log.
    pub open spec fn same_roles(&self, other: &TreasuryContract) -> bool {
        self.admin == other.admin && self.proposal_contract == other.proposal_contract
    }

    /// The contract before it is initialized.
    pub fn new() -> (contract: TreasuryContract)
        ensures
            contract.wf(),
            contract.admin is None,
            contract.proposal_contract is None,
            contract.balances@ == Map::<Id, i128>::empty(),
            contract.reserved@ == Map::<Id, i128>::empty(),
            contract.limits@ == Map::<Id, RateLimit>::empty(),
            contract.assets@.len() == 0,
            contract.tx_log@.len() == 0,
    {
        TreasuryContract {
            admin: None,
            proposal_contract: None,
            balances: AddressMap::new(),
            reserved: AddressMap::new(),
            limits: AddressMap::new(),
            assets: Vec::new(),
            tx_log: Vec::new(),
        }
    }

    /// Sets the administrator, who has authenticated. `AlreadyInitialized`
    /// when there is one.
    pub fn init(&mut self, admin: Address) -> (result: Result<(), TreasuryError>)
        requires
            old(self).wf(),
        ensures
            final(self).wf(),
            old(self).admin is Some ==> result == Err::<(), TreasuryError>(
                TreasuryError::AlreadyInitialized,
            ) && *final(self) == *old(self),
            old(self).admin is None ==> result == Ok::<(), TreasuryError>(()) && final(self).admin
                == Some(admin) && final(self).proposal_contract == old(self).proposal_contract
                && final(self).balances == old(self).balances && final(self).reserved == old(
                self).reserved && final(self).limits == old(self).limits && final(self).assets
                == old(self).assets && final(self).tx_log == old(self).tx_log,
    {
        if self.admin.is_some() {
            return Err(TreasuryError::AlreadyInitialized);
        }
        self.admin = Some(admin);
        Ok(())
    }

    /// Whether `caller` is the administrator.
    pub fn is_admin(&self, caller: &Address) -> (admin: bool)
        ensures
            admin == self.is_admin_id(caller@),
    {
        match &self.admin {
            Some(admin) => *admin == *caller,
            None => false,
        }
    }

    /// `Unauthorized` unless `caller` is the administrator.
    pub fn require_admin(&self, caller: &Address) -> (result: Result<(), TreasuryError>)
        ensures
            result == if self.is_admin_id(caller@) {
                Ok::<(), TreasuryError>(())
            } else {
                Err::<(), TreasuryError>(TreasuryError::Unauthorized)
            },
    {
        if self.is_admin(caller) {
            Ok(())
        } else {
            Err(TreasuryError::Unauthorized)
        }
    }

    /// The administrator, if the contract is initialized.
    pub fn get_admin(&self) -> (admin: Option<&Address>)
        ensures
            match admin {
                Some(a) => self.admin == Some(*a),
                None => self.admin is None,
            },
    {
        match &self.admin {
            Some(a) => Some(a),
            None => None,
        }
    }

    /// What the treasury holds of `asset`; zero where it never came in.
    pub fn get_balance(&self, asset: &Address) -> (balance: i128)
        requires
            self.wf(),
        ensures
            balance == self.balance_of(asset@),
    {
        match self.balances.get(asset) {
            Some(amount) => *amount,
            None => 0,
        }
    }

    /// What of `asset` is reserved for scheduled releases.
    pub fn get_reserved(&self, asset: &Address) -> (reserved: i128)
        requires
            self.wf(),
        ensures
            reserved == self.reserved_of(asset@),
    {
        match self.reserved.get(asset) {
            Some(amount) => *amount,
            None => 0,
        }
    }

    /// The rate limit of `asset`: the most that may leave within a window,
    /// and the length of the window. Where none was set, the amount is the
    /// largest there is and the window is zero.
    pub fn get_rate_limit(&self, asset: &Address) -> (limit: (i128, u64))
        requires
            self.wf(),
        ensures
            limit == match self.limit_of(asset@) {
                Some(l) => (l.max_amount, l.time_window),
                None => (i128::MAX, 0u64),
            },
    {
        match self.limits.get(asset) {
            Some(l) => (l.max_amount, l.time_window),
            None => (i128::MAX, 0),
        }
    }

    /// What has been counted against the rate limit of `asset` in its
    /// current window.
    pub fn get_rate_limit_used(&self, asset: &Address) -> (used: i128)
        requires
            self.wf(),
        ensures
            used == match self.limit_of(asset@) {
                Some(l) => l.used,
                None => 0i128,
            },
    {
        match self.limits.get(asset) {
            Some(l) => l.used,
            None => 0,
        }
    }

    /// All transactions, in the order in which they were made.
    pub fn get_transaction_log(&self) -> (log: &Vec<TransactionLog>)
        ensures
            log@ == self.tx_log@,
    {
        &self.tx_log
    }

    /// The assets of the treasury, in the order in which they came in.
    pub fn get_assets(&self) -> (assets: &Vec<Address>)
        ensures
            assets@ == self.assets@,
    {
        &self.assets
    }

    /// The number of transactions made so far.
    pub fn get_tx_count(&self) -> (count: u32)
        requires
            self.wf(),
        ensures
            count == self.tx_log@.len(),
    {
        self.tx_log.len() as u32
    }

    /// The position of the first transaction from `from` on that has the
    /// identifier `tx_id` and, where `pending_only` is set, is pending.
    pub open spec fn position_from(&self, tx_id: Seq<char>, pending_only: bool, from: int) -> Option<int>
        decreases self.tx_log@.len() - from,
    {
        if from < 0 || from >= self.tx_log@.len() {
            None
        } else if self.tx_log@[from].tx_id@ == tx_id && (!pending_only || self.tx_log@[from].status
            == TxStatus::Pending) {
            Some(from)
        } else {
            self.position_from(tx_id, pending_only, from + 1)
        }
    }

    /// The position of the first transaction with the identifier `tx_id`.
    pub open spec fn position_of(&self, tx_id: Seq<char>, pending_only: bool) -> Option<int> {
        self.position_from(tx_id, pending_only, 0)
    }

    /// A position that is found is one of a transaction that was asked for.
    pub proof fn lemma_position(&self, tx_id: Seq<char>, pending_only: bool, from: int)
        requires
            0 <= from,
        ensures
            match self.position_from(tx_id, pending_only, from) {
                Some(at) => from <= at < self.tx_log@.len() && self.tx_log@[at].tx_id@ == tx_id && (
                pending_only ==> self.tx_log@[at].status == TxStatus::Pending),
                None => true,
            },
        decreases self.tx_log@.len() - from,
    {
        if from < self.tx_log@.len() {
            self.lemma_position(tx_id, pending_only, from + 1);
        }
    }

    /// Finds the first transaction with the identifier `tx_id`.
    fn find(&self, tx_id: &str, pending_only: bool) -> (found: Option<usize>)
        ensures
            match found {
                Some(i) => self.position_of(tx_id@, pending_only) == Some(i as int) && i
                    < self.tx_log@.len(),
                None => self.position_of(tx_id@, pending_only) is None,
            },
    {
        let wanted = String::from_str(tx_id);
        let mut i: usize = 0;
        while i < self.tx_log.len()
            invariant
                i <= self.tx_log@.len(),
                wanted@ == tx_id@,
                self.position_of(tx_id@, pending_only) == self.position_from(
                    tx_id@,
                    pending_only,
                    i as int,
                ),
            decreases self.tx_log@.len() - i,
        {
            let entry = &self.tx_log[i];
            let pending = match entry.status {
                TxStatus::Pending => true,
                _ => false,
            };
            if entry.tx_id == wanted && (!pending_only || pending) {
                return Some(i);
            }
            i += 1;
        }
        None
    }

    /// The first transaction with the identifier `tx_id`, if there is one.
    pub fn get_transaction_by_id(&self, tx_id: &str) -> (found: Option<&TransactionLog>)
        ensures
            match found {
                Some(entry) => self.position_of(tx_id@, false) is Some && *entry
                    == self.tx_log@[self.position_of(tx_id@, false)->0],
                None => self.position_of(tx_id@, false) is None,
            },
    {
        match self.find(tx_id, false) {
            Some(i) => Some(&self.tx_log[i]),
            None => None,
        }
    }

    /// The first pending transaction with the identifier `tx_id`, if there
    /// is one: the one that `process_scheduled_release` would process.
    pub fn find_pending(&self, tx_id: &str) -> (found: Option<&TransactionLog>)
        ensures
            match found {
                Some(entry) => self.position_of(tx_id@, true) is Some && *entry
                    == self.tx_log@[self.position_of(tx_id@, true)->0],
                None => self.position_of(tx_id@, true) is None,
            },
    {
        match self.find(tx_id, true) {
            Some(i) => Some(&self.tx_log[i]),
            None => None,
        }
    }

    /// Writes `value` in decimal notation to the start of `buffer` and
    /// returns the number of bytes written.
    pub fn u64_to_str(value: u64, buffer: &mut [u8]) -> (written: usize)
        requires
            old(buffer)@.len() >= decimal_bytes(value as nat).len(),
        ensures
            written == decimal_bytes(value as nat).len(),
            final(buffer)@.len() == old(buffer)@.len(),
            final(buffer)@.take(written as int) == decimal_bytes(value as nat),
            final(buffer)@.skip(written as int) == old(buffer)@.skip(written as int),
    {
        u64_to_str(value, buffer)
    }

    /// Why `caller` cannot set the rate limit, if it cannot.
    pub open spec fn limit_refusal(&self, caller: Id, max_amount: i128, time_window: u64) -> Option<
        TreasuryError,
    > {
        if !self.is_admin_id(caller) {
            Some(TreasuryError::Unauthorized)
        } else if max_amount <= 0 {
            Some(TreasuryError::InvalidAmount)
        } else if time_window == 0 {
            Some(TreasuryError::InvalidTimeWindow)
        } else {
            None
        }
    }

    /// Sets the rate limit of `asset`: at most `max_amount` within
    /// `time_window_in_seconds`. The window starts anew at `now` with
    /// nothing counted. Only the administrator may.
    pub fn set_rate_limit(
        &mut self,
        caller: &Address,
        asset: &Address,
        max_amount: i128,
        time_window_in_seconds: u64,
        now: u64,
    ) -> (result: Result<(), TreasuryError>)
        requires
            old(self).wf(),
        ensures
            final(self).wf(),
            match old(self).limit_refusal(caller@, max_amount, time_window_in_seconds) {
                Some(reason) => result == Err::<(), TreasuryError>(reason) && *final(self) == *old(self),
                None => result == Ok::<(), TreasuryError>(()) && final(self).limits@ == old(
                    self).limits@.insert(
                    asset@,
                    RateLimit {
                        max_amount,
                        time_window: time_window_in_seconds,
                        used: 0,
                        window_start: now,
                    },
                ) && final(self).same_roles(old(self)) && final(self).balances == old(self).balances
                    && final(self).reserved == old(self).reserved && final(self).assets == old(
                    self).assets && final(self).tx_log == old(self).tx_log,
            },
    {
        match self.require_admin(caller) {
            Ok(()) => {},
            Err(reason) => {
                return Err(reason);
            },
        }
        if max_amount <= 0 {
            return Err(TreasuryError::InvalidAmount);
        }
        if time_window_in_seconds == 0 {
            return Err(TreasuryError::InvalidTimeWindow);
        }
        self.limits.insert(
            asset.clone(),
            RateLimit {
                max_amount,
                time_window: time_window_in_seconds,
                used: 0,
                window_start: now,
            },
        );
        Ok(())
    }

    /// Names the proposal contract that vouches for milestones. Only the
    /// administrator may.
    pub fn set_proposal_contract(&mut self, caller: &Address, proposal_contract: Address) -> (result:
        Result<(), TreasuryError>)
        requires
            old(self).wf(),
        ensures
            final(self).wf(),
            !old(self).is_admin_id(caller@) ==> result == Err::<(), TreasuryError>(
                TreasuryError::Unauthorized,
            ) && *final(self) == *old(self),
            old(self).is_admin_id(caller@) ==> result == Ok::<(), TreasuryError>(()) && final(
                self).proposal_contract == Some(proposal_contract) && final(self).admin == old(
                self).admin && final(self).balances == old(self).balances && final(self).reserved
                == old(self).reserved && final(self).limits == old(self).limits && final(
                self).assets == old(self).assets && final(self).tx_log == old(self).tx_log,
    {
        match self.require_admin(caller) {
            Ok(()) => {},
            Err(reason) => {
                return Err(reason);
            },
        }
        self.proposal_contract = Some(proposal_contract);
        Ok(())
    }

    /// Whether the last entry of the log of `after` is the transaction
    /// described, and the log before it is that of `self`.
    pub open spec fn logged(
        &self,
        after: &TreasuryContract,
        asset: Address,
        amount: i128,
        direction: TxDirection,
        timestamp: u64,
        status: TxStatus,
        triggered_by: Address,
        milestone_id: Seq<char>,
        made_at: u64,
        ledger_sequence: u32,
    ) -> bool {
        let entry = after.tx_log@.last();
        &&& after.tx_log@.len() == self.tx_log@.len() + 1
        &&& after.tx_log@.drop_last() == self.tx_log@
        &&& entry.tx_id@ == tx_id_for(self.tx_log@.len() as u32, ledger_sequence, made_at)
        &&& entry.asset == asset
        &&& entry.amount == amount
        &&& entry.direction == direction
        &&& entry.timestamp == timestamp
        &&& entry.status == status
        &&& entry.triggered_by == triggered_by
        &&& entry.milestone_id@ == milestone_id
    }

    /// Appends a transaction to the log and returns its identifier.
    fn record(
        &mut self,
        asset: &Address,
        amount: i128,
        direction: TxDirection,
        timestamp: u64,
        status: TxStatus,
        triggered_by: &Address,
        milestone_id: &str,
        made_at: u64,
        ledger_sequence: u32,
    ) -> (tx_id: String)
        requires
            old(self).wf(),
            old(self).tx_log@.len() < u32::MAX,
            status == TxStatus::Pending ==> amount > 0,
        ensures
            final(self).wf(),
            tx_id@ == tx_id_for(old(self).tx_log@.len() as u32, ledger_sequence, made_at),
            old(self).logged(
                final(self),
                *asset,
                amount,
                direction,
                timestamp,
                status,
                *triggered_by,
                milestone_id@,
                made_at,
                ledger_sequence,
            ),
            final(self).same_roles(old(self)),
            final(self).balances == old(self).balances,
            final(self).reserved == old(self).reserved,
            final(self).limits == old(self).limits,
            final(self).assets == old(self).assets,
    {
        let count = self.get_tx_count();
        let tx_id = generate_tx_id(count, ledger_sequence, made_at);
        let ghost before = self.tx_log@;
        self.tx_log.push(
            TransactionLog {
                tx_id: tx_id.clone(),
                asset: asset.clone(),
                amount,
                direction,
                timestamp,
                status,
                triggered_by: triggered_by.clone(),
                milestone_id: String::from_str(milestone_id),
            },
        );
        proof {
            assert(self.tx_log@.drop_last() =~= before);
        }
        tx_id
    }

    /// Takes `amount` of `asset` from `from`, who has authenticated, into
    /// the treasury, at the time `now`. An amount of zero or less is an
    /// `InvalidAmount`. An asset of which the treasury held nothing is added
    /// to the list of assets. The transaction is logged as released, and
    /// its identifier returned.
    pub fn deposit(&mut self, asset: &Address, from: &Address, amount: i128, now: u64, ledger_sequence: u32) -> (result:
        Result<String, TreasuryError>)
        requires
            old(self).wf(),
            old(self).tx_log@.len() < u32::MAX,
            old(self).assets@.len() < u32::MAX,
            old(self).balance_of(asset@) + amount <= i128::MAX,
        ensures
            final(self).wf(),
            amount <= 0 ==> result == Err::<String, TreasuryError>(TreasuryError::InvalidAmount)
                && *final(self) == *old(self),
            amount > 0 ==> result is Ok && result->Ok_0@ == tx_id_for(
                old(self).tx_log@.len() as u32,
                ledger_sequence,
                now,
            ) && final(self).balances@ == old(self).balances@.insert(
                asset@,
                (old(self).balance_of(asset@) + amount) as i128,
            ) && final(self).assets@ == (if old(self).balance_of(asset@) == 0 {
                old(self).assets@.push(*asset)
            } else {
                old(self).assets@
            }) && old(self).logged(
                final(self),
                *asset,
                amount,
                TxDirection::In,
                now,
                TxStatus::Released,
                *from,
                "none"@,
                now,
                ledger_sequence,
            ) && final(self).same_roles(old(self)) && final(self).reserved == old(self).reserved
                && final(self).limits == old(self).limits,
    {
        if amount <= 0 {
            return Err(TreasuryError::InvalidAmount);
        }
        let current_balance = self.get_balance(asset);
        let new_balance = current_balance + amount;
        self.balances.insert(asset.clone(), new_balance);
        if current_balance == 0 {
            self.assets.push(asset.clone());
        }
        let tx_id = self.record(
            asset,
            amount,
            TxDirection::In,
            now,
            TxStatus::Released,
            from,
            "none",
            now,
            ledger_sequence,
        );
        Ok(tx_id)
    }

    /// Why a release cannot be scheduled, if it cannot. The tests are made
    /// in this order.
    pub open spec fn schedule_refusal(
        &self,
        asset: Id,
        amount: i128,
        unlock_time: u64,
        milestone_id: Seq<char>,
        now: u64,
        milestone_valid: bool,
    ) -> Option<TreasuryError> {
        if amount <= 0 {
            Some(TreasuryError::InvalidAmount)
        } else if unlock_time <= now {
            Some(TreasuryError::InvalidUnlockTime)
        } else if !milestone_acceptable(milestone_id, milestone_valid) {
            Some(TreasuryError::InvalidMilestoneId)
        } else if self.balance_of(asset) < amount {
            Some(TreasuryError::InsufficientFunds)
        } else {
            None
        }
    }

    /// Schedules the release of `amount` of `asset` for `unlock_time`, on
    /// behalf of `caller`, who has authenticated. `milestone_valid` says
    /// whether the proposal contract vouches for the milestone. The amount
    /// is reserved, the transaction is logged as pending with the unlock
    /// time as its time, and its identifier is returned.
    pub fn schedule_release(
        &mut self,
        caller: &Address,
        asset: &Address,
        amount: i128,
        unlock_time: u64,
        milestone_id: &str,
        now: u64,
        ledger_sequence: u32,
        milestone_valid: bool,
    ) -> (result: Result<String, TreasuryError>)
        requires
            old(self).wf(),
            old(self).tx_log@.len() < u32::MAX,
            old(self).reserved_of(asset@) + amount <= i128::MAX,
        ensures
            final(self).wf(),
            match old(self).schedule_refusal(
                asset@,
                amount,
                unlock_time,
                milestone_id@,
                now,
                milestone_valid,
            ) {
                Some(reason) => result == Err::<String, TreasuryError>(reason) && *final(self) == *old(
                    self),
                None => result is Ok && result->Ok_0@ == tx_id_for(
                    old(self).tx_log@.len() as u32,
                    ledger_sequence,
                    now,
                ) && final(self).reserved@ == old(self).reserved@.insert(
                    asset@,
                    (old(self).reserved_of(asset@) + amount) as i128,
                ) && old(self).logged(
                    final(self),
                    *asset,
                    amount,
                    TxDirection::Out,
                    unlock_time,
                    TxStatus::Pending,
                    *caller,
                    milestone_id@,
                    now,
                    ledger_sequence,
                ) && final(self).same_roles(old(self)) && final(self).balances == old(self).balances
                    && final(self).limits == old(self).limits && final(self).assets == old(
                    self).assets,
            },
    {
        if amount <= 0 {
            return Err(TreasuryError::InvalidAmount);
        }
        if unlock_time <= now {
            return Err(TreasuryError::InvalidUnlockTime);
        }
        match validate_milestone_id(milestone_id, milestone_valid) {
            Ok(()) => {},
            Err(reason) => {
                return Err(reason);
            },
        }
        let current_balance = self.get_balance(asset);
        if current_balance < amount {
            return Err(TreasuryError::InsufficientFunds);
        }
        let tx_id = self.record(
            asset,
            amount,
            TxDirection::Out,
            unlock_time,
            TxStatus::Pending,
            caller,
            milestone_id,
            now,
            ledger_sequence,
        );
        let reserved_amount = self.get_reserved(asset) + amount;
        self.reserved.insert(asset.clone(), reserved_amount);
        Ok(tx_id)
    }

    /// Why funds cannot be released, if they cannot. The tests are made in
    /// this order.
    pub open spec fn release_refusal(
        &self,
        caller: Id,
        asset: Id,
        amount: i128,
        milestone_id: Seq<char>,
        now: u64,
        milestone_valid: bool,
    ) -> Option<TreasuryError> {
        if !self.is_admin_id(caller) {
            Some(TreasuryError::Unauthorized)
        } else if amount <= 0 {
            Some(TreasuryError::InvalidAmount)
        } else if !milestone_acceptable(milestone_id, milestone_valid) {
            Some(TreasuryError::InvalidMilestoneId)
        } else if self.balance_of(asset) - self.reserved_of(asset) < amount {
            Some(TreasuryError::InsufficientFunds)
        } else if charge(self.limit_of(asset), amount, now) is None {
            Some(TreasuryError::RateLimitExceeded)
        } else {
            None
        }
    }

    /// The rate limits after a release of `amount` of `asset` at `now` was
    /// charged.
    pub open spec fn limits_after(&self, asset: Id, amount: i128, now: u64) -> Map<Id, RateLimit> {
        match charge(self.limit_of(asset), amount, now) {
            Some(Some(l)) => self.limits@.insert(asset, l),
            _ => self.limits@,
        }
    }

    /// Charges a release of `amount` of `asset` at the time `now` to the
    /// rate limit of the asset. `RateLimitExceeded`, with nothing changed,
    /// when the limit does not allow the release.
    fn check_and_update_rate_limit(&mut self, asset: &Address, amount: i128, now: u64) -> (result:
        Result<(), TreasuryError>)
        requires
            old(self).wf(),
            amount > 0,
        ensures
            final(self).wf(),
            match charge(old(self).limit_of(asset@), amount, now) {
                None => result == Err::<(), TreasuryError>(TreasuryError::RateLimitExceeded)
                    && *final(self) == *old(self),
                Some(_) => result == Ok::<(), TreasuryError>(()) && final(self).limits@ == old(
                    self).limits_after(asset@, amount, now),
            },
            final(self).same_roles(old(self)),
            final(self).balances == old(self).balances,
            final(self).reserved == old(self).reserved,
            final(self).assets == old(self).assets,
            final(self).tx_log == old(self).tx_log,
    {
        let limit = match self.limits.get(asset) {
            Some(l) => Some(*l),
            None => None,
        };
        match check_rate_limit(limit, amount, now) {
            Ok(Some(charged)) => {
                self.limits.insert(asset.clone(), charged);
                Ok(())
            },
            Ok(None) => Ok(()),
            Err(reason) => Err(reason),
        }
    }

    /// Releases `amount` of `asset` to `to` at the time `now`. Only the
    /// administrator may. What is reserved is not available. The amount is
    /// charged to the rate limit of the asset and leaves the balance; the
    /// transaction is logged as released and its identifier returned.
    pub fn release(
        &mut self,
        caller: &Address,
        asset: &Address,
        to: &Address,
        amount: i128,
        milestone_id: &str,
        now: u64,
        ledger_sequence: u32,
        milestone_valid: bool,
    ) -> (result: Result<String, TreasuryError>)
        requires
            old(self).wf(),
            old(self).tx_log@.len() < u32::MAX,
            i128::MIN <= old(self).balance_of(asset@) - old(self).reserved_of(asset@) <= i128::MAX,
            i128::MIN <= old(self).balance_of(asset@) - amount,
        ensures
            final(self).wf(),
            match old(self).release_refusal(caller@, asset@, amount, milestone_id@, now, milestone_valid) {
                Some(reason) => result == Err::<String, TreasuryError>(reason) && *final(self) == *old(
                    self),
                None => result is Ok && result->Ok_0@ == tx_id_for(
                    old(self).tx_log@.len() as u32,
                    ledger_sequence,
                    now,
                ) && final(self).balances@ == old(self).balances@.insert(
                    asset@,
                    (old(self).balance_of(asset@) - amount) as i128,
                ) && final(self).limits@ == old(self).limits_after(asset@, amount, now) && old(
                    self).logged(
                    final(self),
                    *asset,
                    amount,
                    TxDirection::Out,
                    now,
                    TxStatus::Released,
                    *caller,
                    milestone_id@,
                    now,
                    ledger_sequence,
                ) && final(self).same_roles(old(self)) && final(self).reserved == old(self).reserved
                    && final(self).assets == old(self).assets,
            },
    {
        match self.require_admin(caller) {
            Ok(()) => {},
            Err(reason) => {
                return Err(reason);
            },
        }
        if amount <= 0 {
            return Err(TreasuryError::InvalidAmount);
        }
        match validate_milestone_id(milestone_id, milestone_valid) {
            Ok(()) => {},
            Err(reason) => {
                return Err(reason);
            },
        }
        let current_balance = self.get_balance(asset);
        let available_balance = current_balance - self.get_reserved(asset);
        if available_balance < amount {
            return Err(TreasuryError::InsufficientFunds);
        }
        match self.check_and_update_rate_limit(asset, amount, now) {
            Ok(()) => {},
            Err(reason) => {
                return Err(reason);
            },
        }
        let new_balance = current_balance - amount;
        self.balances.insert(asset.clone(), new_balance);
        let tx_id = self.record(
            asset,
            amount,
            TxDirection::Out,
            now,
            TxStatus::Released,
            caller,
            milestone_id,
            now,
            ledger_sequence,
        );
        Ok(tx_id)
    }

    /// Why a scheduled release cannot be processed, if it cannot. The tests
    /// are made in this order.
    pub open spec fn process_refusal(&self, caller: Id, tx_id: Seq<char>, now: u64, milestone_valid: bool) -> Option<
        TreasuryError,
    > {
        if !self.is_admin_id(caller) {
            Some(TreasuryError::Unauthorized)
        } else if self.position_of(tx_id, true) is None {
            Some(TreasuryError::TransactionNotFound)
        } else {
            let tx = self.tx_log@[self.position_of(tx_id, true)->0];
            if now < tx.timestamp {
                Some(TreasuryError::UnlockTimeNotReached)
            } else if !milestone_valid {
                Some(TreasuryError::InvalidMilestoneId)
            } else if charge(self.limit_of(tx.asset@), tx.amount, now) is None {
                Some(TreasuryError::RateLimitExceeded)
            } else {
                None
            }
        }
    }

    /// Whether `after` is `before` marked as released.
    pub open spec fn released(before: TransactionLog, after: TransactionLog) -> bool {
        &&& after.status == TxStatus::Released
        &&& after.tx_id == before.tx_id
        &&& after.asset == before.asset
        &&& after.amount == before.amount
        &&& after.direction == before.direction
        &&& after.timestamp == before.timestamp
        &&& after.triggered_by == before.triggered_by
        &&& after.milestone_id == before.milestone_id
    }

    /// Processes the first pending transaction with the identifier `tx_id`
    /// at the time `now`, which must not lie before its unlock time. Only
    /// the administrator may. `milestone_valid` says whether the proposal
    /// contract still vouches for the milestone of the transaction. The
    /// amount is charged to the rate limit, leaves the reserved amount and
    /// the balance, and the transaction is marked as released.
    pub fn process_scheduled_release(
        &mut self,
        caller: &Address,
        tx_id: &str,
        to: &Address,
        now: u64,
        milestone_valid: bool,
    ) -> (result: Result<(), TreasuryError>)
        requires
            old(self).wf(),
            old(self).position_of(tx_id@, true) is Some ==> ({
                let tx = old(self).tx_log@[old(self).position_of(tx_id@, true)->0];
                &&& i128::MIN <= old(self).reserved_of(tx.asset@) - tx.amount
                &&& i128::MIN <= old(self).balance_of(tx.asset@) - tx.amount
            }),
        ensures
            final(self).wf(),
            match old(self).process_refusal(caller@, tx_id@, now, milestone_valid) {
                Some(reason) => result == Err::<(), TreasuryError>(reason) && *final(self) == *old(self),
                None => {
                    let at = old(self).position_of(tx_id@, true)->0;
                    let tx = old(self).tx_log@[at];
                    &&& result == Ok::<(), TreasuryError>(())
                    &&& final(self).tx_log@.len() == old(self).tx_log@.len()
                    &&& forall|i: int|
                        0 <= i < old(self).tx_log@.len() && i != at ==> #[trigger] final(self).tx_log@[i] == old(
                            self).tx_log@[i]
                    &&& Self::released(tx, final(self).tx_log@[at])
                    &&& final(self).limits@ == old(self).limits_after(tx.asset@, tx.amount, now)
                    &&& final(self).reserved@ == old(self).reserved@.insert(
                        tx.asset@,
                        (old(self).reserved_of(tx.asset@) - tx.amount) as i128,
                    )
                    &&& final(self).balances@ == old(self).balances@.insert(
                        tx.asset@,
                        (old(self).balance_of(tx.asset@) - tx.amount) as i128,
                    )
                    &&& final(self).same_roles(old(self))
                    &&& final(self).assets == old(self).assets
                },
            },
    {
        match self.require_admin(caller) {
            Ok(()) => {},
            Err(reason) => {
                return Err(reason);
            },
        }
        let index = match self.find(tx_id, true) {
            Some(i) => i,
            None => {
                return Err(TreasuryError::TransactionNotFound);
            },
        };
        proof {
            self.lemma_position(tx_id@, true, 0);
        }
        if now < self.tx_log[index].timestamp {
            return Err(TreasuryError::UnlockTimeNotReached);
        }
        if !milestone_valid {
            return Err(TreasuryError::InvalidMilestoneId);
        }
        let amount = self.tx_log[index].amount;
        let asset = self.tx_log[index].asset.clone();
        match self.check_and_update_rate_limit(&asset, amount, now) {
            Ok(()) => {},
            Err(reason) => {
                return Err(reason);
            },
        }
        let mut tx = self.tx_log.remove(index);
        tx.status = TxStatus::Released;
        self.tx_log.insert(index, tx);
        let reserved_amount = self.get_reserved(&asset) - amount;
        self.reserved.insert(asset.clone(), reserved_amount);
        let current_balance = self.get_balance(&asset);
        let new_balance = current_balance - amount;
        self.balances.insert(asset, new_balance);
        Ok(())
    }
}

} // verus!
