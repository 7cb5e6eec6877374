//! Voting badges: non-fungible tokens that allowed minters issue to
//! members, one per member and category.
//!
//! The metadata of a badge may state a multiplier for the voting power of
//! its owner, as `multiplier:` followed by a decimal number.

use vstd::prelude::*;
use vstd::string::*;
use crate::address::{ids_of, Address, Id};

verus! {

/// What a badge was earned for.
#[derive(Clone, Copy, Debug, PartialEq, Eq, Structural)]
pub enum Category {
    /// For voting on proposals.
    Participation,
    /// For referring members.
    Referral,
    /// For other contributions to governance.
    Governance,
}

/// Why an operation on badges was refused.
#[derive(Clone, Copy, Debug, PartialEq, Eq, Structural)]
pub enum VotingNFTError {
    Unauthorized,
    NFTNotFound,
    DuplicateNFT,
    NFTExpired,
    AlreadyInitialized,
    InvalidMetadata,
    NotInitialized,
    DuplicateMinter,
    MinterNotFound,
    NotAllowedMinter,
}

/// A badge.
#[derive(Debug, PartialEq, Eq)]
pub struct VotingNFT {
    pub token_id: u128,
    pub category: Category,
    pub metadata: String,
    pub owner: Address,
    pub issued_at: u64,
}

/// Who administers the badges and who may issue them.
#[derive(Debug, PartialEq, Eq)]
pub struct Config {
    pub admin: Address,
    pub allowed_minters: Vec<Address>,
}

/// The words that introduce a multiplier.
pub const MULTIPLIER_PREFIX: &'static str = "multiplier:";

/// Whether a character is a decimal digit.
pub open spec fn is_digit(c: char) -> bool {
    48 <= c as u32 <= 57
}

/// Whether a text consists of decimal digits only.
pub open spec fn all_digits(text: Seq<char>) -> bool {
    forall|i: int| 0 <= i < text.len() ==> is_digit(#[trigger] text[i])
}

/// The number that a text of decimal digits denotes.
pub open spec fn digits_value(digits: Seq<char>) -> nat
    decreases digits.len(),
{
    if digits.len() == 0 {
        0
    } else {
        (digits_value(digits.drop_last()) * 10 + (digits.last() as u32 - 48)) as nat
    }
}

/// Whether a metadata text starts with the words that introduce a
/// multiplier.
pub open spec fn states_multiplier(metadata: Seq<char>) -> bool {
    metadata.len() >= MULTIPLIER_PREFIX@.len() && metadata.take(MULTIPLIER_PREFIX@.len() as int)
        == MULTIPLIER_PREFIX@
}

/// The multiplier that a metadata text states: the number behind the
/// introducing words, where that is a text of one or more decimal digits
/// whose number fits 32 bits.
pub open spec fn multiplier_of(metadata: Seq<char>) -> Option<u32> {
    let digits = metadata.skip(MULTIPLIER_PREFIX@.len() as int);
    if states_multiplier(metadata) && digits.len() > 0 && all_digits(digits) && digits_value(digits)
        <= u32::MAX {
        Some(digits_value(digits) as u32)
    } else {
        None
    }
}

/// Whether a metadata text is acceptable for a new badge: it states no
/// multiplier, or a multiplier of 1 or more.
pub open spec fn metadata_acceptable(metadata: Seq<char>) -> bool {
    !states_multiplier(metadata) || (multiplier_of(metadata) is Some && multiplier_of(metadata)->0
        > 0)
}

/// A longer text of digits denotes a number at least as large.
proof fn lemma_digits_grow(digits: Seq<char>, k: int)
    requires
        0 <= k <= digits.len(),
        all_digits(digits),
    ensures
        digits_value(digits.take(k)) <= digits_value(digits),
    decreases digits.len() - k,
{
    if k < digits.len() {
        lemma_digits_grow(digits, k + 1);
        assert(digits.take(k + 1).drop_last() =~= digits.take(k));
        assert(is_digit(digits[k]));
        assert(digits.take(k + 1).last() == digits[k]);
    } else {
        assert(digits.take(k) =~= digits);
    }
}

/// Whether `metadata` starts with the words that introduce a multiplier.
fn has_multiplier_prefix(metadata: &str) -> (has: bool)
    ensures
        has == states_multiplier(metadata@),
        MULTIPLIER_PREFIX@.len() == 11,
{
    proof {
        reveal_strlit("multiplier:");
    }
    let length = metadata.unicode_len();
    if length < 11 {
        return false;
    }
    let mut i: usize = 0;
    while i < 11
        invariant
            i <= 11 <= metadata@.len(),
            MULTIPLIER_PREFIX@.len() == 11,
            forall|j: int| 0 <= j < i ==> metadata@[j] == MULTIPLIER_PREFIX@[j],
        decreases 11 - i,
    {
        if metadata.get_char(i) != MULTIPLIER_PREFIX.get_char(i) {
            proof {
                assert(metadata@.take(11)[i as int] != MULTIPLIER_PREFIX@[i as int]);
            }
            return false;
        }
        i += 1;
    }
    proof {
        assert(metadata@.take(11) =~= MULTIPLIER_PREFIX@);
    }
    true
}

/// The multiplier that `metadata` states. See [`multiplier_of`].
pub fn parse_multiplier(metadata: &str) -> (multiplier: Option<u32>)
    ensures
        multiplier == multiplier_of(metadata@),
{
    if !has_multiplier_prefix(metadata) {
        return None;
    }
    let length = metadata.unicode_len();
    if length == 11 {
        return None;
    }
    let ghost digits = metadata@.skip(11);
    let mut value: u32 = 0;
    let mut i: usize = 11;
    proof {
        assert(digits.take(0) =~= Seq::<char>::empty());
    }
    while i < length
        invariant
            11 <= i <= length,
            length == metadata@.len(),
            MULTIPLIER_PREFIX@.len() == 11,
            digits == metadata@.skip(11),
            all_digits(digits.take(i - 11)),
            value == digits_value(digits.take(i - 11)),
        decreases length - i,
    {
        let code = metadata.get_char(i) as u32;
        proof {
            assert(digits[i - 11] == metadata@[i as int]);
            assert(digits.take(i - 10).drop_last() =~= digits.take(i - 11));
            assert(digits.take(i - 10).last() == digits[i - 11]);
        }
        if code < 48 || code > 57 {
            proof {
                assert(!is_digit(digits[i - 11]));
            }
            return None;
        }
        proof {
            assert(digits_value(digits.take(i - 10)) == value * 10 + (code - 48));
        }
        proof {
            assert forall|j: int| 0 <= j < i - 10 implies is_digit(
                #[trigger] digits.take(i - 10)[j],
            ) by {
                if j < i - 11 {
                    assert(digits.take(i - 11)[j] == digits.take(i - 10)[j]);
                }
            }
        }
        let next = match value.checked_mul(10) {
            Some(tens) => tens.checked_add(code - 48),
            None => None,
        };
        match next {
            Some(grown) => {
                value = grown;
            },
            None => {
                proof {
                    if all_digits(digits) {
                        lemma_digits_grow(digits, i - 10);
                    }
                }
                return None;
            },
        }
        i += 1;
    }
    proof {
        assert(digits.take(length - 11) =~= digits);
    }
    Some(value)
}

/// Who may issue badges.
pub struct AccessControl {
    /// The administrator and the allowed minters, once they are set.
    pub config: Option<Config>,
}

impl AccessControl {
    /// Whether `minter` is on the list of allowed minters.
    pub open spec fn allows(&self, minter: Id) -> bool {
        self.config is Some && ids_of(self.config->0.allowed_minters@).contains(minter)
    }

    /// Whether `admin` is the administrator.
    pub open spec fn is_admin_id(&self, admin: Id) -> bool {
        self.config is Some && self.config->0.admin@ == admin
    }

    /// The access control before it is initialized.
    pub fn new() -> (access: AccessControl)
        ensures
            access.config is None,
    {
        AccessControl { config: None }
    }

    /// Sets the administrator and the first allowed minters.
    /// `AlreadyInitialized` when that was done before.
    pub fn initialize(&mut self, admin: Address, allowed_minters: Vec<Address>) -> (result: Result<
        (),
        VotingNFTError,
    >)
        ensures
            old(self).config is Some ==> result == Err::<(), VotingNFTError>(
                VotingNFTError::AlreadyInitialized,
            ) && *final(self) == *old(self),
            old(self).config is None ==> result == Ok::<(), VotingNFTError>(()) && final(self).config
                == Some(Config { admin, allowed_minters }),
    {
        if self.config.is_some() {
            return Err(VotingNFTError::AlreadyInitialized);
        }
        self.config = Some(Config { admin, allowed_minters });
        Ok(())
    }

    /// The position of `minter` on the list of allowed minters.
    fn position(minters: &Vec<Address>, minter: &Address) -> (found: Option<usize>)
        ensures
            match found {
                Some(i) => i < minters@.len() && ids_of(minters@)[i as int] == minter@ && forall|
                    j: int,
                | 0 <= j < i ==> ids_of(minters@)[j] != minter@,
                None => !ids_of(minters@).contains(minter@),
            },
    {
        let mut i: usize = 0;
        while i < minters.len()
            invariant
                i <= minters@.len(),
                forall|j: int| 0 <= j < i ==> ids_of(minters@)[j] != minter@,
            decreases minters@.len() - i,
        {
            if minters[i] == *minter {
                return Some(i);
            }
            i += 1;
        }
        None
    }

    /// Checks that `minter`, who has authenticated, may issue badges.
    pub fn require_minter(&self, minter: &Address) -> (result: Result<(), VotingNFTError>)
        ensures
            result == if self.config is None {
                Err::<(), VotingNFTError>(VotingNFTError::NotInitialized)
            } else if !self.allows(minter@) {
                Err::<(), VotingNFTError>(VotingNFTError::NotAllowedMinter)
            } else {
                Ok::<(), VotingNFTError>(())
            },
    {
        match &self.config {
            None => Err(VotingNFTError::NotInitialized),
            Some(config) => {
                if Self::position(&config.allowed_minters, minter).is_none() {
                    Err(VotingNFTError::NotAllowedMinter)
                } else {
                    Ok(())
                }
            },
        }
    }

    /// Why `admin` cannot change the list of minters, if it cannot.
    pub open spec fn change_refusal(&self, admin: Id) -> Option<VotingNFTError> {
        if self.config is None {
            Some(VotingNFTError::NotInitialized)
        } else if !self.is_admin_id(admin) {
            Some(VotingNFTError::Unauthorized)
        } else {
            None
        }
    }

    /// Puts `minter` on the list of allowed minters. Only the
    /// administrator may; `DuplicateMinter` when `minter` is on the list.
    pub fn add_minter(&mut self, admin: &Address, minter: &Address) -> (result: Result<
        (),
        VotingNFTError,
    >)
        ensures
            match old(self).change_refusal(admin@) {
                Some(reason) => result == Err::<(), VotingNFTError>(reason) && *final(self) == *old(self),
                None => if old(self).allows(minter@) {
                    result == Err::<(), VotingNFTError>(VotingNFTError::DuplicateMinter) && *final(
                        self) == *old(self)
                } else {
                    result == Ok::<(), VotingNFTError>(()) && final(self).config is Some && final(
                        self).config->0.admin == old(self).config->0.admin && final(
                        self).config->0.allowed_minters@ == old(self).config->0.allowed_minters@.push(
                        *minter,
                    )
                },
            },
    {
        let mut config = match self.config.take() {
            Some(config) => config,
            None => {
                return Err(VotingNFTError::NotInitialized);
            },
        };
        if !(*admin == config.admin) {
            self.config = Some(config);
            return Err(VotingNFTError::Unauthorized);
        }
        if Self::position(&config.allowed_minters, minter).is_some() {
            self.config = Some(config);
            return Err(VotingNFTError::DuplicateMinter);
        }
        config.allowed_minters.push(minter.clone());
        self.config = Some(config);
        Ok(())
    }

    /// Takes `minter` off the list of allowed minters: its first entry is
    /// removed. Only the administrator may; `MinterNotFound` when `minter`
    /// is not on the list.
    pub fn remove_minter(&mut self, admin: &Address, minter: &Address) -> (result: Result<
        (),
        VotingNFTError,
    >)
        ensures
            match old(self).change_refusal(admin@) {
                Some(reason) => result == Err::<(), VotingNFTError>(reason) && *final(self) == *old(self),
                None => if !old(self).allows(minter@) {
                    result == Err::<(), VotingNFTError>(VotingNFTError::MinterNotFound) && *final(
                        self) == *old(self)
                } else {
                    result == Ok::<(), VotingNFTError>(()) && final(self).config is Some && final(
                        self).config->0.admin == old(self).config->0.admin && exists|i: int|
                        0 <= i < old(self).config->0.allowed_minters@.len() && ids_of(
                            old(self).config->0.allowed_minters@,
                        )[i] == minter@ && (forall|j: int|
                            0 <= j < i ==> ids_of(old(self).config->0.allowed_minters@)[j]
                                != minter@) && #[trigger] old(
                            self).config->0.allowed_minters@.remove(i) == final(
                            self).config->0.allowed_minters@
                },
            },
    {
        let mut config = match self.config.take() {
            Some(config) => config,
            None => {
                return Err(VotingNFTError::NotInitialized);
            },
        };
        if !(*admin == config.admin) {
            self.config = Some(config);
            return Err(VotingNFTError::Unauthorized);
        }
        match Self::position(&config.allowed_minters, minter) {
            Some(i) => {
                config.allowed_minters.remove(i);
                self.config = Some(config);
                Ok(())
            },
            None => {
                self.config = Some(config);
                Err(VotingNFTError::MinterNotFound)
            },
        }
    }
}

/// The state of the badge contract.
pub struct VotingNFTContract {
    /// Who may issue badges.
    pub access: AccessControl,
    /// The badges; the one with the token `i` stands at index `i - 1`.
    pub nfts: Vec<VotingNFT>,
}

impl VotingNFTContract {
    /// The badges are numbered from 1 in the order in which they stand, and
    /// no member has two badges of one category.
    pub open spec fn wf(&self) -> bool {
        &&& forall|i: int| 0 <= i < self.nfts@.len() ==> (#[trigger] self.nfts@[i]).token_id == i + 1
        &&& forall|i: int, j: int|
            0 <= i < j < self.nfts@.len() ==> !((#[trigger] self.nfts@[i]).owner@ == (
            #[trigger] self.nfts@[j]).owner@ && self.nfts@[i].category == self.nfts@[j].category)
    }

    /// Whether `owner` has a badge of the category `category`.
    pub open spec fn holds(&self, owner: Id, category: Category) -> bool {
        exists|i: int|
            0 <= i < self.nfts@.len() && (#[trigger] self.nfts@[i]).owner@ == owner
                && self.nfts@[i].category == category
    }

    /// Whether a badge with the token `token_id` exists.
    pub open spec fn known(&self, token_id: u128) -> bool {
        1 <= token_id <= self.nfts@.len()
    }

    /// The contract before it is initialized.
    pub fn new() -> (contract: VotingNFTContract)
        ensures
            contract.wf(),
            contract.access.config is None,
            contract.nfts@.len() == 0,
    {
        VotingNFTContract { access: AccessControl::new(), nfts: Vec::new() }
    }

    /// See [`AccessControl::initialize`].
    pub fn initialize(&mut self, admin: Address, allowed_minters: Vec<Address>) -> (result: Result<
        (),
        VotingNFTError,
    >)
        ensures
            final(self).nfts == old(self).nfts,
            old(self).access.config is Some ==> result == Err::<(), VotingNFTError>(
                VotingNFTError::AlreadyInitialized,
            ) && *final(self) == *old(self),
            old(self).access.config is None ==> result == Ok::<(), VotingNFTError>(()) && final(
                self).access.config == Some(Config { admin, allowed_minters }),
    {
        self.access.initialize(admin, allowed_minters)
    }

    /// Whether `owner` has a badge of the category `category`.
    fn has_badge(&self, owner: &Address, category: Category) -> (has: bool)
        ensures
            has == self.holds(owner@, category),
    {
        let mut i: usize = 0;
        while i < self.nfts.len()
            invariant
                i <= self.nfts@.len(),
                forall|j: int|
                    0 <= j < i ==> !((#[trigger] self.nfts@[j]).owner@ == owner@
                        && self.nfts@[j].category == category),
            decreases self.nfts@.len() - i,
        {
            if self.nfts[i].owner == *owner && self.nfts[i].category == category {
                return true;
            }
            i += 1;
        }
        false
    }

    /// Why `minter` cannot issue a badge, if it cannot. The tests are made
    /// in this order.
    pub open spec fn mint_refusal(&self, minter: Id, to: Id, category: Category, metadata: Seq<char>) -> Option<
        VotingNFTError,
    > {
        if self.access.config is None {
            Some(VotingNFTError::NotInitialized)
        } else if !self.access.allows(minter) {
            Some(VotingNFTError::NotAllowedMinter)
        } else if self.holds(to, category) {
            Some(VotingNFTError::DuplicateNFT)
        } else if !metadata_acceptable(metadata) {
            Some(VotingNFTError::InvalidMetadata)
        } else {
            None
        }
    }

    /// Issues a badge of the category `category` to `to`, at the time
    /// `now`, and returns its token.
    pub fn mint_nft(&mut self, minter: &Address, to: &Address, category: Category, metadata: &str, now: u64) -> (result:
        Result<u128, VotingNFTError>)
        requires
            old(self).wf(),
        ensures
            final(self).wf(),
            final(self).access == old(self).access,
            match old(self).mint_refusal(minter@, to@, category, metadata@) {
                Some(reason) => result == Err::<u128, VotingNFTError>(reason) && *final(self) == *old(
                    self),
                None => result == Ok::<u128, VotingNFTError>((old(self).nfts@.len() + 1) as u128)
                    && final(self).nfts@.len() == old(self).nfts@.len() + 1 && final(
                    self).nfts@.drop_last() == old(self).nfts@ && ({
                    let minted = final(self).nfts@.last();
                    &&& minted.token_id == old(self).nfts@.len() + 1
                    &&& minted.category == category
                    &&& minted.metadata@ == metadata@
                    &&& minted.owner == *to
                    &&& minted.issued_at == now
                }),
            },
    {
        match self.access.require_minter(minter) {
            Ok(()) => {},
            Err(reason) => {
                return Err(reason);
            },
        }
        if self.has_badge(to, category) {
            return Err(VotingNFTError::DuplicateNFT);
        }
        if has_multiplier_prefix(metadata) {
            match parse_multiplier(metadata) {
                Some(multiplier) => {
                    if multiplier == 0 {
                        return Err(VotingNFTError::InvalidMetadata);
                    }
                },
                None => {
                    return Err(VotingNFTError::InvalidMetadata);
                },
            }
        }
        let token_id: u128 = self.nfts.len() as u128 + 1;
        let ghost before = self.nfts@;
        self.nfts.push(
            VotingNFT {
                token_id,
                category,
                metadata: String::from_str(metadata),
                owner: to.clone(),
                issued_at: now,
            },
        );
        proof {
            assert(self.nfts@.drop_last() =~= before);
        }
        Ok(token_id)
    }

    /// The badge with the token `token_id`, or `NFTNotFound`.
    pub fn get_nft(&self, token_id: u128) -> (result: Result<&VotingNFT, VotingNFTError>)
        ensures
            match result {
                Ok(nft) => self.known(token_id) && *nft == self.nfts@[token_id - 1],
                Err(reason) => !self.known(token_id) && reason == VotingNFTError::NFTNotFound,
            },
    {
        if token_id < 1 || token_id > self.nfts.len() as u128 {
            return Err(VotingNFTError::NFTNotFound);
        }
        Ok(&self.nfts[(token_id - 1) as usize])
    }

    /// The tokens of the badges of `owner`, in ascending order.
    pub fn get_nfts_by_owner(&self, owner: &Address) -> (tokens: Vec<u128>)
        requires
            self.wf(),
        ensures
            forall|i: int, j: int| 0 <= i < j < tokens@.len() ==> tokens@[i] < tokens@[j],
            forall|t: u128|
                tokens@.contains(t) <==> self.known(t) && self.nfts@[t - 1].owner@ == owner@,
    {
        let mut tokens: Vec<u128> = Vec::new();
        let mut i: usize = 0;
        while i < self.nfts.len()
            invariant
                self.wf(),
                i <= self.nfts@.len(),
                forall|a: int, b: int| 0 <= a < b < tokens@.len() ==> tokens@[a] < tokens@[b],
                forall|a: int| 0 <= a < tokens@.len() ==> tokens@[a] <= i,
                forall|t: u128|
                    tokens@.contains(t) <==> 1 <= t <= i && self.nfts@[t - 1].owner@ == owner@,
            decreases self.nfts@.len() - i,
        {
            let ghost before = tokens@;
            if self.nfts[i].owner == *owner {
                tokens.push(self.nfts[i].token_id);
                proof {
                    let added = (i + 1) as u128;
                    assert(tokens@[before.len() as int] == added);
                    assert forall|t: u128|
                        tokens@.contains(t) <==> 1 <= t <= i + 1 && self.nfts@[t - 1].owner@
                            == owner@ by {
                        if before.contains(t) {
                            let p = before.index_of(t);
                            assert(tokens@[p] == t);
                        }
                        if tokens@.contains(t) {
                            let p = tokens@.index_of(t);
                            if p < before.len() {
                                assert(before[p] == t);
                            }
                        }
                    }
                }
            }
            i += 1;
        }
        tokens
    }

    /// The multiplier that the badge `token_id` gives: the one that its
    /// metadata states, or 1 where it states none. `InvalidMetadata` where
    /// what is stated is not a number of 32 bits.
    pub fn get_voting_power(&self, token_id: u128) -> (result: Result<u32, VotingNFTError>)
        ensures
            result == if !self.known(token_id) {
                Err::<u32, VotingNFTError>(VotingNFTError::NFTNotFound)
            } else {
                let metadata = self.nfts@[token_id - 1].metadata@;
                if !states_multiplier(metadata) {
                    Ok::<u32, VotingNFTError>(1)
                } else if multiplier_of(metadata) is Some {
                    Ok::<u32, VotingNFTError>(multiplier_of(metadata)->0)
                } else {
                    Err::<u32, VotingNFTError>(VotingNFTError::InvalidMetadata)
                }
            },
    {
        let nft = match self.get_nft(token_id) {
            Ok(nft) => nft,
            Err(reason) => {
                return Err(reason);
            },
        };
        if has_multiplier_prefix(nft.metadata.as_str()) {
            match parse_multiplier(nft.metadata.as_str()) {
                Some(multiplier) => Ok(multiplier),
                None => Err(VotingNFTError::InvalidMetadata),
            }
        } else {
            Ok(1)
        }
    }

    /// See [`AccessControl::add_minter`].
    pub fn add_minter(&mut self, admin: &Address, minter: &Address) -> (result: Result<
        (),
        VotingNFTError,
    >)
        ensures
            final(self).nfts == old(self).nfts,
            match old(self).access.change_refusal(admin@) {
                Some(reason) => result == Err::<(), VotingNFTError>(reason) && *final(self) == *old(self),
                None => if old(self).access.allows(minter@) {
                    result == Err::<(), VotingNFTError>(VotingNFTError::DuplicateMinter) && *final(
                        self) == *old(self)
                } else {
                    result == Ok::<(), VotingNFTError>(()) && final(self).access.allows(minter@)
                },
            },
    {
        let result = self.access.add_minter(admin, minter);
        proof {
            if result is Ok {
                let list = self.access.config->0.allowed_minters@;
                assert(ids_of(list)[list.len() - 1] == minter@);
            }
        }
        result
    }

    /// See [`AccessControl::remove_minter`].
    pub fn remove_minter(&mut self, admin: &Address, minter: &Address) -> (result: Result<
        (),
        VotingNFTError,
    >)
        ensures
            final(self).nfts == old(self).nfts,
            match old(self).access.change_refusal(admin@) {
                Some(reason) => result == Err::<(), VotingNFTError>(reason) && *final(self) == *old(self),
                None => if !old(self).access.allows(minter@) {
                    result == Err::<(), VotingNFTError>(VotingNFTError::MinterNotFound) && *final(
                        self) == *old(self)
                } else {
                    result == Ok::<(), VotingNFTError>(())
                },
            },
    {
        self.access.remove_minter(admin, minter)
    }
}

} // verus!
