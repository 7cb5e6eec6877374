//! The collection of voting badges: tokens numbered from 0, one per member
//! and category, issued by the administrator and by the minters that the
//! administrator has named.

use vstd::prelude::*;
use vstd::string::*;
use crate::address::{ids_of, lemma_ids_of_push, Address, Id};

verus! {

pub const COLLECTION_URI: &'static str = "ipfs://harmonia-nfts";

pub const COLLECTION_NAME: &'static str = "Harmonia Voting NFTs";

pub const COLLECTION_SYMBOL: &'static str = "HARM";

/// Why an operation on the collection was refused.
#[derive(Clone, Copy, Debug, PartialEq, Eq, Structural)]
pub enum ContractError {
    /// The member has a badge of the category already.
    CategoryAlreadyMinted,
    /// There is no badge with the token.
    NftNotFound,
    /// The caller may not do this.
    Unauthorized,
}

impl ContractError {
    /// The number under which the error is reported to the caller of the
    /// contract.
    pub fn code(&self) -> (code: u32)
        ensures
            code == match *self {
                ContractError::CategoryAlreadyMinted => 1u32,
                ContractError::NftNotFound => 2u32,
                ContractError::Unauthorized => 1210u32,
            },
    {
        match self {
            ContractError::CategoryAlreadyMinted => 1,
            ContractError::NftNotFound => 2,
            ContractError::Unauthorized => 1210,
        }
    }
}

/// A badge of the collection.
#[derive(Debug, PartialEq, Eq)]
pub struct VotingNFT {
    pub token_id: u32,
    pub category: String,
    pub metadata: String,
    pub owner: Address,
    pub issued_at: u64,
}

/// The state of the collection.
pub struct VotingNFTContract {
    /// The administrator.
    pub admin: Address,
    /// The minters that the administrator has named.
    pub minters: Vec<Address>,
    /// The badges; the one with the token `i` stands at index `i`.
    pub nfts: Vec<VotingNFT>,
}

impl VotingNFTContract {
    /// The badges are numbered from 0 in the order in which they stand,
    /// their number fits 32 bits, and no member has two badges of one
    /// category.
    pub open spec fn wf(&self) -> bool {
        &&& self.nfts@.len() <= u32::MAX
        &&& forall|i: int| 0 <= i < self.nfts@.len() ==> (#[trigger] self.nfts@[i]).token_id == i
        &&& forall|i: int, j: int|
            0 <= i < j < self.nfts@.len() ==> !((#[trigger] self.nfts@[i]).owner@ == (
            #[trigger] self.nfts@[j]).owner@ && self.nfts@[i].category@ == self.nfts@[j].category@)
    }

    /// Whether `owner` has a badge of the category `category`.
    pub open spec fn holds(&self, owner: Id, category: Seq<char>) -> bool {
        exists|i: int|
            0 <= i < self.nfts@.len() && (#[trigger] self.nfts@[i]).owner@ == owner
                && self.nfts@[i].category@ == category
    }

    /// The empty collection, administered by `admin`.
    pub fn new(admin: Address) -> (contract: VotingNFTContract)
        ensures
            contract.wf(),
            contract.admin == admin,
            contract.minters@.len() == 0,
            contract.nfts@.len() == 0,
    {
        VotingNFTContract { admin, minters: Vec::new(), nfts: Vec::new() }
    }

    /// Whether `minter` may issue badges: it is the administrator or one of
    /// the minters.
    pub open spec fn may_mint(&self, minter: Id) -> bool {
        self.admin@ == minter || ids_of(self.minters@).contains(minter)
    }

    /// The position of `minter` among the minters.
    fn minter_position(&self, minter: &Address) -> (found: Option<usize>)
        ensures
            match found {
                Some(i) => i < self.minters@.len() && ids_of(self.minters@)[i as int] == minter@
                    && forall|j: int| 0 <= j < i ==> ids_of(self.minters@)[j] != minter@,
                None => !ids_of(self.minters@).contains(minter@),
            },
    {
        let mut i: usize = 0;
        while i < self.minters.len()
            invariant
                i <= self.minters@.len(),
                forall|j: int| 0 <= j < i ==> ids_of(self.minters@)[j] != minter@,
            decreases self.minters@.len() - i,
        {
            if self.minters[i] == *minter {
                return Some(i);
            }
            i += 1;
        }
        None
    }

    /// Names `minter` as a minter, unless it is one. Only the administrator
    /// may.
    pub fn add_minter(&mut self, admin: &Address, minter: &Address) -> (result: Result<
        (),
        ContractError,
    >)
        ensures
            final(self).admin == old(self).admin,
            final(self).nfts == old(self).nfts,
            admin@ != old(self).admin@ ==> result == Err::<(), ContractError>(
                ContractError::Unauthorized,
            ) && *final(self) == *old(self),
            admin@ == old(self).admin@ ==> result == Ok::<(), ContractError>(()) && final(
                self).minters@ == (if ids_of(old(self).minters@).contains(minter@) {
                old(self).minters@
            } else {
                old(self).minters@.push(*minter)
            }) && final(self).may_mint(minter@),
    {
        if !(*admin == self.admin) {
            return Err(ContractError::Unauthorized);
        }
        if self.minter_position(minter).is_none() {
            let ghost before = self.minters@;
            self.minters.push(minter.clone());
            proof {
                lemma_ids_of_push(before, *minter);
            }
        }
        Ok(())
    }

    /// Takes `minter` off the minters, if it is one: its first entry is
    /// removed. Only the administrator may.
    pub fn remove_minter(&mut self, admin: &Address, minter: &Address) -> (result: Result<
        (),
        ContractError,
    >)
        ensures
            final(self).admin == old(self).admin,
            final(self).nfts == old(self).nfts,
            admin@ != old(self).admin@ ==> result == Err::<(), ContractError>(
                ContractError::Unauthorized,
            ) && *final(self) == *old(self),
            admin@ == old(self).admin@ ==> result == Ok::<(), ContractError>(()) && (!ids_of(
                old(self).minters@,
            ).contains(minter@) ==> final(self).minters == old(self).minters) && (ids_of(
                old(self).minters@,
            ).contains(minter@) ==> exists|i: int|
                0 <= i < old(self).minters@.len() && ids_of(old(self).minters@)[i] == minter@
                    && (forall|j: int| 0 <= j < i ==> ids_of(old(self).minters@)[j] != minter@)
                    && #[trigger] old(self).minters@.remove(i) == final(self).minters@),
    {
        if !(*admin == self.admin) {
            return Err(ContractError::Unauthorized);
        }
        match self.minter_position(minter) {
            Some(i) => {
                self.minters.remove(i);
            },
            None => {},
        }
        Ok(())
    }

    /// The name of the collection.
    pub fn name(&self) -> (name: &'static str)
        ensures
            name@ == COLLECTION_NAME@,
    {
        COLLECTION_NAME
    }

    /// The symbol of the collection.
    pub fn symbol(&self) -> (symbol: &'static str)
        ensures
            symbol@ == COLLECTION_SYMBOL@,
    {
        COLLECTION_SYMBOL
    }

    /// Where the data of the collection lies.
    pub fn base_uri(&self) -> (uri: &'static str)
        ensures
            uri@ == COLLECTION_URI@,
    {
        COLLECTION_URI
    }

    /// The administrator.
    pub fn get_admin(&self) -> (admin: &Address)
        ensures
            *admin == self.admin,
    {
        &self.admin
    }

    /// Whether `owner` has a badge of the category `category`.
    fn has_badge(&self, owner: &Address, category: &str) -> (has: bool)
        ensures
            has == self.holds(owner@, category@),
    {
        let wanted = String::from_str(category);
        let mut i: usize = 0;
        while i < self.nfts.len()
            invariant
                i <= self.nfts@.len(),
                wanted@ == category@,
                forall|j: int|
                    0 <= j < i ==> !((#[trigger] self.nfts@[j]).owner@ == owner@
                        && self.nfts@[j].category@ == category@),
            decreases self.nfts@.len() - i,
        {
            if self.nfts[i].owner == *owner && self.nfts[i].category == wanted {
                return true;
            }
            i += 1;
        }
        false
    }

    /// Why `minter` cannot issue a badge, if it cannot. The tests are made
    /// in this order.
    pub open spec fn mint_refusal(&self, minter: Id, to: Id, category: Seq<char>) -> Option<
        ContractError,
    > {
        if !self.may_mint(minter) {
            Some(ContractError::Unauthorized)
        } else if self.holds(to, category) {
            Some(ContractError::CategoryAlreadyMinted)
        } else {
            None
        }
    }

    /// Issues a badge of the category `category` to `to`, at the time
    /// `now`, and returns its token: the number of badges issued before.
    /// `minter`, who has authenticated, has to be the administrator or a
    /// minter; `CategoryAlreadyMinted` when `to` has a badge of the
    /// category.
    pub fn mint_nft(&mut self, minter: &Address, to: &Address, category: &str, metadata: &str, now: u64) -> (result:
        Result<u32, ContractError>)
        requires
            old(self).wf(),
            old(self).nfts@.len() < u32::MAX,
        ensures
            final(self).wf(),
            final(self).admin == old(self).admin,
            final(self).minters == old(self).minters,
            old(self).mint_refusal(minter@, to@, category@) is Some ==> result == Err::<
                u32,
                ContractError,
            >(old(self).mint_refusal(minter@, to@, category@)->0) && *final(self) == *old(self),
            old(self).mint_refusal(minter@, to@, category@) is None ==> result == Ok::<u32, ContractError>(
                old(self).nfts@.len() as u32,
            ) && final(self).nfts@.len() == old(self).nfts@.len() + 1 && final(
                self).nfts@.drop_last() == old(self).nfts@ && ({
                let minted = final(self).nfts@.last();
                &&& minted.token_id == old(self).nfts@.len()
                &&& minted.category@ == category@
                &&& minted.metadata@ == metadata@
                &&& minted.owner == *to
                &&& minted.issued_at == now
            }),
    {
        if !(*minter == self.admin) && self.minter_position(minter).is_none() {
            return Err(ContractError::Unauthorized);
        }
        if self.has_badge(to, category) {
            return Err(ContractError::CategoryAlreadyMinted);
        }
        let token_id: u32 = self.nfts.len() as u32;
        let ghost before = self.nfts@;
        self.nfts.push(
            VotingNFT {
                token_id,
                category: String::from_str(category),
                metadata: String::from_str(metadata),
                owner: to.clone(),
                issued_at: now,
            },
        );
        proof {
            assert(self.nfts@.drop_last() =~= before);
        }
        Ok(token_id)
    }

    /// The badge with the token `token_id`, or `NftNotFound`.
    pub fn get_nft(&self, token_id: u32) -> (result: Result<&VotingNFT, ContractError>)
        ensures
            match result {
                Ok(nft) => token_id < self.nfts@.len() && *nft == self.nfts@[token_id as int],
                Err(reason) => token_id >= self.nfts@.len() && reason == ContractError::NftNotFound,
            },
    {
        if token_id as usize >= self.nfts.len() {
            return Err(ContractError::NftNotFound);
        }
        Ok(&self.nfts[token_id as usize])
    }

    /// The owner of the badge with the token `token_id`, or `NftNotFound`.
    pub fn owner_of(&self, token_id: u32) -> (result: Result<&Address, ContractError>)
        ensures
            match result {
                Ok(owner) => token_id < self.nfts@.len() && *owner
                    == self.nfts@[token_id as int].owner,
                Err(reason) => token_id >= self.nfts@.len() && reason == ContractError::NftNotFound,
            },
    {
        match self.get_nft(token_id) {
            Ok(nft) => Ok(&nft.owner),
            Err(reason) => Err(reason),
        }
    }

    /// The badges of `owner`, in the order in which they were issued.
    pub fn get_nfts_by_owner(&self, owner: &Address) -> (owned: Vec<&VotingNFT>)
        requires
            self.wf(),
        ensures
            forall|k: int| 0 <= k < owned@.len() ==> (#[trigger] owned@[k]).owner@ == owner@
                && owned@[k].token_id < self.nfts@.len() && *owned@[k]
                == self.nfts@[owned@[k].token_id as int],
            forall|a: int, b: int|
                0 <= a < b < owned@.len() ==> owned@[a].token_id < owned@[b].token_id,
            forall|i: int|
                0 <= i < self.nfts@.len() && (#[trigger] self.nfts@[i]).owner@ == owner@
                    ==> exists|k: int| 0 <= k < owned@.len() && (#[trigger] owned@[k]).token_id == i,
    {
        let mut owned: Vec<&VotingNFT> = Vec::new();
        let mut i: usize = 0;
        while i < self.nfts.len()
            invariant
                self.wf(),
                i <= self.nfts@.len(),
                forall|k: int| 0 <= k < owned@.len() ==> (#[trigger] owned@[k]).owner@ == owner@
                    && owned@[k].token_id < i && *owned@[k]
                    == self.nfts@[owned@[k].token_id as int],
                forall|a: int, b: int|
                    0 <= a < b < owned@.len() ==> owned@[a].token_id < owned@[b].token_id,
                forall|j: int|
                    0 <= j < i && (#[trigger] self.nfts@[j]).owner@ == owner@ ==> exists|k: int|
                        0 <= k < owned@.len() && (#[trigger] owned@[k]).token_id == j,
            decreases self.nfts@.len() - i,
        {
            let ghost before = owned@;
            if self.nfts[i].owner == *owner {
                owned.push(&self.nfts[i]);
                proof {
                    assert(owned@[before.len() as int].token_id == i);
                    assert forall|j: int|
                        0 <= j < i + 1 && (#[trigger] self.nfts@[j]).owner@
                            == owner@ implies exists|k: int|
                        0 <= k < owned@.len() && (#[trigger] owned@[k]).token_id == j by {
                        if j < i {
                            let k = choose|k: int|
                                0 <= k < before.len() && (#[trigger] before[k]).token_id == j;
                            assert(owned@[k].token_id == j);
                        }
                    }
                }
            }
            i += 1;
        }
        owned
    }
}

} // verus!
