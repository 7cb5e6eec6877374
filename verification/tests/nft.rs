use harmonia_dao::address::Address;
use harmonia_dao::nft_collection::{ContractError, VotingNFTContract};
use harmonia_dao::voting_nft;
use harmonia_dao::voting_nft::{parse_multiplier, Category, VotingNFTError};

const NOW: u64 = 77;

fn create_client(admin: &Address) -> VotingNFTContract {
    VotingNFTContract::new(admin.clone())
}

#[test]
fn voting_nft_test_initialization() {
    let admin = Address::new("admin");
    let client = create_client(&admin);

    assert_eq!(client.name(), "Harmonia Voting NFTs");
    assert_eq!(client.symbol(), "HARM");
    assert_eq!(client.base_uri(), "ipfs://harmonia-nfts");
    assert_eq!(client.get_admin(), &admin);
}

#[test]
fn test_mint_nft_success() {
    let admin = Address::new("admin");
    let mut client = create_client(&admin);

    let user1 = Address::new("user-1");
    let minter = Address::new("minter");
    let category = "participation";
    let metadata = "voted_5_proposals";

    client.add_minter(&admin, &minter).unwrap();

    let token_1 = client.mint_nft(&minter, &user1, category, metadata, NOW).unwrap();
    let token_2 = client.mint_nft(&minter, &user1, "partici", metadata, NOW).unwrap();

    let minted_nft_2 = client.get_nft(token_2).unwrap();
    assert_eq!(minted_nft_2.token_id, 1);
    assert_eq!(minted_nft_2.category, "partici");
    assert_eq!(minted_nft_2.metadata, metadata);
    assert_eq!(minted_nft_2.owner, user1);
    assert!(minted_nft_2.issued_at >= NOW);

    let retrieved_nft = client.get_nft(0).unwrap();
    let retrieved_nft_2 = client.get_nft(1).unwrap();
    assert_eq!(retrieved_nft.token_id, token_1);
    assert_eq!(retrieved_nft.category, category);
    assert_eq!(retrieved_nft_2, minted_nft_2);

    let owner_nfts = client.get_nfts_by_owner(&user1);
    assert_eq!(owner_nfts.len(), 2);
    assert_eq!(*owner_nfts.get(0).unwrap(), retrieved_nft);
    assert_eq!(*owner_nfts.get(1).unwrap(), retrieved_nft_2);

    assert_eq!(client.owner_of(1), Ok(&user1));
    assert_eq!(client.owner_of(0), Ok(&user1));
}

#[test]
fn test_get_nft_not_found() {
    let admin = Address::new("admin");
    let client = create_client(&admin);

    assert_eq!(client.get_nft(999), Err(ContractError::NftNotFound));
    assert_eq!(client.owner_of(0), Err(ContractError::NftNotFound));
    assert_eq!(ContractError::NftNotFound.code(), 2);
}

#[test]
fn test_get_nfts_by_owner_multiple() {
    let admin = Address::new("admin");
    let mut client = create_client(&admin);

    let user1 = Address::new("user-1");
    let user2 = Address::new("user-2");
    let minter = Address::new("minter");

    client.add_minter(&admin, &minter).unwrap();

    let nft1_user1 = client.mint_nft(&minter, &user1, "participation", "voted_5", NOW).unwrap();
    let nft2_user1 = client.mint_nft(&minter, &user1, "referral", "referred_1", NOW).unwrap();
    let nft1_user2 = client.mint_nft(&minter, &user2, "participation", "voted_5", NOW).unwrap();

    let user1_nfts = client.get_nfts_by_owner(&user1);
    assert_eq!(user1_nfts.len(), 2);
    assert!(user1_nfts.contains(&client.get_nft(nft1_user1).unwrap()));
    assert!(user1_nfts.contains(&client.get_nft(nft2_user1).unwrap()));

    let user2_nfts = client.get_nfts_by_owner(&user2);
    assert_eq!(user2_nfts.len(), 1);
    assert!(user2_nfts.contains(&client.get_nft(nft1_user2).unwrap()));

    let empty_nfts = client.get_nfts_by_owner(&Address::new("nobody"));
    assert!(empty_nfts.is_empty());
}

#[test]
fn test_mint_nft_unauthorized() {
    let admin = Address::new("admin");
    let mut client = create_client(&admin);

    let to_address = Address::new("to");
    let minter = Address::new("minter");

    assert_eq!(
        client.mint_nft(&minter, &to_address, "referral", "referred_3_members", NOW),
        Err(ContractError::Unauthorized)
    );
    assert_eq!(ContractError::Unauthorized.code(), 1210);
    assert!(client.get_nfts_by_owner(&to_address).is_empty());
}

#[test]
fn test_mint_nft_duplicate_category_fails() {
    let admin = Address::new("admin");
    let mut client = create_client(&admin);

    let user1 = Address::new("user-1");
    let minter = Address::new("minter");
    let category = "participation";

    client.add_minter(&admin, &minter).unwrap();

    client.mint_nft(&minter, &user1, category, "voted_5_proposals", NOW).unwrap();

    assert_eq!(
        client.mint_nft(&minter, &user1, category, "voted_10_proposals", NOW),
        Err(ContractError::CategoryAlreadyMinted)
    );
    assert_eq!(ContractError::CategoryAlreadyMinted.code(), 1);

    let owner_nfts = client.get_nfts_by_owner(&user1);
    assert_eq!(owner_nfts.len(), 1);
}

#[test]
fn test_add_and_remove_minter() {
    let admin = Address::new("admin");
    let mut client = create_client(&admin);

    let new_minter = Address::new("new-minter");
    let recipient = Address::new("recipient");
    let category = "referral";
    let metadata = "referred_2_members";

    client.add_minter(&admin, &new_minter).unwrap();

    let token = client.mint_nft(&new_minter, &recipient, category, metadata, NOW).unwrap();
    assert_eq!(client.get_nft(token).unwrap().owner, recipient);

    client.remove_minter(&admin, &new_minter).unwrap();

    assert_eq!(
        client.mint_nft(&new_minter, &recipient, "governance", metadata, NOW),
        Err(ContractError::Unauthorized)
    );
    // only the administrator names minters
    assert_eq!(client.add_minter(&new_minter, &new_minter), Err(ContractError::Unauthorized));
    assert_eq!(client.remove_minter(&recipient, &admin), Err(ContractError::Unauthorized));
    // the administrator issues badges itself
    assert_eq!(client.mint_nft(&admin, &recipient, "governance", metadata, NOW), Ok(1));
}

// badges with multipliers

fn badges() -> (voting_nft::VotingNFTContract, Address, Address) {
    let mut client = voting_nft::VotingNFTContract::new();
    let admin = Address::new("admin");
    let minter = Address::new("minter");
    client.initialize(admin.clone(), vec![minter.clone()]).unwrap();
    (client, admin, minter)
}

#[test]
fn multipliers_are_parsed() {
    assert_eq!(parse_multiplier("multiplier:2"), Some(2));
    assert_eq!(parse_multiplier("multiplier:0"), Some(0));
    assert_eq!(parse_multiplier("multiplier:007"), Some(7));
    assert_eq!(parse_multiplier("multiplier:4294967295"), Some(u32::MAX));
    assert_eq!(parse_multiplier("multiplier:4294967296"), None);
    assert_eq!(parse_multiplier("multiplier:99999999999999999999"), None);
    assert_eq!(parse_multiplier("multiplier:"), None);
    assert_eq!(parse_multiplier("multiplier:2x"), None);
    assert_eq!(parse_multiplier("multiplier:-2"), None);
    assert_eq!(parse_multiplier("multiplier: 2"), None);
    assert_eq!(parse_multiplier("Multiplier:2"), None);
    assert_eq!(parse_multiplier("multiplier"), None);
    assert_eq!(parse_multiplier("voted_5"), None);
    assert_eq!(parse_multiplier(""), None);
}

#[test]
fn badges_carry_multipliers() {
    let (mut client, _admin, minter) = badges();
    let owner = Address::new("owner");
    assert_eq!(
        client.mint_nft(&minter, &owner, Category::Participation, "multiplier:3", NOW),
        Ok(1)
    );
    assert_eq!(client.mint_nft(&minter, &owner, Category::Referral, "voted_5", NOW), Ok(2));
    assert_eq!(client.get_voting_power(1), Ok(3));
    assert_eq!(client.get_voting_power(2), Ok(1));
    assert_eq!(client.get_voting_power(3), Err(VotingNFTError::NFTNotFound));
    assert_eq!(client.get_voting_power(0), Err(VotingNFTError::NFTNotFound));
    // one badge per member and category
    assert_eq!(
        client.mint_nft(&minter, &owner, Category::Participation, "voted_9", NOW),
        Err(VotingNFTError::DuplicateNFT)
    );
    // a multiplier has to be a number of 1 or more
    for metadata in ["multiplier:0", "multiplier:", "multiplier:two", "multiplier:4294967296"] {
        assert_eq!(
            client.mint_nft(&minter, &owner, Category::Governance, metadata, NOW),
            Err(VotingNFTError::InvalidMetadata)
        );
    }
    assert_eq!(client.get_nfts_by_owner(&owner), vec![1, 2]);
    let other = Address::new("other");
    assert_eq!(client.mint_nft(&minter, &other, Category::Participation, "x", NOW + 1), Ok(3));
    assert_eq!(client.get_nfts_by_owner(&owner), vec![1, 2]);
    assert_eq!(client.get_nfts_by_owner(&other), vec![3]);
    let badge = client.get_nft(3).unwrap();
    assert_eq!(badge.owner, other);
    assert_eq!(badge.category, Category::Participation);
    assert_eq!(badge.issued_at, NOW + 1);
    assert_eq!(client.get_nft(4), Err(VotingNFTError::NFTNotFound));
}

#[test]
fn minters_are_administered() {
    let mut client = voting_nft::VotingNFTContract::new();
    let admin = Address::new("admin");
    let minter = Address::new("minter");
    let owner = Address::new("owner");
    assert_eq!(
        client.mint_nft(&minter, &owner, Category::Referral, "x", NOW),
        Err(VotingNFTError::NotInitialized)
    );
    assert_eq!(client.add_minter(&admin, &minter), Err(VotingNFTError::NotInitialized));
    assert_eq!(client.remove_minter(&admin, &minter), Err(VotingNFTError::NotInitialized));
    client.initialize(admin.clone(), Vec::new()).unwrap();
    assert_eq!(
        client.initialize(admin.clone(), Vec::new()),
        Err(VotingNFTError::AlreadyInitialized)
    );
    assert_eq!(
        client.mint_nft(&minter, &owner, Category::Referral, "x", NOW),
        Err(VotingNFTError::NotAllowedMinter)
    );
    assert_eq!(client.add_minter(&minter, &minter), Err(VotingNFTError::Unauthorized));
    assert_eq!(client.add_minter(&admin, &minter), Ok(()));
    assert_eq!(client.add_minter(&admin, &minter), Err(VotingNFTError::DuplicateMinter));
    assert_eq!(client.access.require_minter(&minter), Ok(()));
    assert_eq!(client.mint_nft(&minter, &owner, Category::Referral, "x", NOW), Ok(1));
    assert_eq!(client.remove_minter(&minter, &minter), Err(VotingNFTError::Unauthorized));
    assert_eq!(client.remove_minter(&admin, &minter), Ok(()));
    assert_eq!(client.remove_minter(&admin, &minter), Err(VotingNFTError::MinterNotFound));
    assert_eq!(
        client.mint_nft(&minter, &owner, Category::Governance, "x", NOW),
        Err(VotingNFTError::NotAllowedMinter)
    );
    // in this contract the administrator is no minter
    assert_eq!(
        client.mint_nft(&admin, &owner, Category::Governance, "x", NOW),
        Err(VotingNFTError::NotAllowedMinter)
    );
}
