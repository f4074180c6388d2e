use escrow_market::achievement_nft::{AchievementNFT, NftError};

fn s(x: &str) -> String {
    x.to_string()
}

#[test]
fn test_nft_lifecycle() {
    let mut nft = AchievementNFT::new();
    let user_a = s("user_a");
    let user_b = s("user_b");
    nft.initialize(s("admin")).unwrap();

    let mut collection_a: Vec<u32> = Vec::new();
    let mut collection_b: Vec<u32> = Vec::new();
    let token_id = nft.mint(&user_a, 42, s("Master Puzzler"), 0).unwrap();
    AchievementNFT::add_to_collection(&mut collection_a, token_id);
    assert_eq!(token_id, 1);
    assert_eq!(nft.owner_of(token_id), Ok(user_a.clone()));
    assert_eq!(nft.total_supply(), 1);

    nft.transfer(&user_a, &user_b, token_id).unwrap();
    assert!(AchievementNFT::remove_from_collection(&mut collection_a, token_id));
    AchievementNFT::add_to_collection(&mut collection_b, token_id);
    assert_eq!(nft.owner_of(token_id), Ok(user_b.clone()));
    assert_eq!(collection_a, Vec::<u32>::new());
    assert_eq!(collection_b, vec![1]);

    assert_eq!(nft.burn(token_id), Ok(user_b));
    assert_eq!(nft.total_supply(), 0);
}

#[test]
fn nft_errors() {
    let mut nft = AchievementNFT::new();
    assert_eq!(nft.mint(&s("a"), 1, s("m"), 0), Err(NftError::NotInitialized));
    nft.initialize(s("admin")).unwrap();
    assert_eq!(nft.initialize(s("admin")), Err(NftError::AlreadyInitialized));
    let id = nft.mint(&s("a"), 1, s("m"), 5).unwrap();
    assert_eq!(nft.transfer(&s("b"), &s("c"), id), Err(NftError::NotOwner));
    assert_eq!(nft.owner_of(9), Err(NftError::TokenNotFound));
    nft.burn(id).unwrap();
    assert_eq!(nft.burn(id), Err(NftError::TokenNotFound));
    assert_eq!(nft.get_achievement(id), None);
    let next = nft.mint(&s("a"), 2, s("m"), 6).unwrap();
    assert_eq!(next, 2);
}

#[test]
fn collection_removes_first_occurrence_only() {
    let mut col = vec![3, 5, 3];
    assert!(AchievementNFT::remove_from_collection(&mut col, 3));
    assert_eq!(col, vec![5, 3]);
    assert!(!AchievementNFT::remove_from_collection(&mut col, 9));
    assert_eq!(col, vec![5, 3]);
}
