use escrow_market::settlement::calculate_payouts;
use escrow_market::marketplace::{
    Asset, AssetType, ListingStatus, MarketplaceContract, MarketplaceError, OfferStatus, Party, Transfer,
};

fn s(x: &str) -> String {
    x.to_string()
}

fn nft(id: u32) -> Asset {
    Asset { asset_type: AssetType::NFT, contract: s("NFTREG"), token_id: id }
}

fn pay(from: Party, to: Party, amount: i128) -> Transfer {
    Transfer::Payment { token: s("XLM"), from, to, amount }
}

fn acct(x: &str) -> Party {
    Party::Account(s(x))
}

fn market(fee_bps: u32) -> MarketplaceContract {
    let mut m = MarketplaceContract::new();
    m.initialize(s("admin"), s("fees"), fee_bps, 0, 1000).unwrap();
    m
}

fn list(m: &mut MarketplaceContract, price: i128, creator: Option<&str>, royalty_bps: u32) -> u64 {
    let (id, transfers) = m
        .create_listing(&s("seller"), nft(7), s("XLM"), price, creator.map(s), royalty_bps, 10, &s("seller"))
        .unwrap();
    assert_eq!(transfers, vec![Transfer::AssetMove { asset: nft(7), from: acct("seller"), to: Party::Escrow }]);
    id
}

#[test]
fn buy_splits_price_with_creator() {
    let mut m = market(250);
    let id = list(&mut m, 1000, Some("artist"), 500);
    let transfers = m.buy(&s("buyer"), id).unwrap();
    assert_eq!(
        transfers,
        vec![
            pay(acct("buyer"), Party::Escrow, 1000),
            pay(Party::Escrow, acct("seller"), 925),
            pay(Party::Escrow, acct("fees"), 25),
            pay(Party::Escrow, acct("artist"), 50),
            Transfer::AssetMove { asset: nft(7), from: Party::Escrow, to: acct("buyer") },
        ]
    );
    assert_eq!(m.get_listing(id).unwrap().status, ListingStatus::Sold);
    assert_eq!(m.get_price_history(&s("NFTREG"), 7), vec![1000]);
    assert_eq!(m.get_active_listings(), Vec::<u64>::new());
}

#[test]
fn counter_offer_settles_at_counter_price() {
    let mut m = market(250);
    let id = list(&mut m, 1000, Some("artist"), 500);
    let (offer_id, escrow) = m.create_offer(&s("buyer"), id, 800, None, 20).unwrap();
    assert_eq!(escrow, vec![pay(acct("buyer"), Party::Escrow, 800)]);
    let counter_id = m.create_counter_offer(&s("seller"), offer_id, 900, None, 30).unwrap();
    assert_eq!(m.get_offer(offer_id).unwrap().status, OfferStatus::Countered);
    let transfers = m.accept_counter_offer(&s("buyer"), counter_id, 40).unwrap();
    assert_eq!(
        transfers,
        vec![
            pay(acct("buyer"), Party::Escrow, 100),
            pay(Party::Escrow, acct("seller"), 833),
            pay(Party::Escrow, acct("fees"), 22),
            pay(Party::Escrow, acct("artist"), 45),
            Transfer::AssetMove { asset: nft(7), from: Party::Escrow, to: acct("buyer") },
        ]
    );
    assert_eq!(m.get_offer(offer_id).unwrap().status, OfferStatus::Accepted);
    assert_eq!(m.get_listing(id).unwrap().status, ListingStatus::Sold);
    assert_eq!(m.get_price_history(&s("NFTREG"), 7), vec![900]);
}

#[test]
fn accepting_one_offer_refunds_the_others() {
    let mut m = market(0);
    let id = list(&mut m, 1000, None, 0);
    let (a, _) = m.create_offer(&s("alice"), id, 500, None, 20).unwrap();
    let (b, _) = m.create_offer(&s("bob"), id, 600, None, 21).unwrap();
    let transfers = m.accept_offer(&s("seller"), b, 30).unwrap();
    assert_eq!(
        transfers,
        vec![
            pay(Party::Escrow, acct("seller"), 600),
            Transfer::AssetMove { asset: nft(7), from: Party::Escrow, to: acct("bob") },
            pay(Party::Escrow, acct("alice"), 500),
        ]
    );
    assert_eq!(m.get_offer(a).unwrap().status, OfferStatus::Cancelled);
    assert_eq!(m.get_offer(b).unwrap().status, OfferStatus::Accepted);
    assert_eq!(m.get_listing(id).unwrap().status, ListingStatus::Sold);
}

#[test]
fn listing_errors() {
    let mut m = market(250);
    assert_eq!(
        m.create_listing(&s("seller"), nft(1), s("XLM"), 0, None, 0, 1, &s("seller")),
        Err(MarketplaceError::InvalidPrice)
    );
    assert_eq!(
        m.create_listing(&s("seller"), nft(1), s("XLM"), 5, None, 10001, 1, &s("seller")),
        Err(MarketplaceError::InvalidRoyalty)
    );
    assert_eq!(
        m.create_listing(&s("seller"), nft(1), s("XLM"), 5, None, 0, 1, &s("other")),
        Err(MarketplaceError::AssetNotOwned)
    );
    assert_eq!(m.buy(&s("buyer"), 1), Err(MarketplaceError::ListingNotFound));
    let id = list(&mut m, 100, None, 0);
    assert_eq!(m.buy(&s("seller"), id), Err(MarketplaceError::NotAuthorized));
    assert_eq!(m.cancel_listing(&s("buyer"), id), Err(MarketplaceError::NotAuthorized));
    m.cancel_listing(&s("seller"), id).unwrap();
    assert_eq!(m.buy(&s("buyer"), id), Err(MarketplaceError::ListingNotActive));
}

#[test]
fn split_values() {
    assert_eq!(calculate_payouts(1000, 250, 500), (925, 25, 50));
    assert_eq!(calculate_payouts(999, 250, 500), (926, 24, 49));
    assert_eq!(calculate_payouts(1, 10000, 0), (0, 1, 0));
    assert_eq!(calculate_payouts(i128::MAX, 10000, 0), (0, i128::MAX, 0));
    let (a, b, c) = calculate_payouts(i128::MAX, 333, 777);
    assert_eq!(a + b + c, i128::MAX);
}

#[test]
fn royalty_without_creator_goes_to_seller() {
    let mut m = market(250);
    let id = list(&mut m, 1000, None, 500);
    let transfers = m.buy(&s("buyer"), id).unwrap();
    assert_eq!(
        transfers,
        vec![
            pay(acct("buyer"), Party::Escrow, 1000),
            pay(Party::Escrow, acct("seller"), 975),
            pay(Party::Escrow, acct("fees"), 25),
            Transfer::AssetMove { asset: nft(7), from: Party::Escrow, to: acct("buyer") },
        ]
    );
}

#[test]
fn lower_counter_refunds_excess() {
    let mut m = market(0);
    let id = list(&mut m, 1000, None, 0);
    let (offer_id, _) = m.create_offer(&s("buyer"), id, 800, None, 20).unwrap();
    let counter_id = m.create_counter_offer(&s("seller"), offer_id, 700, Some(50), 30).unwrap();
    assert_eq!(m.get_counter_offers_by_offer(offer_id), vec![counter_id]);
    assert_eq!(m.accept_counter_offer(&s("buyer"), counter_id, 51), Err(MarketplaceError::OfferExpired));
    assert_eq!(m.accept_counter_offer(&s("seller"), counter_id, 40), Err(MarketplaceError::NotAuthorized));
    let transfers = m.accept_counter_offer(&s("buyer"), counter_id, 40).unwrap();
    assert_eq!(
        transfers,
        vec![
            pay(Party::Escrow, acct("buyer"), 100),
            pay(Party::Escrow, acct("seller"), 700),
            Transfer::AssetMove { asset: nft(7), from: Party::Escrow, to: acct("buyer") },
        ]
    );
    assert_eq!(m.accept_counter_offer(&s("buyer"), counter_id, 40), Err(MarketplaceError::OfferNotOpen));
}

#[test]
fn offer_errors_and_refunds() {
    let mut m = market(100);
    let id = list(&mut m, 1000, None, 0);
    assert_eq!(m.create_offer(&s("buyer"), 9, 10, None, 5), Err(MarketplaceError::ListingNotFound));
    assert_eq!(m.create_offer(&s("seller"), id, 10, None, 5), Err(MarketplaceError::NotAuthorized));
    assert_eq!(m.create_offer(&s("buyer"), id, 0, None, 5), Err(MarketplaceError::InvalidPrice));
    assert_eq!(m.create_offer(&s("buyer"), id, 10, Some(5), 5), Err(MarketplaceError::InvalidDuration));
    let (a, _) = m.create_offer(&s("alice"), id, 300, Some(100), 5).unwrap();
    let (b, _) = m.create_offer(&s("bob"), id, 400, None, 6).unwrap();
    assert_eq!(m.get_offers_by_listing(id), vec![a, b]);
    assert_eq!(m.accept_offer(&s("seller"), a, 101), Err(MarketplaceError::OfferExpired));
    assert_eq!(m.accept_offer(&s("bob"), b, 10), Err(MarketplaceError::NotAuthorized));
    assert_eq!(m.accept_offer(&s("seller"), 99, 10), Err(MarketplaceError::OfferNotFound));
    assert_eq!(m.reject_offer(&s("bob"), a), Err(MarketplaceError::NotAuthorized));
    assert_eq!(m.reject_offer(&s("seller"), a), Ok(vec![pay(Party::Escrow, acct("alice"), 300)]));
    assert_eq!(m.get_offer(a).unwrap().status, OfferStatus::Rejected);
    assert_eq!(m.reject_offer(&s("seller"), a), Err(MarketplaceError::OfferNotOpen));
    assert_eq!(m.cancel_offer(&s("alice"), b), Err(MarketplaceError::NotAuthorized));
    assert_eq!(m.cancel_offer(&s("bob"), b), Ok(vec![pay(Party::Escrow, acct("bob"), 400)]));
    assert_eq!(m.get_offer(b).unwrap().status, OfferStatus::Cancelled);
    assert_eq!(m.create_counter_offer(&s("seller"), b, 10, None, 7), Err(MarketplaceError::OfferNotOpen));
}

#[test]
fn counter_offer_errors() {
    let mut m = market(0);
    let id = list(&mut m, 1000, None, 0);
    let (o, _) = m.create_offer(&s("buyer"), id, 800, None, 20).unwrap();
    assert_eq!(m.create_counter_offer(&s("seller"), 5, 900, None, 30), Err(MarketplaceError::OfferNotFound));
    assert_eq!(m.create_counter_offer(&s("buyer"), o, 900, None, 30), Err(MarketplaceError::NotAuthorized));
    assert_eq!(m.create_counter_offer(&s("seller"), o, -1, None, 30), Err(MarketplaceError::InvalidPrice));
    assert_eq!(m.create_counter_offer(&s("seller"), o, 900, Some(30), 30), Err(MarketplaceError::InvalidDuration));
    assert_eq!(m.accept_counter_offer(&s("buyer"), 1, 30), Err(MarketplaceError::OfferNotFound));
    let c = m.create_counter_offer(&s("seller"), o, 900, None, 30).unwrap();
    assert_eq!(m.accept_offer(&s("seller"), o, 31), Err(MarketplaceError::OfferNotOpen));
    assert_eq!(m.cancel_offer(&s("buyer"), o), Err(MarketplaceError::OfferNotOpen));
    m.cancel_listing(&s("seller"), id).unwrap();
    assert_eq!(m.accept_counter_offer(&s("buyer"), c, 31), Err(MarketplaceError::ListingNotActive));
}

#[test]
fn cancel_listing_refunds_open_offers_only() {
    let mut m = market(0);
    let id = list(&mut m, 1000, None, 0);
    let (a, _) = m.create_offer(&s("alice"), id, 300, None, 5).unwrap();
    let (b, _) = m.create_offer(&s("bob"), id, 400, None, 6).unwrap();
    m.reject_offer(&s("seller"), a).unwrap();
    assert_eq!(m.cancel_listing(&s("seller"), 7), Err(MarketplaceError::ListingNotFound));
    let transfers = m.cancel_listing(&s("seller"), id).unwrap();
    assert_eq!(
        transfers,
        vec![
            Transfer::AssetMove { asset: nft(7), from: Party::Escrow, to: acct("seller") },
            pay(Party::Escrow, acct("bob"), 400),
        ]
    );
    assert_eq!(m.get_offer(a).unwrap().status, OfferStatus::Rejected);
    assert_eq!(m.get_offer(b).unwrap().status, OfferStatus::Cancelled);
    assert_eq!(m.get_listing(id).unwrap().status, ListingStatus::Cancelled);
    assert_eq!(m.cancel_listing(&s("seller"), id), Err(MarketplaceError::ListingNotActive));
    assert_eq!(m.create_offer(&s("carol"), id, 10, None, 9), Err(MarketplaceError::ListingNotActive));
    assert_eq!(m.accept_offer(&s("seller"), b, 9), Err(MarketplaceError::OfferNotOpen));
}

#[test]
fn configuration() {
    let mut m = MarketplaceContract::new();
    assert_eq!(m.get_config(), Err(MarketplaceError::NotInitialized));
    assert_eq!(m.update_config(&s("admin"), None, None, None, None), Err(MarketplaceError::NotInitialized));
    let id = list(&mut m, 10, None, 0);
    assert_eq!(m.buy(&s("buyer"), id), Err(MarketplaceError::NotInitialized));
    assert_eq!(m.initialize(s("admin"), s("fees"), 10001, 0, 0), Err(MarketplaceError::InvalidFee));
    m.initialize(s("admin"), s("fees"), 100, 1, 2).unwrap();
    assert_eq!(m.initialize(s("admin"), s("fees"), 100, 1, 2), Err(MarketplaceError::AlreadyInitialized));
    assert_eq!(m.update_config(&s("mallory"), None, Some(5), None, None), Err(MarketplaceError::NotAuthorized));
    assert_eq!(m.update_config(&s("admin"), None, Some(10001), None, None), Err(MarketplaceError::InvalidFee));
    m.update_config(&s("admin"), Some(s("treasury")), Some(300), None, Some(9)).unwrap();
    let c = m.get_config().unwrap();
    assert_eq!(c.admin, "admin");
    assert_eq!(c.fee_recipient, "treasury");
    assert_eq!(c.fee_bps, 300);
    assert_eq!(c.min_listing_duration, 1);
    assert_eq!(c.max_listing_duration, 9);
}

#[test]
fn indexes_follow_records() {
    let mut m = market(0);
    let a = list(&mut m, 10, None, 0);
    let (b, _) = m
        .create_listing(&s("other"), nft(8), s("XLM"), 20, None, 0, 1, &s("other"))
        .unwrap();
    let c = list(&mut m, 30, None, 0);
    assert_eq!((a, b, c), (1, 2, 3));
    assert_eq!(m.get_listings_by_seller(&s("seller")), vec![1, 3]);
    assert_eq!(m.get_listings_by_asset(&s("NFTREG"), 8), vec![2]);
    assert_eq!(m.get_active_listings(), vec![1, 2, 3]);
    m.buy(&s("buyer"), b).unwrap();
    assert_eq!(m.get_active_listings(), vec![1, 3]);
    assert_eq!(m.get_listing(4), None);
    assert_eq!(m.get_counter_offer(1), None);
}

#[test]
fn price_history_keeps_latest_hundred() {
    let mut m = market(0);
    for price in 1..=105 {
        let id = list(&mut m, price, None, 0);
        m.buy(&s("buyer"), id).unwrap();
    }
    let history = m.get_price_history(&s("NFTREG"), 7);
    assert_eq!(history.len(), 100);
    assert_eq!(history, (6..=105).collect::<Vec<i128>>());
    assert_eq!(m.get_min_price(&s("NFTREG"), 7), Some(6));
    assert_eq!(m.get_max_price(&s("NFTREG"), 7), Some(105));
    assert_eq!(m.get_average_price(&s("NFTREG"), 7), Some(55));
    assert_eq!(m.get_average_price(&s("NFTREG"), 8), None);
    assert_eq!(m.get_min_price(&s("NFTREG"), 8), None);
    assert_eq!(m.get_max_price(&s("NFTREG"), 8), None);
}

#[test]
fn average_rounds_down_without_overflow() {
    let mut m = market(0);
    for price in [i128::MAX, i128::MAX, 4] {
        let id = list(&mut m, price, None, 0);
        m.buy(&s("buyer"), id).unwrap();
    }
    let expected = (i128::MAX / 3) * 2 + (2 * (i128::MAX % 3) + 4) / 3;
    assert_eq!(m.get_average_price(&s("NFTREG"), 7), Some(expected));
}

fn escrow_net(transfers: &[Transfer]) -> i128 {
    transfers
        .iter()
        .map(|t| match t {
            Transfer::Payment { from, to, amount, .. } => {
                let into = if *to == Party::Escrow { *amount } else { 0 };
                let out = if *from == Party::Escrow { *amount } else { 0 };
                into - out
            }
            Transfer::AssetMove { .. } => 0,
        })
        .sum()
}

#[test]
fn escrow_balances_over_offer_lifetimes() {
    let mut m = market(250);
    let id = list(&mut m, 1000, Some("artist"), 500);
    let (a, in_a) = m.create_offer(&s("alice"), id, 500, None, 1).unwrap();
    let (b, in_b) = m.create_offer(&s("bob"), id, 800, None, 2).unwrap();
    let (c, in_c) = m.create_offer(&s("carol"), id, 300, None, 3).unwrap();
    assert_eq!((escrow_net(&in_a), escrow_net(&in_b), escrow_net(&in_c)), (500, 800, 300));
    let out_c = m.cancel_offer(&s("carol"), c).unwrap();
    assert_eq!(escrow_net(&out_c), -300);
    let counter = m.create_counter_offer(&s("seller"), b, 900, None, 4).unwrap();
    let settle = m.accept_counter_offer(&s("bob"), counter, 5).unwrap();
    assert_eq!(escrow_net(&settle), -800 - 500);
    assert_eq!(escrow_net(&in_a) + escrow_net(&in_b) + escrow_net(&in_c) + escrow_net(&out_c) + escrow_net(&settle), 0);
    assert_eq!(m.get_offer(a).unwrap().status, OfferStatus::Cancelled);
}
