//! The marketplace engine: listings, offers and counter-offers held in escrow.
//!
//! Every entry point takes the already authenticated principal that makes the
//! call, checks it against the role the action needs, validates the records it
//! touches, and either fails with no change at all or applies the whole change
//! and returns the value movements (`Transfer`s) that the host must carry out,
//! in order, for the operation to be complete.
use vstd::prelude::*;
use crate::price_history::{AssetPrices, PriceHistory, keep_latest, logs_wf, max_of, min_of, sum_of};
use crate::accounting::{
    escrow_net, held_total, lemma_accept_counter_net, lemma_accept_offer_net, lemma_buy_net, lemma_concat,
    lemma_held_push, lemma_held_refund, lemma_held_update, lemma_refunds, lemma_single,
};
use crate::settlement::{BPS_DENOMINATOR, calculate_payouts, payout_split};

verus! {

#[derive(Clone, Copy, Debug, PartialEq, Eq, Structural)]
pub enum AssetType {
    NFT,
    Item,
    Hint,
}

/// A tradeable item: the registry that tracks it and its id there.
#[derive(Clone, Debug, PartialEq, Eq)]
pub struct Asset {
    pub asset_type: AssetType,
    pub contract: String,
    pub token_id: u32,
}

#[derive(Clone, Copy, Debug, PartialEq, Eq, Structural)]
pub enum ListingStatus {
    Active,
    Sold,
    Cancelled,
}

#[derive(Clone, Debug, PartialEq, Eq)]
pub struct Listing {
    pub listing_id: u64,
    pub seller: String,
    pub asset: Asset,
    pub payment_token: String,
    pub price: i128,
    pub status: ListingStatus,
    pub created_time: u64,
    /// Receives the royalty; without one the royalty stays with the seller.
    pub creator: Option<String>,
    pub royalty_bps: u32,
}

#[derive(Clone, Copy, Debug, PartialEq, Eq, Structural)]
pub enum OfferStatus {
    Open,
    Accepted,
    Rejected,
    Cancelled,
    Countered,
}

#[derive(Clone, Debug, PartialEq, Eq)]
pub struct Offer {
    pub offer_id: u64,
    pub listing_id: u64,
    pub buyer: String,
    pub price: i128,
    pub status: OfferStatus,
    pub created_time: u64,
    pub expiration_time: Option<u64>,
}

#[derive(Clone, Debug, PartialEq, Eq)]
pub struct CounterOffer {
    pub counter_offer_id: u64,
    pub offer_id: u64,
    pub seller: String,
    pub price: i128,
    pub created_time: u64,
    pub expiration_time: Option<u64>,
}

#[derive(Clone, Debug, PartialEq, Eq)]
pub struct MarketplaceConfig {
    pub admin: String,
    pub fee_recipient: String,
    pub fee_bps: u32,
    pub min_listing_duration: u64,
    pub max_listing_duration: u64,
}

#[derive(Clone, Copy, Debug, PartialEq, Eq, Structural)]
pub enum MarketplaceError {
    NotInitialized,
    AlreadyInitialized,
    NotAuthorized,
    ListingNotFound,
    ListingNotActive,
    OfferNotFound,
    InvalidPrice,
    InvalidDuration,
    AssetNotOwned,
    InsufficientBalance,
    OfferExpired,
    InvalidAssetType,
    InvalidFee,
    InvalidRoyalty,
    OfferNotOpen,
}

/// One side of a value movement: the marketplace's own custody, or an account.
#[derive(Clone, Debug, PartialEq, Eq)]
pub enum Party {
    Escrow,
    Account(String),
}

/// A movement of value that the host carries out for an operation.
#[derive(Clone, Debug, PartialEq, Eq)]
pub enum Transfer {
    /// `amount` units of the fungible `token`.
    Payment { token: String, from: Party, to: Party, amount: i128 },
    /// The listed asset itself.
    AssetMove { asset: Asset, from: Party, to: Party },
}

impl Asset {
    pub fn duplicate(&self) -> (r: Asset)
        ensures
            r == *self,
    {
        Asset { asset_type: self.asset_type, contract: self.contract.clone(), token_id: self.token_id }
    }
}

fn copy_opt_string(s: &Option<String>) -> (r: Option<String>)
    ensures
        r == *s,
{
    match s {
        Some(x) => Some(x.clone()),
        None => None,
    }
}

impl Listing {
    pub fn duplicate(&self) -> (r: Listing)
        ensures
            r == *self,
    {
        Listing {
            listing_id: self.listing_id,
            seller: self.seller.clone(),
            asset: self.asset.duplicate(),
            payment_token: self.payment_token.clone(),
            price: self.price,
            status: self.status,
            created_time: self.created_time,
            creator: copy_opt_string(&self.creator),
            royalty_bps: self.royalty_bps,
        }
    }
}

impl Offer {
    pub fn duplicate(&self) -> (r: Offer)
        ensures
            r == *self,
    {
        Offer {
            offer_id: self.offer_id,
            listing_id: self.listing_id,
            buyer: self.buyer.clone(),
            price: self.price,
            status: self.status,
            created_time: self.created_time,
            expiration_time: self.expiration_time,
        }
    }
}

impl CounterOffer {
    pub fn duplicate(&self) -> (r: CounterOffer)
        ensures
            r == *self,
    {
        CounterOffer {
            counter_offer_id: self.counter_offer_id,
            offer_id: self.offer_id,
            seller: self.seller.clone(),
            price: self.price,
            created_time: self.created_time,
            expiration_time: self.expiration_time,
        }
    }
}

impl MarketplaceConfig {
    pub fn duplicate(&self) -> (r: MarketplaceConfig)
        ensures
            r == *self,
    {
        MarketplaceConfig {
            admin: self.admin.clone(),
            fee_recipient: self.fee_recipient.clone(),
            fee_bps: self.fee_bps,
            min_listing_duration: self.min_listing_duration,
            max_listing_duration: self.max_listing_duration,
        }
    }
}

/// A fungible payment of `amount` from `from` to `to`.
pub open spec fn payment(token: String, from: Party, to: Party, amount: int) -> Transfer {
    Transfer::Payment { token, from, to, amount: amount as i128 }
}

/// The legs paid out of escrow when an item sells for `price`: the seller
/// (always, and including the royalty when there is no creator to take it),
/// then the fee recipient and the creator, each only when owed something.
pub open spec fn payout_transfers(
    token: String,
    seller: String,
    fee_recipient: String,
    creator: Option<String>,
    price: int,
    fee_bps: int,
    royalty_bps: int,
) -> Seq<Transfer> {
    let (seller_amount, fee, royalty) = payout_split(price, fee_bps, royalty_bps);
    let seller_leg = if creator is Some { seller_amount } else { seller_amount + royalty };
    seq![payment(token, Party::Escrow, Party::Account(seller), seller_leg)]
        + (if fee > 0 {
        seq![payment(token, Party::Escrow, Party::Account(fee_recipient), fee)]
    } else {
        Seq::empty()
    }) + (if royalty > 0 && creator is Some {
        seq![payment(token, Party::Escrow, Party::Account(creator->0), royalty)]
    } else {
        Seq::empty()
    })
}

/// The offer after the listing's open offers were refunded: an open offer on
/// `listing_id` is cancelled, every other offer stays as it was.
pub open spec fn refunded_offer(o: Offer, listing_id: u64) -> Offer {
    if o.listing_id == listing_id && o.status == OfferStatus::Open {
        Offer { status: OfferStatus::Cancelled, ..o }
    } else {
        o
    }
}

/// The refunds, in offer order, of every open offer on `listing_id`.
pub open spec fn refund_transfers(offers: Seq<Offer>, listing_id: u64, token: String) -> Seq<Transfer>
    decreases offers.len(),
{
    if offers.len() == 0 {
        Seq::empty()
    } else {
        let o = offers.last();
        refund_transfers(offers.drop_last(), listing_id, token) + if o.listing_id == listing_id && o.status
            == OfferStatus::Open {
            seq![payment(token, Party::Escrow, Party::Account(o.buyer), o.price as int)]
        } else {
            Seq::<Transfer>::empty()
        }
    }
}

/// `new` holds `old` with `price` appended to the asset's log (then trimmed),
/// and every other asset's log as it was.
pub open spec fn records_sale(new: PriceHistory, old: PriceHistory, asset: Asset, price: i128) -> bool {
    &&& new.prices(asset.contract@, asset.token_id) == keep_latest(
        old.prices(asset.contract@, asset.token_id).push(price),
    )
    &&& forall|c: Seq<char>, t: u32|
        !(c == asset.contract@ && t == asset.token_id) ==> #[trigger] new.prices(c, t) == old.prices(c, t)
}

/// The listing once sold.
pub open spec fn sold(l: Listing) -> Listing {
    Listing { status: ListingStatus::Sold, ..l }
}

/// The offer with a new status.
pub open spec fn with_status(o: Offer, status: OfferStatus) -> Offer {
    Offer { status, ..o }
}

/// What a direct purchase moves: the price from the buyer into escrow, the
/// payouts out of it, and the asset from escrow to the buyer.
pub open spec fn buy_transfers(l: Listing, buyer: String, c: MarketplaceConfig) -> Seq<Transfer> {
    seq![payment(l.payment_token, Party::Account(buyer), Party::Escrow, l.price as int)]
        + payout_transfers(
        l.payment_token,
        l.seller,
        c.fee_recipient,
        l.creator,
        l.price as int,
        c.fee_bps as int,
        l.royalty_bps as int,
    ) + seq![Transfer::AssetMove { asset: l.asset, from: Party::Escrow, to: Party::Account(buyer) }]
}

/// The listing once cancelled.
pub open spec fn cancelled(l: Listing) -> Listing {
    Listing { status: ListingStatus::Cancelled, ..l }
}

/// What accepting an offer moves: the payouts of the offered price out of the
/// escrow the offer already funded, the asset to the buyer, then the refunds of
/// the listing's other open offers.
pub open spec fn accept_offer_transfers(
    l: Listing,
    o: Offer,
    c: MarketplaceConfig,
    offers_after: Seq<Offer>,
) -> Seq<Transfer> {
    payout_transfers(
        l.payment_token,
        l.seller,
        c.fee_recipient,
        l.creator,
        o.price as int,
        c.fee_bps as int,
        l.royalty_bps as int,
    ) + seq![Transfer::AssetMove { asset: l.asset, from: Party::Escrow, to: Party::Account(o.buyer) }]
        + refund_transfers(offers_after, o.listing_id, l.payment_token)
}

/// How the buyer settles the gap between the escrowed offer and the agreed
/// counter price: a top-up into escrow, or a refund of the excess.
pub open spec fn counter_difference(token: String, buyer: String, offer_price: int, counter_price: int) -> Seq<
    Transfer,
> {
    if counter_price > offer_price {
        seq![payment(token, Party::Account(buyer), Party::Escrow, counter_price - offer_price)]
    } else if counter_price < offer_price {
        seq![payment(token, Party::Escrow, Party::Account(buyer), offer_price - counter_price)]
    } else {
        Seq::empty()
    }
}

/// What accepting a counter-offer moves: the price difference, the payouts of
/// the counter price, the asset to the buyer, then the refunds of the
/// listing's other open offers.
pub open spec fn accept_counter_transfers(
    l: Listing,
    o: Offer,
    co: CounterOffer,
    c: MarketplaceConfig,
    offers_after: Seq<Offer>,
) -> Seq<Transfer> {
    counter_difference(l.payment_token, o.buyer, o.price as int, co.price as int) + payout_transfers(
        l.payment_token,
        co.seller,
        c.fee_recipient,
        l.creator,
        co.price as int,
        c.fee_bps as int,
        l.royalty_bps as int,
    ) + seq![Transfer::AssetMove { asset: l.asset, from: Party::Escrow, to: Party::Account(o.buyer) }]
        + refund_transfers(offers_after, o.listing_id, l.payment_token)
}

/// Which listings an index holds.
pub enum ListingQuery {
    Seller(String),
    Asset(String, u32),
    Active,
}

pub open spec fn listing_matches(l: Listing, q: ListingQuery) -> bool {
    match q {
        ListingQuery::Seller(s) => l.seller@ == s@,
        ListingQuery::Asset(c, t) => l.asset.contract@ == c@ && l.asset.token_id == t,
        ListingQuery::Active => l.status == ListingStatus::Active,
    }
}

/// Ids of the listings that match `q`, in creation order.
pub open spec fn listing_ids(ls: Seq<Listing>, q: ListingQuery) -> Seq<u64>
    decreases ls.len(),
{
    if ls.len() == 0 {
        Seq::empty()
    } else {
        listing_ids(ls.drop_last(), q) + if listing_matches(ls.last(), q) {
            seq![ls.last().listing_id]
        } else {
            Seq::<u64>::empty()
        }
    }
}

/// Ids of the offers made on `listing_id`, in creation order.
pub open spec fn offer_ids(os: Seq<Offer>, listing_id: u64) -> Seq<u64>
    decreases os.len(),
{
    if os.len() == 0 {
        Seq::empty()
    } else {
        offer_ids(os.drop_last(), listing_id) + if os.last().listing_id == listing_id {
            seq![os.last().offer_id]
        } else {
            Seq::<u64>::empty()
        }
    }
}

/// Ids of the counter-offers made on `offer_id`, in creation order.
pub open spec fn counter_offer_ids(cs: Seq<CounterOffer>, offer_id: u64) -> Seq<u64>
    decreases cs.len(),
{
    if cs.len() == 0 {
        Seq::empty()
    } else {
        counter_offer_ids(cs.drop_last(), offer_id) + if cs.last().offer_id == offer_id {
            seq![cs.last().counter_offer_id]
        } else {
            Seq::<u64>::empty()
        }
    }
}

/// Ids match positions, prices are positive, rates are within 100%, every
/// offer points at a listing and every counter-offer at an offer.
pub open spec fn records_wf(
    config: Option<MarketplaceConfig>,
    listings: Seq<Listing>,
    offers: Seq<Offer>,
    counter_offers: Seq<CounterOffer>,
) -> bool {
    &&& forall|i: int|
        0 <= i < listings.len() ==> {
            &&& (#[trigger] listings[i]).listing_id == i + 1
            &&& listings[i].price > 0
            &&& listings[i].royalty_bps <= BPS_DENOMINATOR
        }
    &&& forall|i: int|
        0 <= i < offers.len() ==> {
            &&& (#[trigger] offers[i]).offer_id == i + 1
            &&& 1 <= offers[i].listing_id <= listings.len()
            &&& offers[i].price > 0
        }
    &&& forall|i: int|
        0 <= i < counter_offers.len() ==> {
            &&& (#[trigger] counter_offers[i]).counter_offer_id == i + 1
            &&& 1 <= counter_offers[i].offer_id <= offers.len()
            &&& counter_offers[i].price > 0
        }
    &&& config matches Some(c) ==> c.fee_bps <= BPS_DENOMINATOR
}

/// The marketplace's whole stored state. Record ids are positions: listing `k`
/// is the `k`-th listing ever created, and the same holds of offers and
/// counter-offers, so ids start at 1, grow by one and are never reused.
///
/// Every entry point moves through escrow exactly the change in the total
/// price of the offers that hold funds (open or countered), so from an empty
/// marketplace on, escrow holds exactly that total: a sale passes its price
/// straight through, and nothing is kept or lost.
pub struct MarketplaceContract {
    config: Option<MarketplaceConfig>,
    listings: Vec<Listing>,
    offers: Vec<Offer>,
    counter_offers: Vec<CounterOffer>,
    history: PriceHistory,
}

impl MarketplaceContract {
    pub closed spec fn config_spec(&self) -> Option<MarketplaceConfig> {
        self.config
    }

    pub closed spec fn listings_spec(&self) -> Seq<Listing> {
        self.listings@
    }

    pub closed spec fn offers_spec(&self) -> Seq<Offer> {
        self.offers@
    }

    pub closed spec fn counter_offers_spec(&self) -> Seq<CounterOffer> {
        self.counter_offers@
    }

    pub closed spec fn history_spec(&self) -> PriceHistory {
        self.history
    }

    pub open spec fn has_listing(&self, id: u64) -> bool {
        1 <= id <= self.listings_spec().len()
    }

    pub open spec fn listing(&self, id: u64) -> Listing {
        self.listings_spec()[id - 1]
    }

    pub open spec fn has_offer(&self, id: u64) -> bool {
        1 <= id <= self.offers_spec().len()
    }

    pub open spec fn offer(&self, id: u64) -> Offer {
        self.offers_spec()[id - 1]
    }

    pub open spec fn has_counter_offer(&self, id: u64) -> bool {
        1 <= id <= self.counter_offers_spec().len()
    }

    pub open spec fn counter_offer(&self, id: u64) -> CounterOffer {
        self.counter_offers_spec()[id - 1]
    }

    /// Settled prices of an asset, oldest first.
    pub open spec fn prices(&self, contract: Seq<char>, token_id: u32) -> Seq<i128> {
        self.history_spec().prices(contract, token_id)
    }

    /// The records are well formed and the price logs bounded.
    pub closed spec fn wf(&self) -> bool {
        &&& records_wf(self.config, self.listings@, self.offers@, self.counter_offers@)
        &&& self.history.wf()
    }

    /// Everything but the configuration is unchanged.
    pub open spec fn same_records(&self, other: &Self) -> bool {
        &&& self.listings_spec() == other.listings_spec()
        &&& self.offers_spec() == other.offers_spec()
        &&& self.counter_offers_spec() == other.counter_offers_spec()
        &&& self.history_spec() == other.history_spec()
    }

    /// A marketplace with no configuration and no records.
    pub fn new() -> (r: Self)
        ensures
            r.wf(),
            r.config_spec() is None,
            r.listings_spec().len() == 0,
            r.offers_spec().len() == 0,
            r.counter_offers_spec().len() == 0,
            forall|c: Seq<char>, t: u32| r.prices(c, t) == Seq::<i128>::empty(),
    {
        MarketplaceContract {
            config: None,
            listings: Vec::new(),
            offers: Vec::new(),
            counter_offers: Vec::new(),
            history: PriceHistory::new(),
        }
    }

    /// Rebuilds a marketplace from its stored records; `None` unless they are
    /// well formed.
    pub fn from_parts(
        config: Option<MarketplaceConfig>,
        listings: Vec<Listing>,
        offers: Vec<Offer>,
        counter_offers: Vec<CounterOffer>,
        history: Vec<AssetPrices>,
    ) -> (r: Option<Self>)
        ensures
            r is Some <==> records_wf(config, listings@, offers@, counter_offers@) && logs_wf(history@),
            r matches Some(m) ==> {
                &&& m.wf()
                &&& m.config_spec() == config
                &&& m.listings_spec() == listings@
                &&& m.offers_spec() == offers@
                &&& m.counter_offers_spec() == counter_offers@
                &&& m.history_spec().records_spec() == history@
            },
    {
        if let Some(c) = &config {
            if c.fee_bps > BPS_DENOMINATOR {
                return None;
            }
        }
        let mut i: usize = 0;
        while i < listings.len()
            invariant
                i <= listings@.len(),
                forall|j: int|
                    0 <= j < i ==> {
                        &&& (#[trigger] listings@[j]).listing_id == j + 1
                        &&& listings@[j].price > 0
                        &&& listings@[j].royalty_bps <= BPS_DENOMINATOR
                    },
            decreases listings@.len() - i,
        {
            let l = &listings[i];
            if l.listing_id != i as u64 + 1 || l.price <= 0 || l.royalty_bps > BPS_DENOMINATOR {
                assert(!records_wf(config, listings@, offers@, counter_offers@)) by {
                    assert(listings@[i as int] == *l);
                }
                return None;
            }
            i = i + 1;
        }
        let mut i: usize = 0;
        while i < offers.len()
            invariant
                i <= offers@.len(),
                forall|j: int|
                    0 <= j < i ==> {
                        &&& (#[trigger] offers@[j]).offer_id == j + 1
                        &&& 1 <= offers@[j].listing_id <= listings@.len()
                        &&& offers@[j].price > 0
                    },
            decreases offers@.len() - i,
        {
            let o = &offers[i];
            if o.offer_id != i as u64 + 1 || o.listing_id == 0 || o.listing_id > listings.len() as u64 || o.price
                <= 0 {
                assert(!records_wf(config, listings@, offers@, counter_offers@)) by {
                    assert(offers@[i as int] == *o);
                }
                return None;
            }
            i = i + 1;
        }
        let mut i: usize = 0;
        while i < counter_offers.len()
            invariant
                i <= counter_offers@.len(),
                forall|j: int|
                    0 <= j < i ==> {
                        &&& (#[trigger] counter_offers@[j]).counter_offer_id == j + 1
                        &&& 1 <= counter_offers@[j].offer_id <= offers@.len()
                        &&& counter_offers@[j].price > 0
                    },
            decreases counter_offers@.len() - i,
        {
            let c = &counter_offers[i];
            if c.counter_offer_id != i as u64 + 1 || c.offer_id == 0 || c.offer_id > offers.len() as u64 || c.price
                <= 0 {
                assert(!records_wf(config, listings@, offers@, counter_offers@)) by {
                    assert(counter_offers@[i as int] == *c);
                }
                return None;
            }
            i = i + 1;
        }
        match PriceHistory::from_records(history) {
            None => None,
            Some(h) => Some(MarketplaceContract { config, listings, offers, counter_offers, history: h }),
        }
    }

    /// The stored records, for the host to persist.
    pub fn into_parts(self) -> (r: (
        Option<MarketplaceConfig>,
        Vec<Listing>,
        Vec<Offer>,
        Vec<CounterOffer>,
        Vec<AssetPrices>,
    ))
        ensures
            r.0 == self.config_spec(),
            r.1@ == self.listings_spec(),
            r.2@ == self.offers_spec(),
            r.3@ == self.counter_offers_spec(),
            r.4@ == self.history_spec().records_spec(),
    {
        (self.config, self.listings, self.offers, self.counter_offers, self.history.into_records())
    }

    /// Stores the configuration. Fails with `AlreadyInitialized` once a
    /// configuration exists and with `InvalidFee` when `fee_bps > 10000`.
    /// Record counters start from the records already present, so an id is
    /// never handed out twice.
    pub fn initialize(
        &mut self,
        admin: String,
        fee_recipient: String,
        fee_bps: u32,
        min_listing_duration: u64,
        max_listing_duration: u64,
    ) -> (r: Result<(), MarketplaceError>)
        requires
            old(self).wf(),
        ensures
            final(self).wf(),
            final(self).same_records(old(self)),
            r == if old(self).config_spec() is Some {
                Err::<(), MarketplaceError>(MarketplaceError::AlreadyInitialized)
            } else if fee_bps > BPS_DENOMINATOR {
                Err(MarketplaceError::InvalidFee)
            } else {
                Ok(())
            },
            r is Ok ==> final(self).config_spec() == Some(
                MarketplaceConfig { admin, fee_recipient, fee_bps, min_listing_duration, max_listing_duration },
            ),
            r is Err ==> final(self).config_spec() == old(self).config_spec(),
    {
        if self.config.is_some() {
            return Err(MarketplaceError::AlreadyInitialized);
        }
        if fee_bps > BPS_DENOMINATOR {
            return Err(MarketplaceError::InvalidFee);
        }
        self.config = Some(
            MarketplaceConfig { admin, fee_recipient, fee_bps, min_listing_duration, max_listing_duration },
        );
        Ok(())
    }

    /// The admin's update of the configuration: each `Some` replaces its field.
    pub open spec fn updated_config(
        c: MarketplaceConfig,
        fee_recipient: Option<String>,
        fee_bps: Option<u32>,
        min_listing_duration: Option<u64>,
        max_listing_duration: Option<u64>,
    ) -> MarketplaceConfig {
        MarketplaceConfig {
            admin: c.admin,
            fee_recipient: match fee_recipient {
                Some(x) => x,
                None => c.fee_recipient,
            },
            fee_bps: match fee_bps {
                Some(x) => x,
                None => c.fee_bps,
            },
            min_listing_duration: match min_listing_duration {
                Some(x) => x,
                None => c.min_listing_duration,
            },
            max_listing_duration: match max_listing_duration {
                Some(x) => x,
                None => c.max_listing_duration,
            },
        }
    }

    /// Changes the configuration on behalf of `caller`, who must be the admin.
    pub fn update_config(
        &mut self,
        caller: &String,
        fee_recipient: Option<String>,
        fee_bps: Option<u32>,
        min_listing_duration: Option<u64>,
        max_listing_duration: Option<u64>,
    ) -> (r: Result<(), MarketplaceError>)
        requires
            old(self).wf(),
        ensures
            final(self).wf(),
            final(self).same_records(old(self)),
            r == match old(self).config_spec() {
                None => Err::<(), MarketplaceError>(MarketplaceError::NotInitialized),
                Some(c) => if c.admin@ != caller@ {
                    Err(MarketplaceError::NotAuthorized)
                } else if fee_bps matches Some(b) && b > BPS_DENOMINATOR {
                    Err(MarketplaceError::InvalidFee)
                } else {
                    Ok(())
                },
            },
            r is Ok ==> final(self).config_spec() == Some(
                Self::updated_config(
                    old(self).config_spec()->0,
                    fee_recipient,
                    fee_bps,
                    min_listing_duration,
                    max_listing_duration,
                ),
            ),
            r is Err ==> final(self).config_spec() == old(self).config_spec(),
    {
        let config = match &self.config {
            None => return Err(MarketplaceError::NotInitialized),
            Some(c) => c.duplicate(),
        };
        if config.admin != *caller {
            return Err(MarketplaceError::NotAuthorized);
        }
        if let Some(b) = fee_bps {
            if b > BPS_DENOMINATOR {
                return Err(MarketplaceError::InvalidFee);
            }
        }
        let mut new_config = config;
        if let Some(recipient) = fee_recipient {
            new_config.fee_recipient = recipient;
        }
        if let Some(b) = fee_bps {
            new_config.fee_bps = b;
        }
        if let Some(min) = min_listing_duration {
            new_config.min_listing_duration = min;
        }
        if let Some(max) = max_listing_duration {
            new_config.max_listing_duration = max;
        }
        self.config = Some(new_config);
        Ok(())
    }

    /// Why `create_listing` refuses, if it does.
    pub open spec fn create_listing_failure(
        seller: Seq<char>,
        price: i128,
        royalty_bps: u32,
        asset_owner: Seq<char>,
    ) -> Option<MarketplaceError> {
        if price <= 0 {
            Some(MarketplaceError::InvalidPrice)
        } else if royalty_bps > BPS_DENOMINATOR {
            Some(MarketplaceError::InvalidRoyalty)
        } else if asset_owner != seller {
            Some(MarketplaceError::AssetNotOwned)
        } else {
            None
        }
    }

    /// Lists `asset` for `price` on behalf of `seller`. `asset_owner` is the
    /// owner that the asset's registry reports, `now` the current time. On
    /// success the new listing is Active under the next id, and the asset is to
    /// move from the seller into escrow.
    pub fn create_listing(
        &mut self,
        seller: &String,
        asset: Asset,
        payment_token: String,
        price: i128,
        creator: Option<String>,
        royalty_bps: u32,
        now: u64,
        asset_owner: &String,
    ) -> (r: Result<(u64, Vec<Transfer>), MarketplaceError>)
        requires
            old(self).wf(),
            old(self).listings_spec().len() < u64::MAX,
        ensures
            final(self).wf(),
            final(self).config_spec() == old(self).config_spec(),
            final(self).offers_spec() == old(self).offers_spec(),
            final(self).counter_offers_spec() == old(self).counter_offers_spec(),
            final(self).history_spec() == old(self).history_spec(),
            match r {
                Err(e) => {
                    &&& Self::create_listing_failure(seller@, price, royalty_bps, asset_owner@) == Some(e)
                    &&& final(self).listings_spec() == old(self).listings_spec()
                },
                Ok((id, transfers)) => {
                    &&& Self::create_listing_failure(seller@, price, royalty_bps, asset_owner@) is None
                    &&& escrow_net(transfers@) == held_total(final(self).offers_spec()) - held_total(
                        old(self).offers_spec(),
                    )
                    &&& id == old(self).listings_spec().len() + 1
                    &&& final(self).listings_spec() == old(self).listings_spec().push(
                        Listing {
                            listing_id: id,
                            seller: *seller,
                            asset,
                            payment_token,
                            price,
                            status: ListingStatus::Active,
                            created_time: now,
                            creator,
                            royalty_bps,
                        },
                    )
                    &&& transfers@ == seq![
                        Transfer::AssetMove { asset, from: Party::Account(*seller), to: Party::Escrow },
                    ]
                },
            },
    {
        if price <= 0 {
            return Err(MarketplaceError::InvalidPrice);
        }
        if royalty_bps > BPS_DENOMINATOR {
            return Err(MarketplaceError::InvalidRoyalty);
        }
        if *asset_owner != *seller {
            return Err(MarketplaceError::AssetNotOwned);
        }
        let listing_id = self.listings.len() as u64 + 1;
        let mut transfers: Vec<Transfer> = Vec::new();
        transfers.push(
            Transfer::AssetMove { asset: asset.duplicate(), from: Party::Account(seller.clone()), to: Party::Escrow },
        );
        let listing = Listing {
            listing_id,
            seller: seller.clone(),
            asset,
            payment_token,
            price,
            status: ListingStatus::Active,
            created_time: now,
            creator,
            royalty_bps,
        };
        self.listings.push(listing);
        proof {
            assert(transfers@ =~= seq![transfers@[0]]);
            lemma_single(transfers@[0], *seller);
        }
        Ok((listing_id, transfers))
    }

    /// Appends to `transfers` the payout legs of a sale at `price`.
    fn push_payouts(
        transfers: &mut Vec<Transfer>,
        token: &String,
        seller: &String,
        fee_recipient: &String,
        creator: &Option<String>,
        price: i128,
        fee_bps: u32,
        royalty_bps: u32,
    )
        requires
            price > 0,
            fee_bps <= BPS_DENOMINATOR,
            royalty_bps <= BPS_DENOMINATOR,
        ensures
            final(transfers)@ == old(transfers)@ + payout_transfers(
                *token,
                *seller,
                *fee_recipient,
                *creator,
                price as int,
                fee_bps as int,
                royalty_bps as int,
            ),
    {
        let (seller_amount, fee_amount, royalty_amount) = calculate_payouts(price, fee_bps, royalty_bps);
        proof {
            crate::settlement::lemma_payouts_sum_to_price(price as int, fee_bps as int, royalty_bps as int);
        }
        let ghost start = transfers@;
        let seller_leg = if creator.is_some() {
            seller_amount
        } else {
            seller_amount + royalty_amount
        };
        transfers.push(
            Transfer::Payment {
                token: token.clone(),
                from: Party::Escrow,
                to: Party::Account(seller.clone()),
                amount: seller_leg,
            },
        );
        if fee_amount > 0 {
            transfers.push(
                Transfer::Payment {
                    token: token.clone(),
                    from: Party::Escrow,
                    to: Party::Account(fee_recipient.clone()),
                    amount: fee_amount,
                },
            );
        }
        if royalty_amount > 0 {
            if let Some(c) = creator {
                transfers.push(
                    Transfer::Payment {
                        token: token.clone(),
                        from: Party::Escrow,
                        to: Party::Account(c.clone()),
                        amount: royalty_amount,
                    },
                );
            }
        }
        proof {
            assert(transfers@ =~= start + payout_transfers(
                *token,
                *seller,
                *fee_recipient,
                *creator,
                price as int,
                fee_bps as int,
                royalty_bps as int,
            ));
        }
    }

    /// Refunds every open offer on `listing_id` and marks it cancelled; other
    /// offers are left untouched.
    fn refund_open_offers(&mut self, listing_id: u64, token: &String, transfers: &mut Vec<Transfer>)
        requires
            old(self).wf(),
        ensures
            final(self).wf(),
            final(self).config_spec() == old(self).config_spec(),
            final(self).listings_spec() == old(self).listings_spec(),
            final(self).counter_offers_spec() == old(self).counter_offers_spec(),
            final(self).history_spec() == old(self).history_spec(),
            final(self).offers_spec() == old(self).offers_spec().map_values(
                |o: Offer| refunded_offer(o, listing_id),
            ),
            final(transfers)@ == old(transfers)@ + refund_transfers(old(self).offers_spec(), listing_id, *token),
    {
        let ghost old_offers = self.offers@;
        let ghost start = transfers@;
        let n = self.offers.len();
        let mut i: usize = 0;
        proof {
            assert(old_offers.take(0) =~= Seq::<Offer>::empty());
            assert(start + refund_transfers(old_offers.take(0), listing_id, *token) =~= start);
        }
        while i < n
            invariant
                self.wf(),
                n == old_offers.len(),
                i <= n,
                self.offers@.len() == n,
                self.config == old(self).config,
                self.listings@ == old(self).listings@,
                self.counter_offers@ == old(self).counter_offers@,
                self.history == old(self).history,
                forall|j: int|
                    0 <= j < n ==> #[trigger] self.offers@[j] == if j < i {
                        refunded_offer(old_offers[j], listing_id)
                    } else {
                        old_offers[j]
                    },
                transfers@ == start + refund_transfers(old_offers.take(i as int), listing_id, *token),
            decreases n - i,
        {
            proof {
                assert(old_offers.take(i + 1).drop_last() =~= old_offers.take(i as int));
                assert(old_offers.take(i + 1).last() == old_offers[i as int]);
            }
            if self.offers[i].listing_id == listing_id && self.offers[i].status == OfferStatus::Open {
                let mut o = self.offers[i].duplicate();
                transfers.push(
                    Transfer::Payment {
                        token: token.clone(),
                        from: Party::Escrow,
                        to: Party::Account(o.buyer.clone()),
                        amount: o.price,
                    },
                );
                o.status = OfferStatus::Cancelled;
                self.offers.set(i, o);
                proof {
                    assert(transfers@ =~= start + refund_transfers(old_offers.take(i + 1), listing_id, *token));
                }
            } else {
                proof {
                    assert(transfers@ =~= start + refund_transfers(old_offers.take(i + 1), listing_id, *token));
                }
            }
            i = i + 1;
        }
        proof {
            assert(old_offers.take(n as int) =~= old_offers);
            assert(self.offers@ =~= old_offers.map_values(|o: Offer| refunded_offer(o, listing_id)));
        }
    }

    /// Why `buy` refuses, if it does.
    pub open spec fn buy_failure(&self, buyer: Seq<char>, listing_id: u64) -> Option<MarketplaceError> {
        if !self.has_listing(listing_id) {
            Some(MarketplaceError::ListingNotFound)
        } else if self.listing(listing_id).status != ListingStatus::Active {
            Some(MarketplaceError::ListingNotActive)
        } else if self.listing(listing_id).seller@ == buyer {
            Some(MarketplaceError::NotAuthorized)
        } else if self.config_spec() is None {
            Some(MarketplaceError::NotInitialized)
        } else {
            None
        }
    }

    /// Sells an active listing to `buyer` at its price: the buyer pays into
    /// escrow, the seller, the fee recipient and the creator are paid out of it,
    /// the asset goes to the buyer, the listing is Sold and the price is logged.
    pub fn buy(&mut self, buyer: &String, listing_id: u64) -> (r: Result<Vec<Transfer>, MarketplaceError>)
        requires
            old(self).wf(),
        ensures
            final(self).wf(),
            final(self).config_spec() == old(self).config_spec(),
            final(self).offers_spec() == old(self).offers_spec(),
            final(self).counter_offers_spec() == old(self).counter_offers_spec(),
            match r {
                Err(e) => {
                    &&& old(self).buy_failure(buyer@, listing_id) == Some(e)
                    &&& final(self).listings_spec() == old(self).listings_spec()
                    &&& final(self).history_spec() == old(self).history_spec()
                },
                Ok(transfers) => {
                    let l = old(self).listing(listing_id);
                    &&& old(self).buy_failure(buyer@, listing_id) is None
                    &&& escrow_net(transfers@) == held_total(final(self).offers_spec()) - held_total(
                        old(self).offers_spec(),
                    )
                    &&& final(self).listings_spec() == old(self).listings_spec().update(listing_id - 1, sold(l))
                    &&& transfers@ == buy_transfers(l, *buyer, old(self).config_spec()->0)
                    &&& records_sale(final(self).history_spec(), old(self).history_spec(), l.asset, l.price)
                },
            },
    {
        if listing_id == 0 || listing_id > self.listings.len() as u64 {
            return Err(MarketplaceError::ListingNotFound);
        }
        let idx = (listing_id - 1) as usize;
        let listing = self.listings[idx].duplicate();
        if listing.status != ListingStatus::Active {
            return Err(MarketplaceError::ListingNotActive);
        }
        if listing.seller == *buyer {
            return Err(MarketplaceError::NotAuthorized);
        }
        let config = match &self.config {
            None => return Err(MarketplaceError::NotInitialized),
            Some(c) => c.duplicate(),
        };
        let mut transfers: Vec<Transfer> = Vec::new();
        transfers.push(
            Transfer::Payment {
                token: listing.payment_token.clone(),
                from: Party::Account(buyer.clone()),
                to: Party::Escrow,
                amount: listing.price,
            },
        );
        Self::push_payouts(
            &mut transfers,
            &listing.payment_token,
            &listing.seller,
            &config.fee_recipient,
            &listing.creator,
            listing.price,
            config.fee_bps,
            listing.royalty_bps,
        );
        transfers.push(
            Transfer::AssetMove { asset: listing.asset.duplicate(), from: Party::Escrow, to: Party::Account(buyer.clone()) },
        );
        let mut updated = listing.duplicate();
        updated.status = ListingStatus::Sold;
        self.listings.set(idx, updated);
        self.history.record_price(&listing.asset.contract, listing.asset.token_id, listing.price);
        proof {
            assert(transfers@ =~= buy_transfers(listing, *buyer, config));
            assert forall|i: int| 0 <= i < self.listings@.len() implies {
                &&& (#[trigger] self.listings@[i]).listing_id == i + 1
                &&& self.listings@[i].price > 0
                &&& self.listings@[i].royalty_bps <= BPS_DENOMINATOR
            } by {
                if i != idx {
                    assert(self.listings@[i] == old(self).listings@[i]);
                }
            }
            assert(old(self).listings@[idx as int] == listing);
            lemma_buy_net(listing, *buyer, config);
        }
        Ok(transfers)
    }

    /// Position of listing `id` in the listing records.
    fn listing_index(&self, id: u64) -> (r: usize)
        requires
            1 <= id <= self.listings_spec().len(),
        ensures
            r == id - 1,
    {
        let n = self.listings.len();
        assert(id - 1 < n);
        (id - 1) as usize
    }

    /// Why `create_offer` refuses, if it does.
    pub open spec fn create_offer_failure(
        &self,
        buyer: Seq<char>,
        listing_id: u64,
        price: i128,
        expiration_time: Option<u64>,
        now: u64,
    ) -> Option<MarketplaceError> {
        if !self.has_listing(listing_id) {
            Some(MarketplaceError::ListingNotFound)
        } else if self.listing(listing_id).status != ListingStatus::Active {
            Some(MarketplaceError::ListingNotActive)
        } else if self.listing(listing_id).seller@ == buyer {
            Some(MarketplaceError::NotAuthorized)
        } else if price <= 0 {
            Some(MarketplaceError::InvalidPrice)
        } else if expiration_time matches Some(exp) && exp <= now {
            Some(MarketplaceError::InvalidDuration)
        } else {
            None
        }
    }

    /// Places an offer of `price` on an active listing. The offered funds move
    /// from the buyer into escrow at once, so every open offer is funded.
    pub fn create_offer(
        &mut self,
        buyer: &String,
        listing_id: u64,
        price: i128,
        expiration_time: Option<u64>,
        now: u64,
    ) -> (r: Result<(u64, Vec<Transfer>), MarketplaceError>)
        requires
            old(self).wf(),
            old(self).offers_spec().len() < u64::MAX,
        ensures
            final(self).wf(),
            final(self).config_spec() == old(self).config_spec(),
            final(self).listings_spec() == old(self).listings_spec(),
            final(self).counter_offers_spec() == old(self).counter_offers_spec(),
            final(self).history_spec() == old(self).history_spec(),
            match r {
                Err(e) => {
                    &&& old(self).create_offer_failure(buyer@, listing_id, price, expiration_time, now) == Some(e)
                    &&& final(self).offers_spec() == old(self).offers_spec()
                },
                Ok((id, transfers)) => {
                    &&& old(self).create_offer_failure(buyer@, listing_id, price, expiration_time, now) is None
                    &&& escrow_net(transfers@) == held_total(final(self).offers_spec()) - held_total(
                        old(self).offers_spec(),
                    )
                    &&& id == old(self).offers_spec().len() + 1
                    &&& final(self).offers_spec() == old(self).offers_spec().push(
                        Offer {
                            offer_id: id,
                            listing_id,
                            buyer: *buyer,
                            price,
                            status: OfferStatus::Open,
                            created_time: now,
                            expiration_time,
                        },
                    )
                    &&& transfers@ == seq![
                        payment(
                            old(self).listing(listing_id).payment_token,
                            Party::Account(*buyer),
                            Party::Escrow,
                            price as int,
                        ),
                    ]
                },
            },
    {
        if listing_id == 0 || listing_id > self.listings.len() as u64 {
            return Err(MarketplaceError::ListingNotFound);
        }
        let idx = (listing_id - 1) as usize;
        if self.listings[idx].status != ListingStatus::Active {
            return Err(MarketplaceError::ListingNotActive);
        }
        if self.listings[idx].seller == *buyer {
            return Err(MarketplaceError::NotAuthorized);
        }
        if price <= 0 {
            return Err(MarketplaceError::InvalidPrice);
        }
        if let Some(exp) = expiration_time {
            if exp <= now {
                return Err(MarketplaceError::InvalidDuration);
            }
        }
        let offer_id = self.offers.len() as u64 + 1;
        let mut transfers: Vec<Transfer> = Vec::new();
        transfers.push(
            Transfer::Payment {
                token: self.listings[idx].payment_token.clone(),
                from: Party::Account(buyer.clone()),
                to: Party::Escrow,
                amount: price,
            },
        );
        self.offers.push(
            Offer {
                offer_id,
                listing_id,
                buyer: buyer.clone(),
                price,
                status: OfferStatus::Open,
                created_time: now,
                expiration_time,
            },
        );
        proof {
            assert(transfers@ =~= seq![transfers@[0]]);
            assert forall|i: int| 0 <= i < self.offers@.len() implies {
                &&& (#[trigger] self.offers@[i]).offer_id == i + 1
                &&& 1 <= self.offers@[i].listing_id <= self.listings@.len()
                &&& self.offers@[i].price > 0
            } by {
                if i < old(self).offers@.len() {
                    assert(self.offers@[i] == old(self).offers@[i]);
                }
            }
            assert forall|i: int| 0 <= i < self.counter_offers@.len() implies {
                &&& (#[trigger] self.counter_offers@[i]).counter_offer_id == i + 1
                &&& 1 <= self.counter_offers@[i].offer_id <= self.offers@.len()
                &&& self.counter_offers@[i].price > 0
            } by {
                assert(self.counter_offers@[i] == old(self).counter_offers@[i]);
            }
            lemma_single(transfers@[0], *buyer);
            lemma_held_push(old(self).offers@, self.offers@.last());
            assert(self.offers@ =~= old(self).offers@.push(self.offers@.last()));
        }
        Ok((offer_id, transfers))
    }

    /// Replaces offer `idx` by a copy with another status; the state stays well formed.
    fn set_offer_status(&mut self, idx: usize, status: OfferStatus)
        requires
            old(self).wf(),
            idx < old(self).offers_spec().len(),
        ensures
            final(self).wf(),
            final(self).config_spec() == old(self).config_spec(),
            final(self).listings_spec() == old(self).listings_spec(),
            final(self).counter_offers_spec() == old(self).counter_offers_spec(),
            final(self).history_spec() == old(self).history_spec(),
            final(self).offers_spec() == old(self).offers_spec().update(
                idx as int,
                with_status(old(self).offers_spec()[idx as int], status),
            ),
    {
        let mut o = self.offers[idx].duplicate();
        o.status = status;
        self.offers.set(idx, o);
        proof {
            assert forall|i: int| 0 <= i < self.offers@.len() implies {
                &&& (#[trigger] self.offers@[i]).offer_id == i + 1
                &&& 1 <= self.offers@[i].listing_id <= self.listings@.len()
                &&& self.offers@[i].price > 0
            } by {
                if i != idx {
                    assert(self.offers@[i] == old(self).offers@[i]);
                }
            }
        }
    }

    /// Replaces listing `idx` by a copy with another status; the state stays well formed.
    fn set_listing_status(&mut self, idx: usize, status: ListingStatus)
        requires
            old(self).wf(),
            idx < old(self).listings_spec().len(),
        ensures
            final(self).wf(),
            final(self).config_spec() == old(self).config_spec(),
            final(self).offers_spec() == old(self).offers_spec(),
            final(self).counter_offers_spec() == old(self).counter_offers_spec(),
            final(self).history_spec() == old(self).history_spec(),
            final(self).listings_spec() == old(self).listings_spec().update(
                idx as int,
                Listing { status, ..old(self).listings_spec()[idx as int] },
            ),
    {
        let mut l = self.listings[idx].duplicate();
        l.status = status;
        self.listings.set(idx, l);
        proof {
            assert forall|i: int| 0 <= i < self.listings@.len() implies {
                &&& (#[trigger] self.listings@[i]).listing_id == i + 1
                &&& self.listings@[i].price > 0
                &&& self.listings@[i].royalty_bps <= BPS_DENOMINATOR
            } by {
                if i != idx {
                    assert(self.listings@[i] == old(self).listings@[i]);
                }
            }
        }
    }

    /// Why `accept_offer` refuses, if it does.
    pub open spec fn accept_offer_failure(&self, seller: Seq<char>, offer_id: u64, now: u64) -> Option<
        MarketplaceError,
    > {
        if !self.has_offer(offer_id) {
            Some(MarketplaceError::OfferNotFound)
        } else if self.offer(offer_id).status != OfferStatus::Open {
            Some(MarketplaceError::OfferNotOpen)
        } else if self.offer(offer_id).expiration_time matches Some(exp) && now > exp {
            Some(MarketplaceError::OfferExpired)
        } else if self.listing(self.offer(offer_id).listing_id).seller@ != seller {
            Some(MarketplaceError::NotAuthorized)
        } else if self.listing(self.offer(offer_id).listing_id).status != ListingStatus::Active {
            Some(MarketplaceError::ListingNotActive)
        } else if self.config_spec() is None {
            Some(MarketplaceError::NotInitialized)
        } else {
            None
        }
    }

    /// The seller accepts an open offer: the escrowed offer is paid out, the
    /// asset goes to the buyer, the offer is Accepted, the listing Sold, every
    /// other open offer on the listing is refunded and cancelled, and the price
    /// is logged.
    pub fn accept_offer(&mut self, seller: &String, offer_id: u64, now: u64) -> (r: Result<
        Vec<Transfer>,
        MarketplaceError,
    >)
        requires
            old(self).wf(),
        ensures
            final(self).wf(),
            final(self).config_spec() == old(self).config_spec(),
            final(self).counter_offers_spec() == old(self).counter_offers_spec(),
            match r {
                Err(e) => {
                    &&& old(self).accept_offer_failure(seller@, offer_id, now) == Some(e)
                    &&& final(self).listings_spec() == old(self).listings_spec()
                    &&& final(self).offers_spec() == old(self).offers_spec()
                    &&& final(self).history_spec() == old(self).history_spec()
                },
                Ok(transfers) => {
                    let o = old(self).offer(offer_id);
                    let l = old(self).listing(o.listing_id);
                    let accepted = old(self).offers_spec().update(
                        offer_id - 1,
                        with_status(o, OfferStatus::Accepted),
                    );
                    &&& old(self).accept_offer_failure(seller@, offer_id, now) is None
                    &&& escrow_net(transfers@) == held_total(final(self).offers_spec()) - held_total(
                        old(self).offers_spec(),
                    )
                    &&& final(self).listings_spec() == old(self).listings_spec().update(o.listing_id - 1, sold(l))
                    &&& final(self).offers_spec() == accepted.map_values(
                        |x: Offer| refunded_offer(x, o.listing_id),
                    )
                    &&& transfers@ == accept_offer_transfers(l, o, old(self).config_spec()->0, accepted)
                    &&& records_sale(final(self).history_spec(), old(self).history_spec(), l.asset, o.price)
                },
            },
    {
        if offer_id == 0 || offer_id > self.offers.len() as u64 {
            return Err(MarketplaceError::OfferNotFound);
        }
        let oidx = (offer_id - 1) as usize;
        let offer = self.offers[oidx].duplicate();
        if offer.status != OfferStatus::Open {
            return Err(MarketplaceError::OfferNotOpen);
        }
        if let Some(exp) = offer.expiration_time {
            if now > exp {
                return Err(MarketplaceError::OfferExpired);
            }
        }
        assert(1 <= self.offers@[oidx as int].listing_id <= self.listings@.len());
        let lidx = self.listing_index(offer.listing_id);
        let listing = self.listings[lidx].duplicate();
        if listing.seller != *seller {
            return Err(MarketplaceError::NotAuthorized);
        }
        if listing.status != ListingStatus::Active {
            return Err(MarketplaceError::ListingNotActive);
        }
        let config = match &self.config {
            None => return Err(MarketplaceError::NotInitialized),
            Some(c) => c.duplicate(),
        };
        let mut transfers: Vec<Transfer> = Vec::new();
        Self::push_payouts(
            &mut transfers,
            &listing.payment_token,
            &listing.seller,
            &config.fee_recipient,
            &listing.creator,
            offer.price,
            config.fee_bps,
            listing.royalty_bps,
        );
        transfers.push(
            Transfer::AssetMove {
                asset: listing.asset.duplicate(),
                from: Party::Escrow,
                to: Party::Account(offer.buyer.clone()),
            },
        );
        self.set_offer_status(oidx, OfferStatus::Accepted);
        let ghost accepted = self.offers@;
        self.set_listing_status(lidx, ListingStatus::Sold);
        self.refund_open_offers(offer.listing_id, &listing.payment_token, &mut transfers);
        self.history.record_price(&listing.asset.contract, listing.asset.token_id, offer.price);
        proof {
            assert(transfers@ =~= accept_offer_transfers(listing, offer, config, accepted));
            assert(old(self).listings@[lidx as int] == listing);
            assert forall|i: int| 0 <= i < accepted.len() implies (#[trigger] accepted[i]).price > 0 by {
                if i != oidx {
                    assert(accepted[i] == old(self).offers@[i]);
                }
            }
            lemma_accept_offer_net(listing, offer, config, accepted);
            lemma_held_update(old(self).offers@, oidx as int, with_status(offer, OfferStatus::Accepted));
            lemma_held_refund(accepted, offer.listing_id);
        }
        Ok(transfers)
    }

    /// Why `reject_offer` refuses, if it does.
    pub open spec fn reject_offer_failure(&self, seller: Seq<char>, offer_id: u64) -> Option<MarketplaceError> {
        if !self.has_offer(offer_id) {
            Some(MarketplaceError::OfferNotFound)
        } else if self.offer(offer_id).status != OfferStatus::Open {
            Some(MarketplaceError::OfferNotOpen)
        } else if self.listing(self.offer(offer_id).listing_id).seller@ != seller {
            Some(MarketplaceError::NotAuthorized)
        } else {
            None
        }
    }

    /// The seller turns down an open offer: its escrow goes back to the buyer
    /// in full and the offer is Rejected. The listing stays as it is.
    pub fn reject_offer(&mut self, seller: &String, offer_id: u64) -> (r: Result<Vec<Transfer>, MarketplaceError>)
        requires
            old(self).wf(),
        ensures
            final(self).wf(),
            final(self).config_spec() == old(self).config_spec(),
            final(self).listings_spec() == old(self).listings_spec(),
            final(self).counter_offers_spec() == old(self).counter_offers_spec(),
            final(self).history_spec() == old(self).history_spec(),
            match r {
                Err(e) => {
                    &&& old(self).reject_offer_failure(seller@, offer_id) == Some(e)
                    &&& final(self).offers_spec() == old(self).offers_spec()
                },
                Ok(transfers) => {
                    let o = old(self).offer(offer_id);
                    &&& old(self).reject_offer_failure(seller@, offer_id) is None
                    &&& escrow_net(transfers@) == held_total(final(self).offers_spec()) - held_total(
                        old(self).offers_spec(),
                    )
                    &&& final(self).offers_spec() == old(self).offers_spec().update(
                        offer_id - 1,
                        with_status(o, OfferStatus::Rejected),
                    )
                    &&& transfers@ == seq![
                        payment(
                            old(self).listing(o.listing_id).payment_token,
                            Party::Escrow,
                            Party::Account(o.buyer),
                            o.price as int,
                        ),
                    ]
                },
            },
    {
        if offer_id == 0 || offer_id > self.offers.len() as u64 {
            return Err(MarketplaceError::OfferNotFound);
        }
        let oidx = (offer_id - 1) as usize;
        let offer = self.offers[oidx].duplicate();
        if offer.status != OfferStatus::Open {
            return Err(MarketplaceError::OfferNotOpen);
        }
        assert(1 <= self.offers@[oidx as int].listing_id <= self.listings@.len());
        let lidx = self.listing_index(offer.listing_id);
        if self.listings[lidx].seller != *seller {
            return Err(MarketplaceError::NotAuthorized);
        }
        let mut transfers: Vec<Transfer> = Vec::new();
        transfers.push(
            Transfer::Payment {
                token: self.listings[lidx].payment_token.clone(),
                from: Party::Escrow,
                to: Party::Account(offer.buyer.clone()),
                amount: offer.price,
            },
        );
        self.set_offer_status(oidx, OfferStatus::Rejected);
        proof {
            assert(transfers@ =~= seq![transfers@[0]]);
            lemma_single(transfers@[0], offer.buyer);
            lemma_held_update(old(self).offers@, oidx as int, with_status(offer, OfferStatus::Rejected));
        }
        Ok(transfers)
    }

    /// Why `cancel_offer` refuses, if it does.
    pub open spec fn cancel_offer_failure(&self, buyer: Seq<char>, offer_id: u64) -> Option<MarketplaceError> {
        if !self.has_offer(offer_id) {
            Some(MarketplaceError::OfferNotFound)
        } else if self.offer(offer_id).buyer@ != buyer {
            Some(MarketplaceError::NotAuthorized)
        } else if self.offer(offer_id).status != OfferStatus::Open {
            Some(MarketplaceError::OfferNotOpen)
        } else {
            None
        }
    }

    /// The buyer withdraws an open offer: its escrow comes back in full and
    /// the offer is Cancelled.
    pub fn cancel_offer(&mut self, buyer: &String, offer_id: u64) -> (r: Result<Vec<Transfer>, MarketplaceError>)
        requires
            old(self).wf(),
        ensures
            final(self).wf(),
            final(self).config_spec() == old(self).config_spec(),
            final(self).listings_spec() == old(self).listings_spec(),
            final(self).counter_offers_spec() == old(self).counter_offers_spec(),
            final(self).history_spec() == old(self).history_spec(),
            match r {
                Err(e) => {
                    &&& old(self).cancel_offer_failure(buyer@, offer_id) == Some(e)
                    &&& final(self).offers_spec() == old(self).offers_spec()
                },
                Ok(transfers) => {
                    let o = old(self).offer(offer_id);
                    &&& old(self).cancel_offer_failure(buyer@, offer_id) is None
                    &&& escrow_net(transfers@) == held_total(final(self).offers_spec()) - held_total(
                        old(self).offers_spec(),
                    )
                    &&& final(self).offers_spec() == old(self).offers_spec().update(
                        offer_id - 1,
                        with_status(o, OfferStatus::Cancelled),
                    )
                    &&& transfers@ == seq![
                        payment(
                            old(self).listing(o.listing_id).payment_token,
                            Party::Escrow,
                            Party::Account(o.buyer),
                            o.price as int,
                        ),
                    ]
                },
            },
    {
        if offer_id == 0 || offer_id > self.offers.len() as u64 {
            return Err(MarketplaceError::OfferNotFound);
        }
        let oidx = (offer_id - 1) as usize;
        let offer = self.offers[oidx].duplicate();
        if offer.buyer != *buyer {
            return Err(MarketplaceError::NotAuthorized);
        }
        if offer.status != OfferStatus::Open {
            return Err(MarketplaceError::OfferNotOpen);
        }
        assert(1 <= self.offers@[oidx as int].listing_id <= self.listings@.len());
        let lidx = self.listing_index(offer.listing_id);
        let mut transfers: Vec<Transfer> = Vec::new();
        transfers.push(
            Transfer::Payment {
                token: self.listings[lidx].payment_token.clone(),
                from: Party::Escrow,
                to: Party::Account(offer.buyer.clone()),
                amount: offer.price,
            },
        );
        self.set_offer_status(oidx, OfferStatus::Cancelled);
        proof {
            assert(transfers@ =~= seq![transfers@[0]]);
            lemma_single(transfers@[0], offer.buyer);
            lemma_held_update(old(self).offers@, oidx as int, with_status(offer, OfferStatus::Cancelled));
        }
        Ok(transfers)
    }

    /// Why `create_counter_offer` refuses, if it does.
    pub open spec fn create_counter_offer_failure(
        &self,
        seller: Seq<char>,
        offer_id: u64,
        price: i128,
        expiration_time: Option<u64>,
        now: u64,
    ) -> Option<MarketplaceError> {
        if !self.has_offer(offer_id) {
            Some(MarketplaceError::OfferNotFound)
        } else if self.offer(offer_id).status != OfferStatus::Open {
            Some(MarketplaceError::OfferNotOpen)
        } else if self.listing(self.offer(offer_id).listing_id).seller@ != seller {
            Some(MarketplaceError::NotAuthorized)
        } else if price <= 0 {
            Some(MarketplaceError::InvalidPrice)
        } else if expiration_time matches Some(exp) && exp <= now {
            Some(MarketplaceError::InvalidDuration)
        } else {
            None
        }
    }

    /// The seller answers an open offer with another price. The counter-offer
    /// gets the next id and the offer becomes Countered: from then on it can
    /// only be settled by the buyer accepting the counter-offer.
    pub fn create_counter_offer(
        &mut self,
        seller: &String,
        offer_id: u64,
        price: i128,
        expiration_time: Option<u64>,
        now: u64,
    ) -> (r: Result<u64, MarketplaceError>)
        requires
            old(self).wf(),
            old(self).counter_offers_spec().len() < u64::MAX,
        ensures
            final(self).wf(),
            final(self).config_spec() == old(self).config_spec(),
            final(self).listings_spec() == old(self).listings_spec(),
            final(self).history_spec() == old(self).history_spec(),
            held_total(final(self).offers_spec()) == held_total(old(self).offers_spec()),
            match r {
                Err(e) => {
                    &&& old(self).create_counter_offer_failure(seller@, offer_id, price, expiration_time, now)
                        == Some(e)
                    &&& final(self).offers_spec() == old(self).offers_spec()
                    &&& final(self).counter_offers_spec() == old(self).counter_offers_spec()
                },
                Ok(id) => {
                    &&& old(self).create_counter_offer_failure(seller@, offer_id, price, expiration_time, now)
                        is None
                    &&& id == old(self).counter_offers_spec().len() + 1
                    &&& final(self).counter_offers_spec() == old(self).counter_offers_spec().push(
                        CounterOffer {
                            counter_offer_id: id,
                            offer_id,
                            seller: *seller,
                            price,
                            created_time: now,
                            expiration_time,
                        },
                    )
                    &&& final(self).offers_spec() == old(self).offers_spec().update(
                        offer_id - 1,
                        with_status(old(self).offer(offer_id), OfferStatus::Countered),
                    )
                },
            },
    {
        if offer_id == 0 || offer_id > self.offers.len() as u64 {
            return Err(MarketplaceError::OfferNotFound);
        }
        let oidx = (offer_id - 1) as usize;
        if self.offers[oidx].status != OfferStatus::Open {
            return Err(MarketplaceError::OfferNotOpen);
        }
        assert(1 <= self.offers@[oidx as int].listing_id <= self.listings@.len());
        let lidx = self.listing_index(self.offers[oidx].listing_id);
        if self.listings[lidx].seller != *seller {
            return Err(MarketplaceError::NotAuthorized);
        }
        if price <= 0 {
            return Err(MarketplaceError::InvalidPrice);
        }
        if let Some(exp) = expiration_time {
            if exp <= now {
                return Err(MarketplaceError::InvalidDuration);
            }
        }
        let counter_offer_id = self.counter_offers.len() as u64 + 1;
        self.counter_offers.push(
            CounterOffer {
                counter_offer_id,
                offer_id,
                seller: seller.clone(),
                price,
                created_time: now,
                expiration_time,
            },
        );
        proof {
            assert forall|i: int| 0 <= i < self.counter_offers@.len() implies {
                &&& (#[trigger] self.counter_offers@[i]).counter_offer_id == i + 1
                &&& 1 <= self.counter_offers@[i].offer_id <= self.offers@.len()
                &&& self.counter_offers@[i].price > 0
            } by {
                if i < old(self).counter_offers@.len() {
                    assert(self.counter_offers@[i] == old(self).counter_offers@[i]);
                }
            }
        }
        self.set_offer_status(oidx, OfferStatus::Countered);
        proof {
            lemma_held_update(
                old(self).offers@,
                oidx as int,
                with_status(old(self).offers@[oidx as int], OfferStatus::Countered),
            );
        }
        Ok(counter_offer_id)
    }

    /// Why `accept_counter_offer` refuses, if it does.
    pub open spec fn accept_counter_offer_failure(&self, buyer: Seq<char>, counter_offer_id: u64, now: u64) -> Option<
        MarketplaceError,
    > {
        if !self.has_counter_offer(counter_offer_id) {
            Some(MarketplaceError::OfferNotFound)
        } else {
            let co = self.counter_offer(counter_offer_id);
            let o = self.offer(co.offer_id);
            if o.buyer@ != buyer {
                Some(MarketplaceError::NotAuthorized)
            } else if o.status != OfferStatus::Countered {
                Some(MarketplaceError::OfferNotOpen)
            } else if co.expiration_time matches Some(exp) && now > exp {
                Some(MarketplaceError::OfferExpired)
            } else if self.listing(o.listing_id).status != ListingStatus::Active {
                Some(MarketplaceError::ListingNotActive)
            } else if self.config_spec() is None {
                Some(MarketplaceError::NotInitialized)
            } else {
                None
            }
        }
    }

    /// The buyer accepts the seller's counter-offer. The escrowed offer is
    /// applied to the counter price: the buyer tops up the shortfall or gets
    /// the excess back, so exactly the counter price is settled. Then the
    /// counter price is paid out, the asset goes to the buyer, the offer is
    /// Accepted, the listing Sold, the listing's other open offers are refunded
    /// and cancelled, and the counter price is logged.
    pub fn accept_counter_offer(&mut self, buyer: &String, counter_offer_id: u64, now: u64) -> (r: Result<
        Vec<Transfer>,
        MarketplaceError,
    >)
        requires
            old(self).wf(),
        ensures
            final(self).wf(),
            final(self).config_spec() == old(self).config_spec(),
            final(self).counter_offers_spec() == old(self).counter_offers_spec(),
            match r {
                Err(e) => {
                    &&& old(self).accept_counter_offer_failure(buyer@, counter_offer_id, now) == Some(e)
                    &&& final(self).listings_spec() == old(self).listings_spec()
                    &&& final(self).offers_spec() == old(self).offers_spec()
                    &&& final(self).history_spec() == old(self).history_spec()
                },
                Ok(transfers) => {
                    let co = old(self).counter_offer(counter_offer_id);
                    let o = old(self).offer(co.offer_id);
                    let l = old(self).listing(o.listing_id);
                    let accepted = old(self).offers_spec().update(
                        co.offer_id - 1,
                        with_status(o, OfferStatus::Accepted),
                    );
                    &&& old(self).accept_counter_offer_failure(buyer@, counter_offer_id, now) is None
                    &&& escrow_net(transfers@) == held_total(final(self).offers_spec()) - held_total(
                        old(self).offers_spec(),
                    )
                    &&& final(self).listings_spec() == old(self).listings_spec().update(o.listing_id - 1, sold(l))
                    &&& final(self).offers_spec() == accepted.map_values(
                        |x: Offer| refunded_offer(x, o.listing_id),
                    )
                    &&& transfers@ == accept_counter_transfers(l, o, co, old(self).config_spec()->0, accepted)
                    &&& records_sale(final(self).history_spec(), old(self).history_spec(), l.asset, co.price)
                },
            },
    {
        if counter_offer_id == 0 || counter_offer_id > self.counter_offers.len() as u64 {
            return Err(MarketplaceError::OfferNotFound);
        }
        let cidx = (counter_offer_id - 1) as usize;
        let counter = self.counter_offers[cidx].duplicate();
        assert(1 <= self.counter_offers@[cidx as int].offer_id <= self.offers@.len());
        let oidx = self.offer_index(counter.offer_id);
        let offer = self.offers[oidx].duplicate();
        if offer.buyer != *buyer {
            return Err(MarketplaceError::NotAuthorized);
        }
        if offer.status != OfferStatus::Countered {
            return Err(MarketplaceError::OfferNotOpen);
        }
        if let Some(exp) = counter.expiration_time {
            if now > exp {
                return Err(MarketplaceError::OfferExpired);
            }
        }
        assert(1 <= self.offers@[oidx as int].listing_id <= self.listings@.len());
        let lidx = self.listing_index(offer.listing_id);
        let listing = self.listings[lidx].duplicate();
        if listing.status != ListingStatus::Active {
            return Err(MarketplaceError::ListingNotActive);
        }
        let config = match &self.config {
            None => return Err(MarketplaceError::NotInitialized),
            Some(c) => c.duplicate(),
        };
        let mut transfers: Vec<Transfer> = Vec::new();
        if counter.price > offer.price {
            transfers.push(
                Transfer::Payment {
                    token: listing.payment_token.clone(),
                    from: Party::Account(offer.buyer.clone()),
                    to: Party::Escrow,
                    amount: counter.price - offer.price,
                },
            );
        } else if counter.price < offer.price {
            transfers.push(
                Transfer::Payment {
                    token: listing.payment_token.clone(),
                    from: Party::Escrow,
                    to: Party::Account(offer.buyer.clone()),
                    amount: offer.price - counter.price,
                },
            );
        }
        let ghost difference = transfers@;
        proof {
            assert(difference =~= counter_difference(
                listing.payment_token,
                offer.buyer,
                offer.price as int,
                counter.price as int,
            ));
        }
        Self::push_payouts(
            &mut transfers,
            &listing.payment_token,
            &counter.seller,
            &config.fee_recipient,
            &listing.creator,
            counter.price,
            config.fee_bps,
            listing.royalty_bps,
        );
        transfers.push(
            Transfer::AssetMove {
                asset: listing.asset.duplicate(),
                from: Party::Escrow,
                to: Party::Account(offer.buyer.clone()),
            },
        );
        self.set_offer_status(oidx, OfferStatus::Accepted);
        let ghost accepted = self.offers@;
        self.set_listing_status(lidx, ListingStatus::Sold);
        self.refund_open_offers(offer.listing_id, &listing.payment_token, &mut transfers);
        self.history.record_price(&listing.asset.contract, listing.asset.token_id, counter.price);
        proof {
            assert(transfers@ =~= accept_counter_transfers(listing, offer, counter, config, accepted));
            assert(old(self).listings@[lidx as int] == listing);
            assert(old(self).counter_offers@[cidx as int] == counter);
            assert forall|i: int| 0 <= i < accepted.len() implies (#[trigger] accepted[i]).price > 0 by {
                if i != oidx {
                    assert(accepted[i] == old(self).offers@[i]);
                }
            }
            lemma_accept_counter_net(listing, offer, counter, config, accepted);
            lemma_held_update(old(self).offers@, oidx as int, with_status(offer, OfferStatus::Accepted));
            lemma_held_refund(accepted, offer.listing_id);
        }
        Ok(transfers)
    }

    /// Position of offer `id` in the offer records.
    fn offer_index(&self, id: u64) -> (r: usize)
        requires
            1 <= id <= self.offers_spec().len(),
        ensures
            r == id - 1,
    {
        let n = self.offers.len();
        assert(id - 1 < n);
        (id - 1) as usize
    }

    /// Why `cancel_listing` refuses, if it does.
    pub open spec fn cancel_listing_failure(&self, seller: Seq<char>, listing_id: u64) -> Option<MarketplaceError> {
        if !self.has_listing(listing_id) {
            Some(MarketplaceError::ListingNotFound)
        } else if self.listing(listing_id).seller@ != seller {
            Some(MarketplaceError::NotAuthorized)
        } else if self.listing(listing_id).status != ListingStatus::Active {
            Some(MarketplaceError::ListingNotActive)
        } else {
            None
        }
    }

    /// The seller withdraws an active listing: the asset leaves escrow back to
    /// the seller, every open offer on it is refunded and cancelled, and the
    /// listing is Cancelled.
    pub fn cancel_listing(&mut self, seller: &String, listing_id: u64) -> (r: Result<Vec<Transfer>, MarketplaceError>)
        requires
            old(self).wf(),
        ensures
            final(self).wf(),
            final(self).config_spec() == old(self).config_spec(),
            final(self).counter_offers_spec() == old(self).counter_offers_spec(),
            final(self).history_spec() == old(self).history_spec(),
            match r {
                Err(e) => {
                    &&& old(self).cancel_listing_failure(seller@, listing_id) == Some(e)
                    &&& final(self).listings_spec() == old(self).listings_spec()
                    &&& final(self).offers_spec() == old(self).offers_spec()
                },
                Ok(transfers) => {
                    let l = old(self).listing(listing_id);
                    &&& old(self).cancel_listing_failure(seller@, listing_id) is None
                    &&& escrow_net(transfers@) == held_total(final(self).offers_spec()) - held_total(
                        old(self).offers_spec(),
                    )
                    &&& final(self).listings_spec() == old(self).listings_spec().update(
                        listing_id - 1,
                        cancelled(l),
                    )
                    &&& final(self).offers_spec() == old(self).offers_spec().map_values(
                        |x: Offer| refunded_offer(x, listing_id),
                    )
                    &&& transfers@ == seq![
                        Transfer::AssetMove { asset: l.asset, from: Party::Escrow, to: Party::Account(l.seller) },
                    ] + refund_transfers(old(self).offers_spec(), listing_id, l.payment_token)
                },
            },
    {
        if listing_id == 0 || listing_id > self.listings.len() as u64 {
            return Err(MarketplaceError::ListingNotFound);
        }
        let idx = (listing_id - 1) as usize;
        let listing = self.listings[idx].duplicate();
        if listing.seller != *seller {
            return Err(MarketplaceError::NotAuthorized);
        }
        if listing.status != ListingStatus::Active {
            return Err(MarketplaceError::ListingNotActive);
        }
        let mut transfers: Vec<Transfer> = Vec::new();
        transfers.push(
            Transfer::AssetMove {
                asset: listing.asset.duplicate(),
                from: Party::Escrow,
                to: Party::Account(listing.seller.clone()),
            },
        );
        let ghost first = transfers@;
        self.refund_open_offers(listing_id, &listing.payment_token, &mut transfers);
        self.set_listing_status(idx, ListingStatus::Cancelled);
        proof {
            assert(first =~= seq![first[0]]);
            lemma_single(first[0], listing.seller);
            lemma_refunds(old(self).offers@, listing_id, listing.payment_token, listing.seller);
            lemma_concat(first, refund_transfers(old(self).offers@, listing_id, listing.payment_token), listing.seller);
            lemma_held_refund(old(self).offers@, listing_id);
        }
        Ok(transfers)
    }

    fn listing_ids_matching(&self, q: &ListingQuery) -> (r: Vec<u64>)
        ensures
            r@ == listing_ids(self.listings_spec(), *q),
    {
        let mut r: Vec<u64> = Vec::new();
        let mut i: usize = 0;
        proof {
            assert(self.listings@.take(0) =~= Seq::<Listing>::empty());
        }
        while i < self.listings.len()
            invariant
                i <= self.listings@.len(),
                r@ == listing_ids(self.listings@.take(i as int), *q),
            decreases self.listings@.len() - i,
        {
            proof {
                assert(self.listings@.take(i + 1).drop_last() =~= self.listings@.take(i as int));
                assert(self.listings@.take(i + 1).last() == self.listings@[i as int]);
            }
            let l = &self.listings[i];
            let hit = match q {
                ListingQuery::Seller(s) => l.seller == *s,
                ListingQuery::Asset(c, t) => l.asset.contract == *c && l.asset.token_id == *t,
                ListingQuery::Active => l.status == ListingStatus::Active,
            };
            if hit {
                r.push(l.listing_id);
            }
            proof {
                assert(r@ =~= listing_ids(self.listings@.take(i + 1), *q));
            }
            i = i + 1;
        }
        proof {
            assert(self.listings@.take(i as int) =~= self.listings@);
        }
        r
    }

    /// Ids of the listings created by `seller`, oldest first.
    pub fn get_listings_by_seller(&self, seller: &String) -> (r: Vec<u64>)
        ensures
            r@ == listing_ids(self.listings_spec(), ListingQuery::Seller(*seller)),
    {
        self.listing_ids_matching(&ListingQuery::Seller(seller.clone()))
    }

    /// Ids of the listings of one asset, oldest first.
    pub fn get_listings_by_asset(&self, contract: &String, token_id: u32) -> (r: Vec<u64>)
        ensures
            r@ == listing_ids(self.listings_spec(), ListingQuery::Asset(*contract, token_id)),
    {
        self.listing_ids_matching(&ListingQuery::Asset(contract.clone(), token_id))
    }

    /// Ids of the listings that are still Active, oldest first.
    pub fn get_active_listings(&self) -> (r: Vec<u64>)
        ensures
            r@ == listing_ids(self.listings_spec(), ListingQuery::Active),
    {
        self.listing_ids_matching(&ListingQuery::Active)
    }

    /// Ids of the offers made on a listing, oldest first.
    pub fn get_offers_by_listing(&self, listing_id: u64) -> (r: Vec<u64>)
        ensures
            r@ == offer_ids(self.offers_spec(), listing_id),
    {
        let mut r: Vec<u64> = Vec::new();
        let mut i: usize = 0;
        proof {
            assert(self.offers@.take(0) =~= Seq::<Offer>::empty());
        }
        while i < self.offers.len()
            invariant
                i <= self.offers@.len(),
                r@ == offer_ids(self.offers@.take(i as int), listing_id),
            decreases self.offers@.len() - i,
        {
            proof {
                assert(self.offers@.take(i + 1).drop_last() =~= self.offers@.take(i as int));
                assert(self.offers@.take(i + 1).last() == self.offers@[i as int]);
            }
            if self.offers[i].listing_id == listing_id {
                r.push(self.offers[i].offer_id);
            }
            proof {
                assert(r@ =~= offer_ids(self.offers@.take(i + 1), listing_id));
            }
            i = i + 1;
        }
        proof {
            assert(self.offers@.take(i as int) =~= self.offers@);
        }
        r
    }

    /// Ids of the counter-offers made on an offer, oldest first.
    pub fn get_counter_offers_by_offer(&self, offer_id: u64) -> (r: Vec<u64>)
        ensures
            r@ == counter_offer_ids(self.counter_offers_spec(), offer_id),
    {
        let mut r: Vec<u64> = Vec::new();
        let mut i: usize = 0;
        proof {
            assert(self.counter_offers@.take(0) =~= Seq::<CounterOffer>::empty());
        }
        while i < self.counter_offers.len()
            invariant
                i <= self.counter_offers@.len(),
                r@ == counter_offer_ids(self.counter_offers@.take(i as int), offer_id),
            decreases self.counter_offers@.len() - i,
        {
            proof {
                assert(self.counter_offers@.take(i + 1).drop_last() =~= self.counter_offers@.take(i as int));
                assert(self.counter_offers@.take(i + 1).last() == self.counter_offers@[i as int]);
            }
            if self.counter_offers[i].offer_id == offer_id {
                r.push(self.counter_offers[i].counter_offer_id);
            }
            proof {
                assert(r@ =~= counter_offer_ids(self.counter_offers@.take(i + 1), offer_id));
            }
            i = i + 1;
        }
        proof {
            assert(self.counter_offers@.take(i as int) =~= self.counter_offers@);
        }
        r
    }

    /// The listing with this id, if there is one.
    pub fn get_listing(&self, listing_id: u64) -> (r: Option<Listing>)
        ensures
            r == if self.has_listing(listing_id) {
                Some(self.listing(listing_id))
            } else {
                None
            },
    {
        if listing_id == 0 || listing_id > self.listings.len() as u64 {
            None
        } else {
            Some(self.listings[(listing_id - 1) as usize].duplicate())
        }
    }

    /// The offer with this id, if there is one.
    pub fn get_offer(&self, offer_id: u64) -> (r: Option<Offer>)
        ensures
            r == if self.has_offer(offer_id) {
                Some(self.offer(offer_id))
            } else {
                None
            },
    {
        if offer_id == 0 || offer_id > self.offers.len() as u64 {
            None
        } else {
            Some(self.offers[(offer_id - 1) as usize].duplicate())
        }
    }

    /// The counter-offer with this id, if there is one.
    pub fn get_counter_offer(&self, counter_offer_id: u64) -> (r: Option<CounterOffer>)
        ensures
            r == if self.has_counter_offer(counter_offer_id) {
                Some(self.counter_offer(counter_offer_id))
            } else {
                None
            },
    {
        if counter_offer_id == 0 || counter_offer_id > self.counter_offers.len() as u64 {
            None
        } else {
            Some(self.counter_offers[(counter_offer_id - 1) as usize].duplicate())
        }
    }

    /// The configuration, or `NotInitialized` before `initialize`.
    pub fn get_config(&self) -> (r: Result<MarketplaceConfig, MarketplaceError>)
        ensures
            r == match self.config_spec() {
                Some(c) => Ok::<MarketplaceConfig, MarketplaceError>(c),
                None => Err(MarketplaceError::NotInitialized),
            },
    {
        match &self.config {
            Some(c) => Ok(c.duplicate()),
            None => Err(MarketplaceError::NotInitialized),
        }
    }

    /// Settled prices of one asset, oldest first; at most the latest 100.
    pub fn get_price_history(&self, contract: &String, token_id: u32) -> (r: Vec<i128>)
        ensures
            r@ == self.prices(contract@, token_id),
    {
        self.history.get(contract, token_id)
    }

    /// Mean settled price of an asset, rounded down; `None` if it never sold.
    pub fn get_average_price(&self, contract: &String, token_id: u32) -> (r: Option<i128>)
        requires
            self.wf(),
        ensures
            ({
                let s = self.prices(contract@, token_id);
                r == if s.len() == 0 { None } else { Some((sum_of(s) / (s.len() as int)) as i128) }
            }),
    {
        self.history.average_price(contract, token_id)
    }

    /// Lowest settled price of an asset; `None` if it never sold.
    pub fn get_min_price(&self, contract: &String, token_id: u32) -> (r: Option<i128>)
        ensures
            ({
                let s = self.prices(contract@, token_id);
                r == if s.len() == 0 { None } else { Some(min_of(s)) }
            }),
    {
        self.history.min_price(contract, token_id)
    }

    /// Highest settled price of an asset; `None` if it never sold.
    pub fn get_max_price(&self, contract: &String, token_id: u32) -> (r: Option<i128>)
        ensures
            ({
                let s = self.prices(contract@, token_id);
                r == if s.len() == 0 { None } else { Some(max_of(s)) }
            }),
    {
        self.history.max_price(contract, token_id)
    }

    /// Number of listings ever created.
    pub fn listing_count(&self) -> (r: u64)
        ensures
            r == self.listings_spec().len(),
    {
        self.listings.len() as u64
    }

    /// Number of offers ever made.
    pub fn offer_count(&self) -> (r: u64)
        ensures
            r == self.offers_spec().len(),
    {
        self.offers.len() as u64
    }

    /// Number of counter-offers ever made.
    pub fn counter_offer_count(&self) -> (r: u64)
        ensures
            r == self.counter_offers_spec().len(),
    {
        self.counter_offers.len() as u64
    }
}

} // verus!
