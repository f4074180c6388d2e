//! Escrow accounting over the transfers that the marketplace hands out: what
//! each settlement brings into or takes out of escrow, and where the listed
//! asset goes.
use vstd::prelude::*;
use crate::marketplace::{
    CounterOffer, Listing, MarketplaceConfig, Offer, OfferStatus, Party, Transfer,
    accept_counter_transfers, accept_offer_transfers, buy_transfers, counter_difference, payment,
    payout_transfers, refund_transfers, refunded_offer,
};
use crate::settlement::{BPS_DENOMINATOR, lemma_payouts_sum_to_price};

verus! {

/// What one transfer adds to the escrow's balance of funds.
pub open spec fn transfer_net(t: Transfer) -> int {
    match t {
        Transfer::Payment { from, to, amount, .. } => (if to is Escrow {
            amount as int
        } else {
            0
        }) - (if from is Escrow {
            amount as int
        } else {
            0
        }),
        Transfer::AssetMove { .. } => 0,
    }
}

/// What a sequence of transfers adds to the escrow's balance of funds.
pub open spec fn escrow_net(ts: Seq<Transfer>) -> int
    decreases ts.len(),
{
    if ts.len() == 0 {
        0
    } else {
        escrow_net(ts.drop_last()) + transfer_net(ts.last())
    }
}

/// What one transfer costs the account `who`.
pub open spec fn transfer_cost(t: Transfer, who: String) -> int {
    match t {
        Transfer::Payment { from, to, amount, .. } => (if from == Party::Account(who) {
            amount as int
        } else {
            0
        }) - (if to == Party::Account(who) {
            amount as int
        } else {
            0
        }),
        Transfer::AssetMove { .. } => 0,
    }
}

/// What a sequence of transfers costs the account `who`, net of what it receives.
pub open spec fn account_cost(ts: Seq<Transfer>, who: String) -> int
    decreases ts.len(),
{
    if ts.len() == 0 {
        0
    } else {
        account_cost(ts.drop_last(), who) + transfer_cost(ts.last(), who)
    }
}

/// The movements of assets among `ts`, in order.
pub open spec fn asset_moves(ts: Seq<Transfer>) -> Seq<Transfer>
    decreases ts.len(),
{
    if ts.len() == 0 {
        Seq::empty()
    } else {
        asset_moves(ts.drop_last()) + if ts.last() is AssetMove {
            seq![ts.last()]
        } else {
            Seq::<Transfer>::empty()
        }
    }
}

/// Sum of the prices of the open offers on `listing_id`.
pub open spec fn open_offer_total(offers: Seq<Offer>, listing_id: u64) -> int
    decreases offers.len(),
{
    if offers.len() == 0 {
        0
    } else {
        open_offer_total(offers.drop_last(), listing_id) + if offers.last().listing_id == listing_id
            && offers.last().status == OfferStatus::Open {
            offers.last().price as int
        } else {
            0
        }
    }
}

/// Whether an offer's price is still held in escrow: open offers, and
/// countered ones until their counter-offer is accepted.
pub open spec fn holds_funds(o: Offer) -> bool {
    o.status == OfferStatus::Open || o.status == OfferStatus::Countered
}

pub open spec fn held_by(o: Offer) -> int {
    if holds_funds(o) { o.price as int } else { 0 }
}

/// The funds escrow holds for offers: the prices of the offers that hold funds.
pub open spec fn held_total(offers: Seq<Offer>) -> int
    decreases offers.len(),
{
    if offers.len() == 0 {
        0
    } else {
        held_total(offers.drop_last()) + held_by(offers.last())
    }
}

pub(crate) proof fn lemma_held_push(offers: Seq<Offer>, o: Offer)
    ensures
        held_total(offers.push(o)) == held_total(offers) + held_by(o),
{
    assert(offers.push(o).drop_last() =~= offers);
}

pub(crate) proof fn lemma_held_update(offers: Seq<Offer>, i: int, o: Offer)
    requires
        0 <= i < offers.len(),
    ensures
        held_total(offers.update(i, o)) == held_total(offers) - held_by(offers[i]) + held_by(o),
    decreases offers.len(),
{
    if i == offers.len() - 1 {
        assert(offers.update(i, o).drop_last() =~= offers.drop_last());
    } else {
        assert(offers.update(i, o).drop_last() =~= offers.drop_last().update(i, o));
        lemma_held_update(offers.drop_last(), i, o);
    }
}

pub(crate) proof fn lemma_held_refund(offers: Seq<Offer>, listing_id: u64)
    ensures
        held_total(offers.map_values(|o: Offer| refunded_offer(o, listing_id))) == held_total(offers)
            - open_offer_total(offers, listing_id),
    decreases offers.len(),
{
    if offers.len() > 0 {
        assert(offers.map_values(|o: Offer| refunded_offer(o, listing_id)).drop_last() =~= offers.drop_last().map_values(
            |o: Offer| refunded_offer(o, listing_id),
        ));
        lemma_held_refund(offers.drop_last(), listing_id);
    }
}

pub(crate) proof fn lemma_concat(a: Seq<Transfer>, b: Seq<Transfer>, who: String)
    ensures
        escrow_net(a + b) == escrow_net(a) + escrow_net(b),
        account_cost(a + b, who) == account_cost(a, who) + account_cost(b, who),
        asset_moves(a + b) == asset_moves(a) + asset_moves(b),
    decreases b.len(),
{
    if b.len() == 0 {
        assert(a + b =~= a);
        assert(escrow_net(b) == 0);
        assert(account_cost(b, who) == 0);
        assert(asset_moves(a) + asset_moves(b) =~= asset_moves(a));
    } else {
        assert((a + b).drop_last() =~= a + b.drop_last());
        assert((a + b).last() == b.last());
        lemma_concat(a, b.drop_last(), who);
        assert(escrow_net(a + b) == escrow_net(a + b.drop_last()) + transfer_net(b.last()));
        assert(escrow_net(b) == escrow_net(b.drop_last()) + transfer_net(b.last()));
        assert(account_cost(a + b, who) == account_cost(a + b.drop_last(), who) + transfer_cost(b.last(), who));
        assert(account_cost(b, who) == account_cost(b.drop_last(), who) + transfer_cost(b.last(), who));
        assert(asset_moves(a + b) =~= asset_moves(a) + asset_moves(b));
    }
}

pub(crate) proof fn lemma_single(t: Transfer, who: String)
    ensures
        escrow_net(seq![t]) == transfer_net(t),
        account_cost(seq![t], who) == transfer_cost(t, who),
        asset_moves(seq![t]) == if t is AssetMove { seq![t] } else { Seq::<Transfer>::empty() },
{
    let e = Seq::<Transfer>::empty();
    assert(seq![t].drop_last() =~= e);
    assert(seq![t].last() == t);
    assert(escrow_net(e) == 0);
    assert(account_cost(e, who) == 0);
    assert(asset_moves(e) == e);
    assert(Seq::<Transfer>::empty() + seq![t] =~= seq![t]);
    assert(Seq::<Transfer>::empty() + Seq::<Transfer>::empty() =~= Seq::<Transfer>::empty());
}

pub(crate) proof fn lemma_payouts(
    token: String,
    seller: String,
    fee_recipient: String,
    creator: Option<String>,
    price: int,
    fee_bps: int,
    royalty_bps: int,
    who: String,
)
    requires
        0 < price <= i128::MAX,
        0 <= fee_bps <= BPS_DENOMINATOR,
        0 <= royalty_bps <= BPS_DENOMINATOR,
    ensures
        escrow_net(payout_transfers(token, seller, fee_recipient, creator, price, fee_bps, royalty_bps))
            == -price,
        asset_moves(payout_transfers(token, seller, fee_recipient, creator, price, fee_bps, royalty_bps))
            == Seq::<Transfer>::empty(),
{
    lemma_payouts_sum_to_price(price, fee_bps, royalty_bps);
    let (s, f, r) = crate::settlement::payout_split(price, fee_bps, royalty_bps);
    let seller_leg = if creator is Some { s } else { s + r };
    let a = seq![payment(token, Party::Escrow, Party::Account(seller), seller_leg)];
    let b = if f > 0 {
        seq![payment(token, Party::Escrow, Party::Account(fee_recipient), f)]
    } else {
        Seq::empty()
    };
    let c = if r > 0 && creator is Some {
        seq![payment(token, Party::Escrow, Party::Account(creator->0), r)]
    } else {
        Seq::empty()
    };
    lemma_single(a[0], who);
    lemma_concat(a, b, who);
    lemma_concat(a + b, c, who);
    if f > 0 {
        lemma_single(b[0], who);
    }
    if r > 0 && creator is Some {
        lemma_single(c[0], who);
    }
}

pub(crate) proof fn lemma_refunds(offers: Seq<Offer>, listing_id: u64, token: String, who: String)
    requires
        forall|i: int| 0 <= i < offers.len() ==> (#[trigger] offers[i]).price > 0,
    ensures
        escrow_net(refund_transfers(offers, listing_id, token)) == -open_offer_total(offers, listing_id),
        asset_moves(refund_transfers(offers, listing_id, token)) == Seq::<Transfer>::empty(),
    decreases offers.len(),
{
    if offers.len() > 0 {
        let o = offers.last();
        assert(o == offers[offers.len() - 1]);
        lemma_refunds(offers.drop_last(), listing_id, token, who);
        let tail = if o.listing_id == listing_id && o.status == OfferStatus::Open {
            seq![payment(token, Party::Escrow, Party::Account(o.buyer), o.price as int)]
        } else {
            Seq::<Transfer>::empty()
        };
        lemma_concat(refund_transfers(offers.drop_last(), listing_id, token), tail, who);
        if o.listing_id == listing_id && o.status == OfferStatus::Open {
            lemma_single(tail[0], who);
        } else {
            assert(asset_moves(tail) =~= Seq::<Transfer>::empty());
        }
    }
}

pub(crate) proof fn lemma_buy_net(l: Listing, buyer: String, c: MarketplaceConfig)
    requires
        l.price > 0,
        c.fee_bps <= BPS_DENOMINATOR,
        l.royalty_bps <= BPS_DENOMINATOR,
    ensures
        escrow_net(buy_transfers(l, buyer, c)) == 0,
{
    let tok = l.payment_token;
    let pay_in = seq![payment(tok, Party::Account(buyer), Party::Escrow, l.price as int)];
    let to_buyer = seq![Transfer::AssetMove { asset: l.asset, from: Party::Escrow, to: Party::Account(buyer) }];
    lemma_single(pay_in[0], buyer);
    lemma_single(to_buyer[0], buyer);
    lemma_payouts(tok, l.seller, c.fee_recipient, l.creator, l.price as int, c.fee_bps as int, l.royalty_bps as int, buyer);
    let buy_payouts = payout_transfers(tok, l.seller, c.fee_recipient, l.creator, l.price as int, c.fee_bps as int, l.royalty_bps as int);
    lemma_concat(pay_in, buy_payouts, buyer);
    lemma_concat(pay_in + buy_payouts, to_buyer, buyer);
}

pub(crate) proof fn lemma_accept_offer_net(l: Listing, o: Offer, c: MarketplaceConfig, offers: Seq<Offer>)
    requires
        o.price > 0,
        c.fee_bps <= BPS_DENOMINATOR,
        l.royalty_bps <= BPS_DENOMINATOR,
        forall|i: int| 0 <= i < offers.len() ==> (#[trigger] offers[i]).price > 0,
    ensures
        escrow_net(accept_offer_transfers(l, o, c, offers)) == -o.price - open_offer_total(offers, o.listing_id),
{
    let tok = l.payment_token;
    let who = o.buyer;
    lemma_refunds(offers, o.listing_id, tok, who);
    let to_offerer = seq![Transfer::AssetMove { asset: l.asset, from: Party::Escrow, to: Party::Account(o.buyer) }];
    lemma_single(to_offerer[0], who);
    lemma_payouts(tok, l.seller, c.fee_recipient, l.creator, o.price as int, c.fee_bps as int, l.royalty_bps as int, who);
    let offer_payouts = payout_transfers(tok, l.seller, c.fee_recipient, l.creator, o.price as int, c.fee_bps as int, l.royalty_bps as int);
    let refunds = refund_transfers(offers, o.listing_id, tok);
    lemma_concat(offer_payouts, to_offerer, who);
    lemma_concat(offer_payouts + to_offerer, refunds, who);
}

pub(crate) proof fn lemma_accept_counter_net(
    l: Listing,
    o: Offer,
    co: CounterOffer,
    c: MarketplaceConfig,
    offers: Seq<Offer>,
)
    requires
        o.price > 0,
        co.price > 0,
        c.fee_bps <= BPS_DENOMINATOR,
        l.royalty_bps <= BPS_DENOMINATOR,
        forall|i: int| 0 <= i < offers.len() ==> (#[trigger] offers[i]).price > 0,
    ensures
        escrow_net(accept_counter_transfers(l, o, co, c, offers)) == -o.price - open_offer_total(
            offers,
            o.listing_id,
        ),
        o.price + account_cost(counter_difference(l.payment_token, o.buyer, o.price as int, co.price as int), o.buyer)
            == co.price,
{
    let tok = l.payment_token;
    let who = o.buyer;
    lemma_refunds(offers, o.listing_id, tok, who);
    let to_offerer = seq![Transfer::AssetMove { asset: l.asset, from: Party::Escrow, to: Party::Account(o.buyer) }];
    lemma_single(to_offerer[0], who);
    lemma_payouts(tok, co.seller, c.fee_recipient, l.creator, co.price as int, c.fee_bps as int, l.royalty_bps as int, who);
    let refunds = refund_transfers(offers, o.listing_id, tok);
    let diff = counter_difference(tok, o.buyer, o.price as int, co.price as int);
    let counter_payouts = payout_transfers(tok, co.seller, c.fee_recipient, l.creator, co.price as int, c.fee_bps as int, l.royalty_bps as int);
    if co.price != o.price {
        lemma_single(diff[0], who);
    }
    lemma_concat(diff, counter_payouts, who);
    lemma_concat(diff + counter_payouts, to_offerer, who);
    lemma_concat(diff + counter_payouts + to_offerer, refunds, who);
}

/// Funds are conserved through escrow. A direct sale takes the price in and
/// pays all of it out. Accepting an offer pays out exactly the price its
/// escrow holds, and accepting a counter-offer releases exactly the countered
/// offer's escrow while the buyer pays the counter price in total; in both,
/// each other open offer on the listing gets its own escrow back. A refund on
/// rejection or cancellation returns the offer's whole price.
pub proof fn lemma_escrow_conserved(
    l: Listing,
    o: Offer,
    co: CounterOffer,
    c: MarketplaceConfig,
    buyer: String,
    offers: Seq<Offer>,
)
    requires
        l.price > 0,
        o.price > 0,
        co.price > 0,
        c.fee_bps <= BPS_DENOMINATOR,
        l.royalty_bps <= BPS_DENOMINATOR,
        forall|i: int| 0 <= i < offers.len() ==> (#[trigger] offers[i]).price > 0,
    ensures
        escrow_net(buy_transfers(l, buyer, c)) == 0,
        escrow_net(accept_offer_transfers(l, o, c, offers)) == -o.price - open_offer_total(offers, o.listing_id),
        escrow_net(accept_counter_transfers(l, o, co, c, offers)) == -o.price - open_offer_total(
            offers,
            o.listing_id,
        ),
        o.price + account_cost(counter_difference(l.payment_token, o.buyer, o.price as int, co.price as int), o.buyer)
            == co.price,
        escrow_net(refund_transfers(offers, o.listing_id, l.payment_token)) == -open_offer_total(
            offers,
            o.listing_id,
        ),
        escrow_net(seq![payment(l.payment_token, Party::Escrow, Party::Account(o.buyer), o.price as int)])
            == -o.price,
        escrow_net(seq![payment(l.payment_token, Party::Account(o.buyer), Party::Escrow, o.price as int)])
            == o.price,
{
    lemma_buy_net(l, buyer, c);
    lemma_accept_offer_net(l, o, c, offers);
    lemma_accept_counter_net(l, o, co, c, offers);
    lemma_refunds(offers, o.listing_id, l.payment_token, o.buyer);
    lemma_single(payment(l.payment_token, Party::Escrow, Party::Account(o.buyer), o.price as int), o.buyer);
    lemma_single(payment(l.payment_token, Party::Account(o.buyer), Party::Escrow, o.price as int), o.buyer);
}

/// The listed asset moves exactly once when a listing closes: out of escrow to
/// the buyer on every kind of sale, and back to the seller on cancellation.
/// Listing it moves it from the seller into escrow.
pub proof fn lemma_asset_custody(
    l: Listing,
    o: Offer,
    co: CounterOffer,
    c: MarketplaceConfig,
    buyer: String,
    offers: Seq<Offer>,
)
    requires
        l.price > 0,
        o.price > 0,
        co.price > 0,
        c.fee_bps <= BPS_DENOMINATOR,
        l.royalty_bps <= BPS_DENOMINATOR,
        forall|i: int| 0 <= i < offers.len() ==> (#[trigger] offers[i]).price > 0,
    ensures
        asset_moves(seq![Transfer::AssetMove { asset: l.asset, from: Party::Account(l.seller), to: Party::Escrow }])
            == seq![Transfer::AssetMove { asset: l.asset, from: Party::Account(l.seller), to: Party::Escrow }],
        asset_moves(buy_transfers(l, buyer, c)) == seq![
            Transfer::AssetMove { asset: l.asset, from: Party::Escrow, to: Party::Account(buyer) },
        ],
        asset_moves(accept_offer_transfers(l, o, c, offers)) == seq![
            Transfer::AssetMove { asset: l.asset, from: Party::Escrow, to: Party::Account(o.buyer) },
        ],
        asset_moves(accept_counter_transfers(l, o, co, c, offers)) == seq![
            Transfer::AssetMove { asset: l.asset, from: Party::Escrow, to: Party::Account(o.buyer) },
        ],
        asset_moves(
            seq![Transfer::AssetMove { asset: l.asset, from: Party::Escrow, to: Party::Account(l.seller) }]
                + refund_transfers(offers, l.listing_id, l.payment_token),
        ) == seq![Transfer::AssetMove { asset: l.asset, from: Party::Escrow, to: Party::Account(l.seller) }],
{
    let tok = l.payment_token;
    let who = o.buyer;
    lemma_refunds(offers, o.listing_id, tok, who);
    lemma_refunds(offers, l.listing_id, tok, who);
    let listing_in = seq![Transfer::AssetMove { asset: l.asset, from: Party::Account(l.seller), to: Party::Escrow }];
    let pay_in = seq![payment(tok, Party::Account(buyer), Party::Escrow, l.price as int)];
    let to_buyer = seq![Transfer::AssetMove { asset: l.asset, from: Party::Escrow, to: Party::Account(buyer) }];
    let to_offerer = seq![Transfer::AssetMove { asset: l.asset, from: Party::Escrow, to: Party::Account(o.buyer) }];
    let to_seller = seq![Transfer::AssetMove { asset: l.asset, from: Party::Escrow, to: Party::Account(l.seller) }];
    lemma_single(listing_in[0], who);
    lemma_single(pay_in[0], who);
    lemma_single(to_buyer[0], who);
    lemma_single(to_offerer[0], who);
    lemma_single(to_seller[0], who);
    lemma_payouts(tok, l.seller, c.fee_recipient, l.creator, l.price as int, c.fee_bps as int, l.royalty_bps as int, who);
    lemma_payouts(tok, l.seller, c.fee_recipient, l.creator, o.price as int, c.fee_bps as int, l.royalty_bps as int, who);
    lemma_payouts(tok, co.seller, c.fee_recipient, l.creator, co.price as int, c.fee_bps as int, l.royalty_bps as int, who);
    let buy_payouts = payout_transfers(tok, l.seller, c.fee_recipient, l.creator, l.price as int, c.fee_bps as int, l.royalty_bps as int);
    lemma_concat(pay_in, buy_payouts, who);
    lemma_concat(pay_in + buy_payouts, to_buyer, who);
    assert(asset_moves(pay_in + buy_payouts) =~= Seq::<Transfer>::empty());
    assert(Seq::<Transfer>::empty() + to_buyer =~= to_buyer);
    let offer_payouts = payout_transfers(tok, l.seller, c.fee_recipient, l.creator, o.price as int, c.fee_bps as int, l.royalty_bps as int);
    let refunds = refund_transfers(offers, o.listing_id, tok);
    lemma_concat(offer_payouts, to_offerer, who);
    lemma_concat(offer_payouts + to_offerer, refunds, who);
    assert(Seq::<Transfer>::empty() + to_offerer =~= to_offerer);
    assert(to_offerer + Seq::<Transfer>::empty() =~= to_offerer);
    let diff = counter_difference(tok, o.buyer, o.price as int, co.price as int);
    let counter_payouts = payout_transfers(tok, co.seller, c.fee_recipient, l.creator, co.price as int, c.fee_bps as int, l.royalty_bps as int);
    if co.price != o.price {
        lemma_single(diff[0], who);
    } else {
        assert(asset_moves(diff) =~= Seq::<Transfer>::empty());
    }
    lemma_concat(diff, counter_payouts, who);
    lemma_concat(diff + counter_payouts, to_offerer, who);
    lemma_concat(diff + counter_payouts + to_offerer, refunds, who);
    assert(asset_moves(diff + counter_payouts) =~= Seq::<Transfer>::empty());
    lemma_concat(to_seller, refund_transfers(offers, l.listing_id, tok), who);
    assert(to_seller + Seq::<Transfer>::empty() =~= to_seller);
}

/// After the open offers of a listing are refunded none of them is open any
/// more: each one that was open is now Cancelled, and every other offer, on
/// this listing or another, is exactly as it was.
pub proof fn lemma_no_open_offer_survives(offers: Seq<Offer>, listing_id: u64)
    ensures
        ({
            let after = offers.map_values(|o: Offer| refunded_offer(o, listing_id));
            &&& after.len() == offers.len()
            &&& forall|i: int|
                0 <= i < after.len() && (#[trigger] after[i]).listing_id == listing_id ==> after[i].status
                    != OfferStatus::Open
            &&& forall|i: int|
                0 <= i < offers.len() && (#[trigger] offers[i]).listing_id == listing_id && offers[i].status
                    == OfferStatus::Open ==> after[i].status == OfferStatus::Cancelled
            &&& forall|i: int|
                0 <= i < offers.len() && !((#[trigger] offers[i]).listing_id == listing_id && offers[i].status
                    == OfferStatus::Open) ==> after[i] == offers[i]
        }),
{
}

} // verus!
