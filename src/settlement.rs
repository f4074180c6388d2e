//! Settlement calculator: splits a sale price into the seller's payout, the
//! marketplace fee and the creator royalty.
use vstd::prelude::*;
use vstd::arithmetic::div_mod::{lemma_fundamental_div_mod, lemma_fundamental_div_mod_converse_div};

verus! {

/// Number of basis points that make up one whole (100%).
pub const BPS_DENOMINATOR: u32 = 10000;

/// The share of `price` that `bps` basis points stand for, rounded toward zero.
pub open spec fn bps_share(price: int, bps: int) -> int {
    price * bps / (BPS_DENOMINATOR as int)
}

/// The three legs of a sale: seller payout, marketplace fee, creator royalty.
pub open spec fn payout_split(price: int, fee_bps: int, royalty_bps: int) -> (int, int, int) {
    let fee = bps_share(price, fee_bps);
    let royalty = bps_share(price, royalty_bps);
    (price - fee - royalty, fee, royalty)
}

/// `price * bps / 10000` taken apart so that no intermediate value exceeds `price`.
proof fn lemma_share_decomposed(price: int, bps: int)
    requires
        0 <= price,
        0 <= bps <= 10000,
    ensures
        bps_share(price, bps) == (price / 10000) * bps + (price % 10000) * bps / 10000,
        0 <= bps_share(price, bps) <= price,
{
    let q = price / 10000;
    let r = price % 10000;
    lemma_fundamental_div_mod(price, 10000);
    let q2 = (r * bps) / 10000;
    let r2 = (r * bps) % 10000;
    lemma_fundamental_div_mod(r * bps, 10000);
    assert(price * bps == 10000 * (q * bps + q2) + r2) by (nonlinear_arith)
        requires
            price == 10000 * q + r,
            r * bps == 10000 * q2 + r2,
    ;
    lemma_fundamental_div_mod_converse_div(price * bps, 10000, q * bps + q2, r2);
    assert(0 <= price * bps <= price * 10000) by (nonlinear_arith)
        requires
            0 <= price,
            0 <= bps <= 10000,
    ;
    assert(0 <= price * bps / 10000 <= price) by (nonlinear_arith)
        requires
            0 <= price * bps <= price * 10000,
    ;
}

/// The share of `price` that `bps` basis points stand for, rounded toward zero.
pub fn bps_amount(price: i128, bps: u32) -> (r: i128)
    requires
        0 <= price,
        bps <= BPS_DENOMINATOR,
    ensures
        r == bps_share(price as int, bps as int),
        0 <= r <= price,
{
    proof {
        lemma_share_decomposed(price as int, bps as int);
        assert((price / 10000) * (bps as int) <= price) by (nonlinear_arith)
            requires
                0 <= price,
                0 <= bps <= 10000,
        ;
        assert((price % 10000) * (bps as int) <= 10000 * 10000) by (nonlinear_arith)
            requires
                0 <= price % 10000 < 10000,
                0 <= bps <= 10000,
        ;
    }
    let whole = (price / 10000) * (bps as i128);
    let part = (price % 10000) * (bps as i128) / 10000;
    whole + part
}

/// Splits `price` into `(seller_amount, fee_amount, royalty_amount)`: the fee
/// and the royalty are `price * bps / 10000` rounded toward zero, and the
/// seller receives the rest.
pub fn calculate_payouts(price: i128, fee_bps: u32, royalty_bps: u32) -> (r: (i128, i128, i128))
    requires
        0 < price,
        fee_bps <= BPS_DENOMINATOR,
        royalty_bps <= BPS_DENOMINATOR,
    ensures
        (r.0 as int, r.1 as int, r.2 as int) == payout_split(price as int, fee_bps as int, royalty_bps as int),
{
    let fee_amount = bps_amount(price, fee_bps);
    let royalty_amount = bps_amount(price, royalty_bps);
    let seller_amount = price - fee_amount - royalty_amount;
    (seller_amount, fee_amount, royalty_amount)
}

/// The three legs of a split always add up to the price: nothing is created
/// and nothing is lost to rounding or overflow.
pub proof fn lemma_payouts_sum_to_price(price: int, fee_bps: int, royalty_bps: int)
    requires
        0 < price,
        0 <= fee_bps <= 10000,
        0 <= royalty_bps <= 10000,
    ensures
        ({
            let (seller, fee, royalty) = payout_split(price, fee_bps, royalty_bps);
            &&& seller + fee + royalty == price
            &&& 0 <= fee <= price
            &&& 0 <= royalty <= price
        }),
{
    lemma_share_decomposed(price, fee_bps);
    lemma_share_decomposed(price, royalty_bps);
}

} // verus!
