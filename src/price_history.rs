//! Price history: a bounded, chronological log of settled prices per asset,
//! with average, minimum and maximum queries.
use vstd::prelude::*;
use vstd::arithmetic::div_mod::{lemma_fundamental_div_mod, lemma_fundamental_div_mod_converse_div};

verus! {

/// How many settled prices are kept for one asset.
pub const MAX_PRICE_HISTORY: usize = 100;

/// The settled prices of one asset, oldest first.
pub struct AssetPrices {
    pub contract: String,
    pub token_id: u32,
    pub prices: Vec<i128>,
}

/// The latest `MAX_PRICE_HISTORY` entries of `s`, in the order they came.
pub open spec fn keep_latest(s: Seq<i128>) -> Seq<i128> {
    if s.len() > MAX_PRICE_HISTORY {
        s.subrange(s.len() - MAX_PRICE_HISTORY, s.len() as int)
    } else {
        s
    }
}

pub open spec fn is_asset(rec: AssetPrices, contract: Seq<char>, token_id: u32) -> bool {
    rec.contract@ == contract && rec.token_id == token_id
}

/// The prices recorded for an asset: those of the first record that names it.
pub open spec fn prices_of(records: Seq<AssetPrices>, contract: Seq<char>, token_id: u32) -> Seq<i128>
    decreases records.len(),
{
    if records.len() == 0 {
        Seq::empty()
    } else if is_asset(records[0], contract, token_id) {
        records[0].prices@
    } else {
        prices_of(records.drop_first(), contract, token_id)
    }
}

pub open spec fn all_positive(s: Seq<i128>) -> bool {
    forall|j: int| 0 <= j < s.len() ==> s[j] > 0
}

/// Every log is bounded and holds positive prices only.
pub open spec fn logs_wf(records: Seq<AssetPrices>) -> bool {
    forall|i: int|
        0 <= i < records.len() ==> {
            &&& (#[trigger] records[i]).prices@.len() <= MAX_PRICE_HISTORY
            &&& all_positive(records[i].prices@)
        }
}

/// Sum of a sequence of prices.
pub open spec fn sum_of(s: Seq<i128>) -> int
    decreases s.len(),
{
    if s.len() == 0 {
        0
    } else {
        sum_of(s.drop_last()) + s.last()
    }
}

/// Smallest entry of a non-empty sequence.
pub open spec fn min_of(s: Seq<i128>) -> i128
    decreases s.len(),
{
    if s.len() <= 1 {
        s[0]
    } else {
        let m = min_of(s.drop_last());
        if s.last() < m { s.last() } else { m }
    }
}

/// Largest entry of a non-empty sequence.
pub open spec fn max_of(s: Seq<i128>) -> i128
    decreases s.len(),
{
    if s.len() <= 1 {
        s[0]
    } else {
        let m = max_of(s.drop_last());
        if s.last() > m { s.last() } else { m }
    }
}

proof fn lemma_prices_of_first_match(records: Seq<AssetPrices>, i: int, contract: Seq<char>, token_id: u32)
    requires
        0 <= i < records.len(),
        is_asset(records[i], contract, token_id),
        forall|j: int| 0 <= j < i ==> !is_asset(#[trigger] records[j], contract, token_id),
    ensures
        prices_of(records, contract, token_id) == records[i].prices@,
    decreases records.len(),
{
    if i > 0 {
        assert(!is_asset(records[0], contract, token_id));
        assert forall|j: int| 0 <= j < i - 1 implies !is_asset(#[trigger] records.drop_first()[j], contract, token_id) by {
            assert(records.drop_first()[j] == records[j + 1]);
        }
        lemma_prices_of_first_match(records.drop_first(), i - 1, contract, token_id);
    }
}

proof fn lemma_prices_of_absent(records: Seq<AssetPrices>, contract: Seq<char>, token_id: u32)
    requires
        forall|j: int| 0 <= j < records.len() ==> !is_asset(#[trigger] records[j], contract, token_id),
    ensures
        prices_of(records, contract, token_id) == Seq::<i128>::empty(),
    decreases records.len(),
{
    if records.len() > 0 {
        assert(!is_asset(records[0], contract, token_id));
        assert forall|j: int| 0 <= j < records.len() - 1 implies !is_asset(#[trigger] records.drop_first()[j], contract, token_id) by {
            assert(records.drop_first()[j] == records[j + 1]);
        }
        lemma_prices_of_absent(records.drop_first(), contract, token_id);
    }
}

proof fn lemma_prices_of_update(
    records: Seq<AssetPrices>,
    i: int,
    rec: AssetPrices,
    contract: Seq<char>,
    token_id: u32,
)
    requires
        0 <= i < records.len(),
        rec.contract@ == records[i].contract@,
        rec.token_id == records[i].token_id,
        forall|j: int| 0 <= j < i ==> !is_asset(#[trigger] records[j], records[i].contract@, records[i].token_id),
    ensures
        prices_of(records.update(i, rec), contract, token_id) == if is_asset(rec, contract, token_id) {
            rec.prices@
        } else {
            prices_of(records, contract, token_id)
        },
    decreases records.len(),
{
    let updated = records.update(i, rec);
    if i == 0 {
        assert(updated.drop_first() =~= records.drop_first());
    } else {
        assert(updated.drop_first() =~= records.drop_first().update(i - 1, rec));
        assert forall|j: int| 0 <= j < i - 1 implies !is_asset(
            #[trigger] records.drop_first()[j],
            records.drop_first()[i - 1].contract@,
            records.drop_first()[i - 1].token_id,
        ) by {
            assert(records.drop_first()[j] == records[j + 1]);
        }
        if !is_asset(records[0], contract, token_id) {
            lemma_prices_of_update(records.drop_first(), i - 1, rec, contract, token_id);
        } else {
            assert(!is_asset(rec, contract, token_id));
        }
    }
}

proof fn lemma_prices_of_push(records: Seq<AssetPrices>, rec: AssetPrices, contract: Seq<char>, token_id: u32)
    requires
        forall|j: int| 0 <= j < records.len() ==> !is_asset(#[trigger] records[j], rec.contract@, rec.token_id),
    ensures
        prices_of(records.push(rec), contract, token_id) == if is_asset(rec, contract, token_id) {
            rec.prices@
        } else {
            prices_of(records, contract, token_id)
        },
    decreases records.len(),
{
    assert(records.push(rec)[0] == if records.len() == 0 { rec } else { records[0] });
    if records.len() == 0 {
        assert(records.push(rec).drop_first() =~= records);
    } else {
        assert(records.push(rec).drop_first() =~= records.drop_first().push(rec));
        assert forall|j: int| 0 <= j < records.len() - 1 implies !is_asset(
            #[trigger] records.drop_first()[j],
            rec.contract@,
            rec.token_id,
        ) by {
            assert(records.drop_first()[j] == records[j + 1]);
        }
        if !is_asset(records[0], contract, token_id) {
            lemma_prices_of_push(records.drop_first(), rec, contract, token_id);
        } else {
            assert(!is_asset(rec, contract, token_id));
        }
    }
}

/// Every recorded history stays within `MAX_PRICE_HISTORY` entries and keeps
/// the newest price last, after the older entries in the order they came.
pub proof fn lemma_history_bounded_and_ordered(history: Seq<i128>, price: i128)
    ensures
        keep_latest(history.push(price)).len() <= MAX_PRICE_HISTORY,
        keep_latest(history.push(price)).last() == price,
        exists|start: int|
            0 <= start <= history.len() && keep_latest(history.push(price)) == #[trigger] history.push(
                price,
            ).subrange(start, history.len() as int + 1),
{
    let all = history.push(price);
    if all.len() > MAX_PRICE_HISTORY {
        assert(keep_latest(all) == all.subrange(all.len() - 100, history.len() as int + 1));
    } else {
        assert(all.subrange(0, history.len() as int + 1) =~= all);
    }
}

/// Copies the entries of `src` from index `start` on.
fn copy_from(src: &Vec<i128>, start: usize) -> (r: Vec<i128>)
    requires
        start <= src.len(),
    ensures
        r@ == src@.subrange(start as int, src.len() as int),
{
    let mut out: Vec<i128> = Vec::new();
    let mut i: usize = start;
    while i < src.len()
        invariant
            start <= i <= src.len(),
            out@ == src@.subrange(start as int, i as int),
        decreases src.len() - i,
    {
        out.push(src[i]);
        assert(out@ =~= src@.subrange(start as int, i + 1));
        i = i + 1;
    }
    out
}

/// The price log of every asset that has been sold at least once.
pub struct PriceHistory {
    records: Vec<AssetPrices>,
}

impl PriceHistory {
    pub closed spec fn records_spec(&self) -> Seq<AssetPrices> {
        self.records@
    }

    /// The prices recorded for one asset, oldest first.
    pub open spec fn prices(&self, contract: Seq<char>, token_id: u32) -> Seq<i128> {
        prices_of(self.records_spec(), contract, token_id)
    }

    /// Every log is bounded and holds positive prices only.
    pub closed spec fn wf(&self) -> bool {
        logs_wf(self.records@)
    }

    /// Rebuilds a history from stored records; `None` unless every log is
    /// bounded and positive.
    pub fn from_records(records: Vec<AssetPrices>) -> (r: Option<PriceHistory>)
        ensures
            r is Some <==> logs_wf(records@),
            r matches Some(h) ==> h.wf() && h.records_spec() == records@,
    {
        let mut i: usize = 0;
        while i < records.len()
            invariant
                i <= records@.len(),
                forall|j: int|
                    0 <= j < i ==> {
                        &&& (#[trigger] records@[j]).prices@.len() <= MAX_PRICE_HISTORY
                        &&& all_positive(records@[j].prices@)
                    },
            decreases records@.len() - i,
        {
            let prices = &records[i].prices;
            if prices.len() > MAX_PRICE_HISTORY {
                assert(records@[i as int].prices@.len() > MAX_PRICE_HISTORY);
                return None;
            }
            let mut k: usize = 0;
            while k < prices.len()
                invariant
                    k <= prices@.len(),
                    i < records@.len(),
                    *prices == records@[i as int].prices,
                    forall|j: int| 0 <= j < k ==> prices@[j] > 0,
                decreases prices@.len() - k,
            {
                if prices[k] <= 0 {
                    assert(records@[i as int].prices@[k as int] <= 0);
                    assert(!all_positive(records@[i as int].prices@));
                    return None;
                }
                k = k + 1;
            }
            i = i + 1;
        }
        Some(PriceHistory { records })
    }

    /// The stored records, for the host to persist.
    pub fn into_records(self) -> (r: Vec<AssetPrices>)
        ensures
            r@ == self.records_spec(),
    {
        self.records
    }

    pub fn new() -> (r: Self)
        ensures
            r.wf(),
            forall|c: Seq<char>, t: u32| r.prices(c, t) == Seq::<i128>::empty(),
    {
        let r = PriceHistory { records: Vec::new() };
        proof {
            assert forall|c: Seq<char>, t: u32| r.prices(c, t) == Seq::<i128>::empty() by {
                lemma_prices_of_absent(r.records@, c, t);
            }
        }
        r
    }

    /// A log is positive and bounded when the whole history is well formed.
    pub proof fn lemma_prices_wf(&self, contract: Seq<char>, token_id: u32)
        requires
            self.wf(),
        ensures
            self.prices(contract, token_id).len() <= MAX_PRICE_HISTORY,
            all_positive(self.prices(contract, token_id)),
    {
        let records = self.records@;
        if exists|i: int| 0 <= i < records.len() && is_asset(records[i], contract, token_id) {
            let i = choose|i: int| 0 <= i < records.len() && is_asset(records[i], contract, token_id);
            let first = self.first_index(contract, token_id, i);
            lemma_prices_of_first_match(records, first, contract, token_id);
            assert(records[first].prices@.len() <= MAX_PRICE_HISTORY);
        } else {
            lemma_prices_of_absent(records, contract, token_id);
        }
    }

    proof fn first_index(&self, contract: Seq<char>, token_id: u32, i: int) -> (first: int)
        requires
            0 <= i < self.records@.len(),
            is_asset(self.records@[i], contract, token_id),
        ensures
            0 <= first <= i,
            is_asset(self.records@[first], contract, token_id),
            forall|j: int| 0 <= j < first ==> !is_asset(#[trigger] self.records@[j], contract, token_id),
        decreases i,
    {
        if exists|j: int| 0 <= j < i && is_asset(self.records@[j], contract, token_id) {
            let j = choose|j: int| 0 <= j < i && is_asset(self.records@[j], contract, token_id);
            self.first_index(contract, token_id, j)
        } else {
            i
        }
    }

    /// Appends `price` to the asset's log, then drops the oldest entries so that
    /// at most `MAX_PRICE_HISTORY` remain.
    pub fn record_price(&mut self, contract: &String, token_id: u32, price: i128)
        requires
            old(self).wf(),
            price > 0,
        ensures
            final(self).wf(),
            final(self).prices(contract@, token_id) == keep_latest(old(self).prices(contract@, token_id).push(price)),
            forall|c: Seq<char>, t: u32|
                !(c == contract@ && t == token_id) ==> #[trigger] final(self).prices(c, t) == old(self).prices(c, t),
    {
        let ghost old_records = self.records@;
        if let Some(i) = self.find(contract, token_id) {
            proof {
                lemma_prices_of_first_match(old_records, i as int, contract@, token_id);
            }
            let mut prices = copy_from(&self.records[i].prices, 0);
            assert(prices@ =~= old_records[i as int].prices@);
            prices.push(price);
            let kept = if prices.len() > MAX_PRICE_HISTORY {
                copy_from(&prices, prices.len() - MAX_PRICE_HISTORY)
            } else {
                prices
            };
            let rec = AssetPrices { contract: contract.clone(), token_id, prices: kept };
            let ghost rec_view = rec;
            self.records.set(i, rec);
            proof {
                assert forall|c: Seq<char>, t: u32|
                    #[trigger] prices_of(self.records@, c, t) == if is_asset(rec_view, c, t) {
                        rec_view.prices@
                    } else {
                        prices_of(old_records, c, t)
                    } by {
                    lemma_prices_of_update(old_records, i as int, rec_view, c, t);
                }
                assert forall|k: int| 0 <= k < self.records@.len() implies {
                    &&& (#[trigger] self.records@[k]).prices@.len() <= MAX_PRICE_HISTORY
                    &&& all_positive(self.records@[k].prices@)
                } by {
                    if k != i {
                        assert(self.records@[k] == old_records[k]);
                    }
                }
            }
        } else {
            let mut prices: Vec<i128> = Vec::new();
            prices.push(price);
            let rec = AssetPrices { contract: contract.clone(), token_id, prices };
            let ghost rec_view = rec;
            self.records.push(rec);
            proof {
                lemma_prices_of_absent(old_records, contract@, token_id);
                assert(Seq::<i128>::empty().push(price) =~= seq![price]);
                assert forall|c: Seq<char>, t: u32|
                    #[trigger] prices_of(self.records@, c, t) == if is_asset(rec_view, c, t) {
                        rec_view.prices@
                    } else {
                        prices_of(old_records, c, t)
                    } by {
                    lemma_prices_of_push(old_records, rec_view, c, t);
                }
                assert forall|k: int| 0 <= k < self.records@.len() implies {
                    &&& (#[trigger] self.records@[k]).prices@.len() <= MAX_PRICE_HISTORY
                    &&& all_positive(self.records@[k].prices@)
                } by {
                    if k < old_records.len() {
                        assert(self.records@[k] == old_records[k]);
                    }
                }
            }
        }
    }

    /// The prices recorded for one asset, oldest first (empty if it never sold).
    pub fn get(&self, contract: &String, token_id: u32) -> (r: Vec<i128>)
        ensures
            r@ == self.prices(contract@, token_id),
    {
        match self.find(contract, token_id) {
            Some(i) => {
                proof {
                    lemma_prices_of_first_match(self.records@, i as int, contract@, token_id);
                }
                let r = copy_from(&self.records[i].prices, 0);
                assert(r@ =~= self.records@[i as int].prices@);
                r
            },
            None => {
                proof {
                    lemma_prices_of_absent(self.records@, contract@, token_id);
                }
                Vec::new()
            },
        }
    }

    /// Index of the first record that names the asset.
    fn find(&self, contract: &String, token_id: u32) -> (r: Option<usize>)
        ensures
            match r {
                Some(i) => {
                    &&& i < self.records@.len()
                    &&& is_asset(self.records@[i as int], contract@, token_id)
                    &&& forall|j: int| 0 <= j < i ==> !is_asset(#[trigger] self.records@[j], contract@, token_id)
                },
                None => forall|j: int|
                    0 <= j < self.records@.len() ==> !is_asset(#[trigger] self.records@[j], contract@, token_id),
            },
    {
        let mut i: usize = 0;
        while i < self.records.len()
            invariant
                0 <= i <= self.records@.len(),
                forall|j: int| 0 <= j < i ==> !is_asset(#[trigger] self.records@[j], contract@, token_id),
            decreases self.records@.len() - i,
        {
            if self.records[i].token_id == token_id && self.records[i].contract == *contract {
                return Some(i);
            }
            i = i + 1;
        }
        None
    }
}

/// Mean of a non-empty log of positive prices, rounded down; computed as a
/// quotient and a remainder so that the running sum never has to fit in `i128`.
fn mean_of(prices: &Vec<i128>) -> (r: i128)
    requires
        prices@.len() > 0,
        all_positive(prices@),
    ensures
        r as int == sum_of(prices@) / (prices@.len() as int),
{
    let n: usize = prices.len();
    let ghost s = prices@;
    let mut quotient: i128 = 0;
    let mut remainder: i128 = 0;
    let mut i: usize = 0;
    proof {
        assert(s.take(0) =~= Seq::<i128>::empty());
    }
    while i < n
        invariant
            n == s.len(),
            s == prices@,
            0 < n,
            all_positive(s),
            i <= n,
            0 <= remainder < n,
            0 <= quotient,
            (n as int) * (quotient as int) + (remainder as int) == sum_of(s.take(i as int)),
            sum_of(s.take(i as int)) <= (i as int) * (i128::MAX as int),
        decreases n - i,
    {
        let p = prices[i];
        proof {
            assert(s.take(i + 1).drop_last() =~= s.take(i as int));
            assert(s.take(i + 1).last() == p);
            lemma_fundamental_div_mod(p as int, n as int);
            assert((n as int) * (p as int / n as int) <= p as int);
            assert(quotient as int + p as int / n as int <= i128::MAX as int) by (nonlinear_arith)
                requires
                    (n as int) * (quotient as int) + (remainder as int) == sum_of(s.take(i as int)),
                    0 <= remainder,
                    sum_of(s.take(i as int)) <= (i as int) * (i128::MAX as int),
                    (n as int) * (p as int / n as int) <= p as int,
                    p as int <= i128::MAX as int,
                    i < n,
                    0 < n,
            ;
        }
        let ghost q0 = quotient as int;
        let ghost r0 = remainder as int;
        quotient = quotient + p / (n as i128);
        remainder = remainder + p % (n as i128);
        proof {
            let nn = n as int;
            let pp = p as int;
            assert(sum_of(s.take(i + 1)) == sum_of(s.take(i as int)) + pp);
            assert(nn * (pp / nn) + pp % nn == pp);
            assert(nn * (quotient as int) + (remainder as int) == sum_of(s.take(i + 1))) by (nonlinear_arith)
                requires
                    nn * q0 + r0 == sum_of(s.take(i as int)),
                    sum_of(s.take(i + 1)) == sum_of(s.take(i as int)) + pp,
                    nn * (pp / nn) + pp % nn == pp,
                    quotient as int == q0 + pp / nn,
                    remainder as int == r0 + pp % nn,
            ;
            assert(sum_of(s.take(i + 1)) <= (i as int + 1) * (i128::MAX as int)) by (nonlinear_arith)
                requires
                    sum_of(s.take(i as int)) <= (i as int) * (i128::MAX as int),
                    sum_of(s.take(i + 1)) == sum_of(s.take(i as int)) + pp,
                    pp <= i128::MAX as int,
            ;
        }
        if remainder >= n as i128 {
            proof {
                assert(quotient as int + 1 <= i128::MAX as int) by (nonlinear_arith)
                    requires
                        (n as int) * (quotient as int) + (remainder as int) == sum_of(s.take(i + 1)),
                        remainder as int >= n as int,
                        sum_of(s.take(i + 1)) <= (i as int + 1) * (i128::MAX as int),
                        i < n,
                        0 < n,
                ;
            }
            let ghost q1 = quotient as int;
            remainder = remainder - n as i128;
            quotient = quotient + 1;
            proof {
                assert((n as int) * (quotient as int) == (n as int) * q1 + (n as int)) by (nonlinear_arith)
                    requires
                        quotient as int == q1 + 1,
                ;
            }
        }
        i = i + 1;
    }
    proof {
        assert(s.take(n as int) =~= s);
        lemma_fundamental_div_mod_converse_div(sum_of(s), n as int, quotient as int, remainder as int);
    }
    quotient
}

/// Smallest entry of a non-empty log.
fn lowest(prices: &Vec<i128>) -> (r: i128)
    requires
        prices@.len() > 0,
    ensures
        r == min_of(prices@),
{
    let mut m = prices[0];
    let mut i: usize = 1;
    proof {
        assert(prices@.take(1).drop_last().len() == 0);
    }
    while i < prices.len()
        invariant
            1 <= i <= prices@.len(),
            m == min_of(prices@.take(i as int)),
        decreases prices@.len() - i,
    {
        proof {
            assert(prices@.take(i + 1).drop_last() =~= prices@.take(i as int));
        }
        if prices[i] < m {
            m = prices[i];
        }
        i = i + 1;
    }
    assert(prices@.take(i as int) =~= prices@);
    m
}

/// Largest entry of a non-empty log.
fn highest(prices: &Vec<i128>) -> (r: i128)
    requires
        prices@.len() > 0,
    ensures
        r == max_of(prices@),
{
    let mut m = prices[0];
    let mut i: usize = 1;
    while i < prices.len()
        invariant
            1 <= i <= prices@.len(),
            m == max_of(prices@.take(i as int)),
        decreases prices@.len() - i,
    {
        proof {
            assert(prices@.take(i + 1).drop_last() =~= prices@.take(i as int));
        }
        if prices[i] > m {
            m = prices[i];
        }
        i = i + 1;
    }
    assert(prices@.take(i as int) =~= prices@);
    m
}

impl PriceHistory {
    /// Mean settled price of an asset, rounded down; `None` if it never sold.
    pub fn average_price(&self, contract: &String, token_id: u32) -> (r: Option<i128>)
        requires
            self.wf(),
        ensures
            ({
                let s = self.prices(contract@, token_id);
                r == if s.len() == 0 { None } else { Some((sum_of(s) / (s.len() as int)) as i128) }
            }),
    {
        let prices = self.get(contract, token_id);
        if prices.len() == 0 {
            return None;
        }
        proof {
            self.lemma_prices_wf(contract@, token_id);
        }
        Some(mean_of(&prices))
    }

    /// Lowest settled price of an asset; `None` if it never sold.
    pub fn min_price(&self, contract: &String, token_id: u32) -> (r: Option<i128>)
        ensures
            ({
                let s = self.prices(contract@, token_id);
                r == if s.len() == 0 { None } else { Some(min_of(s)) }
            }),
    {
        let prices = self.get(contract, token_id);
        if prices.len() == 0 {
            return None;
        }
        Some(lowest(&prices))
    }

    /// Highest settled price of an asset; `None` if it never sold.
    pub fn max_price(&self, contract: &String, token_id: u32) -> (r: Option<i128>)
        ensures
            ({
                let s = self.prices(contract@, token_id);
                r == if s.len() == 0 { None } else { Some(max_of(s)) }
            }),
    {
        let prices = self.get(contract, token_id);
        if prices.len() == 0 {
            return None;
        }
        Some(highest(&prices))
    }
}

} // verus!
