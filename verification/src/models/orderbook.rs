//! The order book: two sides of price levels and the time of the snapshot.

use crate::models::price::{is_finite, price_is_finite, PriceLevel};
use crate::models::sorting::{
    ascending_by_price, descending_by_price, is_stable_sort_of, lemma_in_order_by_price,
    sort_levels,
};
use crate::models::timestamp::{parse_timestamp, timestamp_of, IntParseFault};
use vstd::prelude::*;

verus! {

/// Why a snapshot gave no book, or why an update left the book unsorted.
#[derive(Debug, Clone, Copy, PartialEq, Eq, Structural)]
pub enum OrderbookError {
    /// The response holds no result object.
    EmptyData,
    /// A price is an infinity or not a number.
    InvalidPriceData,
    /// The timestamp is no unsigned decimal number.
    InvalidTimestamp(IntParseFault),
}

/// Asks and bids of one instrument. Once built from a snapshot, and after
/// every update that succeeds, asks run from the lowest price up and bids
/// from the highest price down.
#[derive(Debug, Clone)]
pub struct Orderbook {
    /// Sell side, lowest price first.
    pub asks: Vec<PriceLevel>,
    /// Buy side, highest price first.
    pub bids: Vec<PriceLevel>,
    /// Milliseconds since the epoch, as the snapshot gave them.
    pub ts: u64,
}

/// One result object of a snapshot response.
#[derive(Debug, Clone)]
pub struct RawOrderbookData {
    pub asks: Vec<PriceLevel>,
    pub bids: Vec<PriceLevel>,
    pub ts: String,
}

/// A snapshot response: result code, message and result objects.
#[derive(Debug, Clone)]
pub struct OrderbookSnapshotResponse {
    pub code: String,
    pub msg: String,
    pub data: Vec<RawOrderbookData>,
}

/// An incremental update: levels to add to either side.
#[derive(Debug, Clone)]
pub struct OrderbookUpdate {
    pub asks: Vec<PriceLevel>,
    pub bids: Vec<PriceLevel>,
}

/// Every price of the sequence is finite.
pub open spec fn all_prices_finite(s: Seq<PriceLevel>) -> bool {
    forall|i: int| 0 <= i < s.len() ==> is_finite(#[trigger] s[i].0)
}

/// `sorted` holds the levels of `input`, each as often, in order of price:
/// rising or, with `descending`, falling. Levels of equal price stand as in
/// `input`.
pub open spec fn is_sorted_side(
    sorted: Seq<PriceLevel>,
    input: Seq<PriceLevel>,
    descending: bool,
) -> bool {
    &&& is_stable_sort_of(sorted, input, descending)
    &&& sorted.to_multiset() == input.to_multiset()
    &&& sorted.len() == input.len()
}

/// Tells whether every price of the levels is finite.
pub fn prices_are_finite(levels: &Vec<PriceLevel>) -> (r: bool)
    ensures
        r == all_prices_finite(levels@),
{
    let mut i: usize = 0;
    while i < levels.len()
        invariant
            i <= levels.len(),
            all_prices_finite(levels@.take(i as int)),
        decreases levels.len() - i,
    {
        if !price_is_finite(levels[i].0) {
            return false;
        }
        proof {
            assert forall|k: int| 0 <= k < i + 1 implies is_finite(
                #[trigger] levels@.take(i + 1)[k].0,
            ) by {
            }
        }
        i += 1;
    }
    proof {
        assert(levels@.take(i as int) == levels@);
    }
    true
}

impl Orderbook {
    /// Every price is finite, asks rise and bids fall.
    pub open spec fn well_formed(&self) -> bool {
        &&& all_prices_finite(self.asks@)
        &&& all_prices_finite(self.bids@)
        &&& ascending_by_price(self.asks@)
        &&& descending_by_price(self.bids@)
    }

    /// Builds the book from the first result object of a snapshot response.
    ///
    /// A response without a result object, a timestamp that is no number and
    /// a price that is not finite are refused, in this order of precedence.
    pub fn from_snapshot(response: OrderbookSnapshotResponse) -> (r: Result<Self, OrderbookError>)
        ensures
            response.data@.len() == 0 ==> r == Err::<Self, OrderbookError>(
                OrderbookError::EmptyData,
            ),
            response.data@.len() > 0 ==> match timestamp_of(response.data@[0].ts@) {
                Err(fault) => r == Err::<Self, OrderbookError>(
                    OrderbookError::InvalidTimestamp(fault),
                ),
                Ok(ts) => if all_prices_finite(response.data@[0].asks@) && all_prices_finite(
                    response.data@[0].bids@,
                ) {
                    &&& r is Ok
                    &&& r->Ok_0.ts == ts
                    &&& is_sorted_side(r->Ok_0.asks@, response.data@[0].asks@, false)
                    &&& is_sorted_side(r->Ok_0.bids@, response.data@[0].bids@, true)
                    &&& r->Ok_0.well_formed()
                } else {
                    r == Err::<Self, OrderbookError>(OrderbookError::InvalidPriceData)
                },
            },
    {
        let mut data = response.data;
        if data.len() == 0 {
            return Err(OrderbookError::EmptyData);
        }
        let raw_data = data.remove(0);
        let ts = match parse_timestamp(raw_data.ts.as_str()) {
            Ok(ts) => ts,
            Err(fault) => {
                return Err(OrderbookError::InvalidTimestamp(fault));
            },
        };
        let mut orderbook = Orderbook { asks: raw_data.asks, bids: raw_data.bids, ts };
        match orderbook.sort_order_book() {
            Ok(()) => Ok(orderbook),
            Err(e) => Err(e),
        }
    }

    /// Adds the levels of an update to both sides and puts the sides in order
    /// again. Nothing is merged by price: a level is added even where one of
    /// the same price exists.
    ///
    /// Where a price of the book or of the update is not finite, the call
    /// fails and the book is left with the levels added and not sorted.
    pub fn apply_update(&mut self, update: OrderbookUpdate) -> (r: Result<(), OrderbookError>)
        ensures
            final(self).ts == old(self).ts,
            r is Ok <==> all_prices_finite(old(self).asks@ + update.asks@) && all_prices_finite(
                old(self).bids@ + update.bids@,
            ),
            r is Ok ==> {
                &&& is_sorted_side(final(self).asks@, old(self).asks@ + update.asks@, false)
                &&& is_sorted_side(final(self).bids@, old(self).bids@ + update.bids@, true)
                &&& final(self).well_formed()
            },
            r is Err ==> {
                &&& r == Err::<(), OrderbookError>(OrderbookError::InvalidPriceData)
                &&& final(self).asks@ == old(self).asks@ + update.asks@
                &&& final(self).bids@ == old(self).bids@ + update.bids@
            },
    {
        let mut update = update;
        self.asks.append(&mut update.asks);
        self.bids.append(&mut update.bids);
        self.sort_order_book()
    }

    /// Checks every price, asks first, and then sorts asks from the lowest
    /// price up and bids from the highest price down. Levels of equal price
    /// keep their order. Where a price is not finite nothing is sorted.
    pub fn sort_order_book(&mut self) -> (r: Result<(), OrderbookError>)
        ensures
            final(self).ts == old(self).ts,
            r is Ok <==> all_prices_finite(old(self).asks@) && all_prices_finite(old(self).bids@),
            r is Ok ==> {
                &&& is_sorted_side(final(self).asks@, old(self).asks@, false)
                &&& is_sorted_side(final(self).bids@, old(self).bids@, true)
                &&& final(self).well_formed()
            },
            r is Err ==> {
                &&& r == Err::<(), OrderbookError>(OrderbookError::InvalidPriceData)
                &&& final(self).asks@ == old(self).asks@
                &&& final(self).bids@ == old(self).bids@
            },
    {
        if !prices_are_finite(&self.asks) || !prices_are_finite(&self.bids) {
            return Err(OrderbookError::InvalidPriceData);
        }
        let ghost asks = self.asks@;
        let ghost bids = self.bids@;
        sort_levels(&mut self.asks, false);
        sort_levels(&mut self.bids, true);
        proof {
            lemma_in_order_by_price(self.asks@);
            lemma_in_order_by_price(self.bids@);
            lemma_permutation_keeps_prices_finite(asks, self.asks@);
            lemma_permutation_keeps_prices_finite(bids, self.bids@);
        }
        Ok(())
    }
}

/// Putting levels in another order does not change whether all prices are finite.
pub proof fn lemma_permutation_keeps_prices_finite(a: Seq<PriceLevel>, b: Seq<PriceLevel>)
    requires
        a.to_multiset() == b.to_multiset(),
    ensures
        all_prices_finite(a) == all_prices_finite(b),
{
    a.to_multiset_ensures();
    b.to_multiset_ensures();
    if all_prices_finite(a) {
        assert forall|i: int| 0 <= i < b.len() implies is_finite(#[trigger] b[i].0) by {
            assert(a.to_multiset().count(b[i]) > 0);
        }
    }
    if all_prices_finite(b) {
        assert forall|i: int| 0 <= i < a.len() implies is_finite(#[trigger] a[i].0) by {
            assert(b.to_multiset().count(a[i]) > 0);
        }
    }
}

/// An update adds every one of its levels: after it a side holds what it
/// held before and what the update brought, each level as often as the two
/// together hold it.
pub proof fn lemma_update_adds_every_level(
    before: Seq<PriceLevel>,
    added: Seq<PriceLevel>,
    after: Seq<PriceLevel>,
    descending: bool,
)
    requires
        is_sorted_side(after, before + added, descending),
    ensures
        after.to_multiset() == before.to_multiset().add(added.to_multiset()),
        after.len() == before.len() + added.len(),
{
    vstd::seq_lib::lemma_multiset_commutative(before, added);
}

/// Updates are not idempotent: the same update applied a second time adds
/// its levels a second time.
pub proof fn lemma_update_twice_adds_twice(
    before: Seq<PriceLevel>,
    added: Seq<PriceLevel>,
    once: Seq<PriceLevel>,
    twice: Seq<PriceLevel>,
    descending: bool,
)
    requires
        is_sorted_side(once, before + added, descending),
        is_sorted_side(twice, once + added, descending),
    ensures
        twice.len() == before.len() + 2 * added.len(),
        forall|level: PriceLevel| #[trigger]
            twice.to_multiset().count(level) == before.to_multiset().count(level) + 2
                * added.to_multiset().count(level),
{
    lemma_update_adds_every_level(before, added, once, descending);
    lemma_update_adds_every_level(once, added, twice, descending);
}

} // verus!
