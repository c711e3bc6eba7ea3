use crate::exchange_api_types::{rest_levels, ws_levels, OrderBookDelta, RestQuote, SnapshotData, WsQuote};
use std::collections::BTreeMap;
use vstd::prelude::*;
use vstd::std_specs::btree::*;
use vstd::std_specs::cmp::OrdSpec;
use vstd::std_specs::iter::IteratorSpec;

verus! {

/// One rung of a ladder: a price and the quantity resting at it, both counted
/// in whole units of the smallest increment the feed can express.
#[derive(Clone, Copy, Debug, PartialEq, Eq, Structural)]
pub struct PriceLevel {
    pub price: u64,
    pub quantity: u64,
}

/// The two ladders of a book.
#[derive(Clone, Copy, Debug, PartialEq, Eq, Structural)]
pub enum Side {
    Bid,
    Ask,
}

/// A ladder after one instruction of an update: quantity zero deletes the
/// price, any other quantity takes the place of what was there.
pub open spec fn apply_level(ladder: Map<u64, u64>, level: PriceLevel) -> Map<u64, u64> {
    if level.quantity == 0 {
        ladder.remove(level.price)
    } else {
        ladder.insert(level.price, level.quantity)
    }
}

/// A ladder after the instructions of an update, taken in order.
pub open spec fn apply_levels(ladder: Map<u64, u64>, levels: Seq<PriceLevel>) -> Map<u64, u64>
    decreases levels.len(),
{
    if levels.len() == 0 {
        ladder
    } else {
        apply_level(apply_levels(ladder, levels.drop_last()), levels.last())
    }
}

/// A ladder after one level of a snapshot has been stored: a level without
/// quantity is skipped, any other is stored and replaces an earlier one at
/// the same price.
pub open spec fn load_level(ladder: Map<u64, u64>, level: PriceLevel) -> Map<u64, u64> {
    if level.quantity == 0 {
        ladder
    } else {
        ladder.insert(level.price, level.quantity)
    }
}

/// The ladder that a snapshot's levels make, starting from nothing.
pub open spec fn load_levels(levels: Seq<PriceLevel>) -> Map<u64, u64>
    decreases levels.len(),
{
    if levels.len() == 0 {
        Map::empty()
    } else {
        load_level(load_levels(levels.drop_last()), levels.last())
    }
}

/// Every price of the ladder carries a quantity above zero, and the ladder is finite.
pub open spec fn ladder_wf(ladder: Map<u64, u64>) -> bool {
    &&& ladder.dom().finite()
    &&& forall|p: u64| ladder.contains_key(p) ==> #[trigger] ladder[p] > 0
}

/// Whether price `a` stands ahead of price `b` on `side`: the higher bid, the lower ask.
pub open spec fn better(side: Side, a: u64, b: u64) -> bool {
    match side {
        Side::Bid => a > b,
        Side::Ask => a < b,
    }
}

/// Whether `levels` names the price `p`.
pub open spec fn lists_price(levels: Seq<PriceLevel>, p: u64) -> bool {
    exists|i: int| 0 <= i < levels.len() && #[trigger] levels[i].price == p
}

/// `out` is the best `n` levels of `ladder` on `side`, best first: as many
/// as asked for or as the ladder holds, each taken from the ladder, strictly
/// ordered, and ahead of every price that was left out.
pub open spec fn is_top_levels(ladder: Map<u64, u64>, side: Side, n: nat, out: Seq<PriceLevel>) -> bool {
    &&& out.len() == if n <= ladder.dom().len() { n } else { ladder.dom().len() }
    &&& forall|i: int|
        0 <= i < out.len() ==> ladder.contains_key(#[trigger] out[i].price) && ladder[out[i].price]
            == out[i].quantity
    &&& forall|i: int, j: int|
        0 <= i < j < out.len() ==> better(side, #[trigger] out[i].price, #[trigger] out[j].price)
    &&& forall|p: u64, i: int|
        #![trigger ladder.contains_key(p), out[i]]
        ladder.contains_key(p) && !lists_price(out, p) && 0 <= i < out.len() ==> better(
            side,
            out[i].price,
            p,
        )
}

proof fn lemma_increasing_is_ascending(s: Seq<u64>)
    requires
        increasing_seq(s),
    ensures
        forall|i: int, j: int| 0 <= i < j < s.len() ==> s[i] < s[j],
{
    broadcast use vstd::std_specs::btree::group_btree_axioms;
    broadcast use vstd::laws_cmp::group_laws_cmp;

    assert forall|i: int, j: int| 0 <= i < j < s.len() implies s[i] < s[j] by {
        assert(s[i].cmp_spec(&s[j]) is Less);
    }
}

/// `all` holds every level of `ladder` once, by rising price.
spec fn is_listing(ladder: Map<u64, u64>, all: Seq<PriceLevel>) -> bool {
    &&& all.len() == ladder.dom().len()
    &&& forall|i: int|
        0 <= i < all.len() ==> ladder.contains_key(#[trigger] all[i].price) && ladder[all[i].price]
            == all[i].quantity
    &&& forall|i: int, j: int|
        0 <= i < j < all.len() ==> #[trigger] all[i].price < #[trigger] all[j].price
    &&& forall|p: u64| ladder.contains_key(p) ==> lists_price(all, p)
}

/// Every level of `ladder`, by rising price.
fn listing(ladder: &BTreeMap<u64, u64>) -> (out: Vec<PriceLevel>)
    ensures
        is_listing(ladder@, out@),
{
    let mut out: Vec<PriceLevel> = Vec::new();
    let iter = ladder.iter();
    let ghost all = iter.remaining();
    proof {
        broadcast use vstd::std_specs::btree::group_btree_axioms;
        broadcast use vstd::laws_cmp::group_laws_cmp;

        let keys = all.map_values(|kv: (&u64, &u64)| *kv.0);
        lemma_increasing_is_ascending(keys);
        assert forall|i: int, j: int| 0 <= i < j < all.len() implies *all[i].0 < *all[j].0 by {
            assert(keys[i] < keys[j]);
        }
        assert forall|p: u64| ladder@.contains_key(p) implies exists|i: int|
            0 <= i < all.len() && *(#[trigger] all[i]).0 == p by {
            assert(all.contains((&p, &ladder@[p])));
        }
    }
    for kv in it: iter
        invariant
            it.seq() == all,
            all.len() == ladder@.dom().len(),
            forall|i: int|
                0 <= i < all.len() ==> ladder@.contains_key(*(#[trigger] all[i]).0)
                    && ladder@[*all[i].0] == *all[i].1,
            forall|i: int, j: int| 0 <= i < j < all.len() ==> *all[i].0 < *all[j].0,
            forall|p: u64|
                ladder@.contains_key(p) ==> exists|i: int|
                    0 <= i < all.len() && *(#[trigger] all[i]).0 == p,
            out@.len() == it.index(),
            forall|i: int|
                0 <= i < out@.len() ==> (#[trigger] out@[i]).price == *all[i].0 && out@[i].quantity
                    == *all[i].1,
    {
        out.push(PriceLevel { price: *kv.0, quantity: *kv.1 });
    }
    proof {
        assert forall|p: u64| ladder@.contains_key(p) implies lists_price(out@, p) by {
            let i = choose|i: int| 0 <= i < all.len() && *(#[trigger] all[i]).0 == p;
            assert(out@[i].price == p);
        }
    }
    out
}

/// Carries out the instructions of `quotes` on `ladder`, in order.
fn apply_side(ladder: &mut BTreeMap<u64, u64>, quotes: &Vec<WsQuote>)
    requires
        ladder_wf(old(ladder)@),
    ensures
        final(ladder)@ == apply_levels(old(ladder)@, ws_levels(quotes@)),
        ladder_wf(final(ladder)@),
{
    let ghost levels = ws_levels(quotes@);
    let mut i: usize = 0;
    while i < quotes.len()
        invariant
            i <= quotes.len(),
            levels == ws_levels(quotes@),
            ladder@ == apply_levels(old(ladder)@, levels.take(i as int)),
            ladder_wf(ladder@),
        decreases quotes.len() - i,
    {
        let quote = quotes[i];
        proof {
            assert(levels.take(i + 1).drop_last() == levels.take(i as int));
            assert(levels.take(i + 1).last() == quote.level());
        }
        if quote.quantity == 0 {
            ladder.remove(&quote.price);
        } else {
            ladder.insert(quote.price, quote.quantity);
        }
        i += 1;
    }
    assert(levels.take(i as int) == levels);
}

/// Empties `ladder` and stores the levels of `quotes`, in order.
fn load_side(ladder: &mut BTreeMap<u64, u64>, quotes: &Vec<RestQuote>)
    ensures
        final(ladder)@ == load_levels(rest_levels(quotes@)),
        ladder_wf(final(ladder)@),
{
    let ghost levels = rest_levels(quotes@);
    ladder.clear();
    let mut i: usize = 0;
    while i < quotes.len()
        invariant
            i <= quotes.len(),
            levels == rest_levels(quotes@),
            ladder@ == load_levels(levels.take(i as int)),
            ladder_wf(ladder@),
        decreases quotes.len() - i,
    {
        let quote = quotes[i];
        proof {
            assert(levels.take(i + 1).drop_last() == levels.take(i as int));
            assert(levels.take(i + 1).last() == quote.level());
        }
        if quote.quantity != 0 {
            ladder.insert(quote.price, quote.quantity);
        }
        i += 1;
    }
    assert(levels.take(i as int) == levels);
}

/// The current bids and asks of one symbol.
pub struct LocalOrderBook {
    bids: BTreeMap<u64, u64>,
    asks: BTreeMap<u64, u64>,
}

impl LocalOrderBook {
    /// The bid ladder: price to quantity.
    pub closed spec fn bids(&self) -> Map<u64, u64> {
        self.bids@
    }

    /// The ask ladder: price to quantity.
    pub closed spec fn asks(&self) -> Map<u64, u64> {
        self.asks@
    }

    /// The ladder of one side.
    pub open spec fn ladder(&self, side: Side) -> Map<u64, u64> {
        match side {
            Side::Bid => self.bids(),
            Side::Ask => self.asks(),
        }
    }

    /// No price is stored without quantity, on either side.
    pub open spec fn wf(&self) -> bool {
        ladder_wf(self.bids()) && ladder_wf(self.asks())
    }

    /// A book with nothing on either side.
    pub fn new() -> (book: Self)
        ensures
            book.bids() == Map::<u64, u64>::empty(),
            book.asks() == Map::<u64, u64>::empty(),
            book.wf(),
    {
        Self { bids: BTreeMap::new(), asks: BTreeMap::new() }
    }

    /// Drops everything the book holds and stores the levels of `data` in
    /// its place. A level without quantity is not stored.
    pub fn apply_snapshot(&mut self, data: SnapshotData)
        ensures
            final(self).bids() == load_levels(rest_levels(data.bids@)),
            final(self).asks() == load_levels(rest_levels(data.asks@)),
            final(self).wf(),
    {
        load_side(&mut self.bids, &data.bids);
        load_side(&mut self.asks, &data.asks);
    }

    /// Carries out the instructions of `delta` on both ladders, each side by
    /// itself: quantity zero deletes the price if it is there, any other
    /// quantity is stored in place of what was there.
    pub fn apply_delta(&mut self, delta: OrderBookDelta)
        requires
            old(self).wf(),
        ensures
            final(self).bids() == apply_levels(old(self).bids(), ws_levels(delta.bids@)),
            final(self).asks() == apply_levels(old(self).asks(), ws_levels(delta.asks@)),
            final(self).wf(),
    {
        apply_side(&mut self.bids, &delta.bids);
        apply_side(&mut self.asks, &delta.asks);
    }

    /// The best `n` levels of `side`, best first: bids by falling price, asks
    /// by rising price. Fewer than `n` where the side holds fewer.
    pub fn top_levels(&self, side: Side, n: usize) -> (out: Vec<PriceLevel>)
        ensures
            is_top_levels(self.ladder(side), side, n as nat, out@),
            out@.len() <= n,
            forall|i: int, j: int|
                0 <= i < j < out@.len() ==> better(
                    side,
                    #[trigger] out@[i].price,
                    #[trigger] out@[j].price,
                ),
            self.wf() ==> forall|i: int| 0 <= i < out@.len() ==> (#[trigger] out@[i]).quantity > 0,
    {
        let all = match side {
            Side::Bid => listing(&self.bids),
            Side::Ask => listing(&self.asks),
        };
        let count = if n <= all.len() { n } else { all.len() };
        let mut out: Vec<PriceLevel> = Vec::new();
        let mut k: usize = 0;
        while k < count
            invariant
                k <= count <= all@.len(),
                n <= all@.len() ==> count == n,
                n > all@.len() ==> count == all@.len(),
                is_listing(self.ladder(side), all@),
                out@.len() == k,
                forall|i: int|
                    0 <= i < k ==> #[trigger] out@[i] == (match side {
                        Side::Bid => all@[all@.len() - 1 - i],
                        Side::Ask => all@[i],
                    }),
            decreases count - k,
        {
            let level = match side {
                Side::Bid => all[all.len() - 1 - k],
                Side::Ask => all[k],
            };
            out.push(level);
            k += 1;
        }
        proof {
            let ladder = self.ladder(side);
            if self.wf() {
                assert forall|i: int| 0 <= i < out@.len() implies (#[trigger] out@[i]).quantity
                    > 0 by {
                    assert(ladder[out@[i].price] == out@[i].quantity);
                }
            }
            assert forall|p: u64, i: int|
                #![trigger ladder.contains_key(p), out@[i]]
                ladder.contains_key(p) && !lists_price(out@, p) && 0 <= i < out@.len() implies better(
                side,
                out@[i].price,
                p,
            ) by {
                assert(lists_price(all@, p));
                let j = choose|j: int| 0 <= j < all@.len() && #[trigger] all@[j].price == p;
                match side {
                    Side::Bid => {
                        if j >= all@.len() - count {
                            assert(out@[all@.len() - 1 - j].price == p);
                        }
                    },
                    Side::Ask => {
                        if j < count {
                            assert(out@[j].price == p);
                        }
                    },
                }
            }
        }
        out
    }
}

} // verus!
