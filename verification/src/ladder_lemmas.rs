use crate::orderbook::{
    apply_level, apply_levels, better, is_top_levels, ladder_wf, lists_price, load_levels,
    PriceLevel, Side,
};
use vstd::prelude::*;

verus! {

/// No two of `levels` share a price.
pub open spec fn distinct_prices(levels: Seq<PriceLevel>) -> bool {
    forall|i: int, j: int|
        0 <= i < j < levels.len() ==> #[trigger] levels[i].price != #[trigger] levels[j].price
}

/// Every one of `levels` carries a quantity above zero.
pub open spec fn all_positive(levels: Seq<PriceLevel>) -> bool {
    forall|i: int| 0 <= i < levels.len() ==> (#[trigger] levels[i]).quantity > 0
}

/// An update never leaves a price without quantity behind: a ladder whose
/// quantities are all above zero has that property after any instructions.
pub proof fn lemma_apply_levels_keeps_wf(ladder: Map<u64, u64>, levels: Seq<PriceLevel>)
    requires
        ladder_wf(ladder),
    ensures
        ladder_wf(apply_levels(ladder, levels)),
    decreases levels.len(),
{
    if levels.len() > 0 {
        lemma_apply_levels_keeps_wf(ladder, levels.drop_last());
    }
}

/// A snapshot never stores a price without quantity, whatever its levels.
pub proof fn lemma_load_levels_wf(levels: Seq<PriceLevel>)
    ensures
        ladder_wf(load_levels(levels)),
    decreases levels.len(),
{
    if levels.len() > 0 {
        lemma_load_levels_wf(levels.drop_last());
    }
}

/// An instruction with quantity zero removes its price and touches nothing
/// else; where the ladder does not hold the price, the ladder stays as it was.
pub proof fn lemma_zero_quantity_deletes(ladder: Map<u64, u64>, price: u64)
    ensures
        apply_levels(ladder, seq![PriceLevel { price, quantity: 0 }]) == ladder.remove(price),
        !apply_levels(ladder, seq![PriceLevel { price, quantity: 0 }]).contains_key(price),
        !ladder.contains_key(price) ==> apply_levels(
            ladder,
            seq![PriceLevel { price, quantity: 0 }],
        ) == ladder,
{
    let one = seq![PriceLevel { price, quantity: 0 }];
    assert(one.drop_last() == Seq::<PriceLevel>::empty());
    assert(apply_levels(ladder, one.drop_last()) == ladder);
    assert(apply_levels(ladder, one) == apply_level(ladder, one.last()));
    if !ladder.contains_key(price) {
        assert(ladder.remove(price) =~= ladder);
    }
}

/// An instruction with a quantity above zero stores that quantity at its
/// price, whether or not the price was there, and touches nothing else.
pub proof fn lemma_positive_quantity_stores(ladder: Map<u64, u64>, level: PriceLevel)
    requires
        level.quantity > 0,
    ensures
        apply_levels(ladder, seq![level]) == ladder.insert(level.price, level.quantity),
{
    let one = seq![level];
    assert(one.drop_last() == Seq::<PriceLevel>::empty());
    assert(apply_levels(ladder, one.drop_last()) == ladder);
    assert(apply_levels(ladder, one) == apply_level(ladder, one.last()));
}

/// An update without instructions leaves the ladder as it was.
pub proof fn lemma_no_instructions(ladder: Map<u64, u64>)
    ensures
        apply_levels(ladder, Seq::<PriceLevel>::empty()) == ladder,
{
}

/// A loaded ladder holds exactly the prices that the snapshot names with a
/// quantity above zero, each with a quantity that the snapshot gives it.
pub proof fn lemma_load_levels_domain(levels: Seq<PriceLevel>, p: u64)
    ensures
        load_levels(levels).contains_key(p) <==> exists|i: int|
            0 <= i < levels.len() && (#[trigger] levels[i]).price == p && levels[i].quantity > 0,
        load_levels(levels).contains_key(p) ==> exists|i: int|
            0 <= i < levels.len() && (#[trigger] levels[i]).price == p && levels[i].quantity
                == load_levels(levels)[p],
    decreases levels.len(),
{
    if levels.len() > 0 {
        let init = levels.drop_last();
        let last = levels.last();
        lemma_load_levels_domain(init, p);
        if load_levels(init).contains_key(p) {
            let i = choose|i: int|
                0 <= i < init.len() && (#[trigger] init[i]).price == p && init[i].quantity > 0;
            assert(levels[i].price == p && levels[i].quantity > 0);
            let j = choose|j: int|
                0 <= j < init.len() && (#[trigger] init[j]).price == p && init[j].quantity
                    == load_levels(init)[p];
            assert(levels[j].price == p);
        }
        if last.price == p && last.quantity > 0 {
            assert(levels[levels.len() - 1].price == p);
        }
        if load_levels(levels).contains_key(p) {
            if last.price == p && last.quantity > 0 {
                assert(levels[levels.len() - 1].quantity == load_levels(levels)[p]);
            } else {
                assert(load_levels(init).contains_key(p));
                assert(load_levels(levels)[p] == load_levels(init)[p]);
            }
        }
        if exists|i: int|
            0 <= i < levels.len() && (#[trigger] levels[i]).price == p && levels[i].quantity > 0 {
            let i = choose|i: int|
                0 <= i < levels.len() && (#[trigger] levels[i]).price == p && levels[i].quantity
                    > 0;
            if i < init.len() {
                assert(init[i].price == p && init[i].quantity > 0);
            }
        }
    }
}

/// A snapshot forgets what came before it: a price that the snapshot does
/// not name is not in the loaded ladder, whatever the book held.
pub proof fn lemma_snapshot_forgets(levels: Seq<PriceLevel>, p: u64)
    requires
        !lists_price(levels, p),
    ensures
        !load_levels(levels).contains_key(p),
{
    lemma_load_levels_domain(levels, p);
}

proof fn lemma_top_levels_agree_at(
    ladder: Map<u64, u64>,
    side: Side,
    n: nat,
    a: Seq<PriceLevel>,
    b: Seq<PriceLevel>,
    k: int,
)
    requires
        is_top_levels(ladder, side, n, a),
        is_top_levels(ladder, side, n, b),
        0 <= k <= a.len(),
    ensures
        forall|i: int| 0 <= i < k ==> a[i] == b[i],
    decreases k,
{
    if k > 0 {
        lemma_top_levels_agree_at(ladder, side, n, a, b, k - 1);
        let i = k - 1;
        let pa = a[i].price;
        let pb = b[i].price;
        assert(ladder.contains_key(pa) && ladder.contains_key(pb));
        if pa != pb {
            if better(side, pa, pb) {
                if lists_price(b, pa) {
                    let j = choose|j: int| 0 <= j < b.len() && #[trigger] b[j].price == pa;
                    if j < i {
                        assert(a[j] == b[j]);
                        assert(better(side, a[j].price, a[i].price));
                    } else {
                        assert(better(side, b[i].price, b[j].price));
                    }
                } else {
                    assert(better(side, b[i].price, pa));
                }
            } else {
                assert(better(side, pb, pa));
                if lists_price(a, pb) {
                    let j = choose|j: int| 0 <= j < a.len() && #[trigger] a[j].price == pb;
                    if j < i {
                        assert(a[j] == b[j]);
                        assert(better(side, b[j].price, b[i].price));
                    } else {
                        assert(better(side, a[i].price, a[j].price));
                    }
                } else {
                    assert(better(side, a[i].price, pb));
                }
            }
            assert(false);
        }
        assert(a[i].quantity == ladder[pa]);
        assert(b[i].quantity == ladder[pb]);
    }
}

/// A ladder has one answer to "the best `n` levels of this side": two
/// sequences that both are the best `n` levels are the same sequence.
pub proof fn lemma_top_levels_unique(
    ladder: Map<u64, u64>,
    side: Side,
    n: nat,
    a: Seq<PriceLevel>,
    b: Seq<PriceLevel>,
)
    requires
        is_top_levels(ladder, side, n, a),
        is_top_levels(ladder, side, n, b),
    ensures
        a == b,
{
    lemma_top_levels_agree_at(ladder, side, n, a, b, a.len() as int);
    assert(a =~= b);
}

/// The best levels of a side are at most as many as asked for and strictly
/// ordered: bids by falling price, asks by rising price.
pub proof fn lemma_top_levels_bounded_and_ordered(
    ladder: Map<u64, u64>,
    side: Side,
    n: nat,
    out: Seq<PriceLevel>,
)
    requires
        is_top_levels(ladder, side, n, out),
    ensures
        out.len() <= n,
        side == Side::Bid ==> forall|i: int, j: int|
            0 <= i < j < out.len() ==> #[trigger] out[i].price > #[trigger] out[j].price,
        side == Side::Ask ==> forall|i: int, j: int|
            0 <= i < j < out.len() ==> #[trigger] out[i].price < #[trigger] out[j].price,
{
    assert forall|i: int, j: int| 0 <= i < j < out.len() implies better(
        side,
        #[trigger] out[i].price,
        #[trigger] out[j].price,
    ) by {}
}

/// A snapshot whose levels have distinct prices and quantities above zero
/// loads into a ladder with one price for each level.
pub proof fn lemma_load_levels_len(levels: Seq<PriceLevel>)
    requires
        distinct_prices(levels),
        all_positive(levels),
    ensures
        load_levels(levels).dom().finite(),
        load_levels(levels).dom().len() == levels.len(),
        forall|i: int|
            0 <= i < levels.len() ==> load_levels(levels).contains_key(
                (#[trigger] levels[i]).price,
            ) && load_levels(levels)[levels[i].price] == levels[i].quantity,
    decreases levels.len(),
{
    if levels.len() > 0 {
        let init = levels.drop_last();
        let last = levels.last();
        lemma_load_levels_len(init);
        lemma_load_levels_domain(init, last.price);
        if load_levels(init).contains_key(last.price) {
            let i = choose|i: int|
                0 <= i < init.len() && (#[trigger] init[i]).price == last.price
                    && init[i].quantity > 0;
            assert(levels[i].price != levels[levels.len() - 1].price);
        }
        assert(load_levels(levels) == load_levels(init).insert(last.price, last.quantity));
        assert forall|i: int| 0 <= i < levels.len() implies load_levels(levels).contains_key(
            (#[trigger] levels[i]).price,
        ) && load_levels(levels)[levels[i].price] == levels[i].quantity by {
            if i < init.len() {
                assert(init[i] == levels[i]);
                assert(levels[i].price != levels[levels.len() - 1].price);
            }
        }
    }
}

/// Loading a snapshot and reading a side back in full gives the snapshot's
/// own levels, each once, in the side's order: where the snapshot's levels
/// have distinct prices and quantities above zero, and at least as many
/// levels are asked for as it holds.
pub proof fn lemma_snapshot_round_trip(
    levels: Seq<PriceLevel>,
    side: Side,
    n: nat,
    out: Seq<PriceLevel>,
)
    requires
        distinct_prices(levels),
        all_positive(levels),
        n >= levels.len(),
        is_top_levels(load_levels(levels), side, n, out),
    ensures
        out.len() == levels.len(),
        forall|i: int| 0 <= i < out.len() ==> levels.contains(#[trigger] out[i]),
        forall|i: int| 0 <= i < levels.len() ==> out.contains(#[trigger] levels[i]),
        forall|i: int, j: int|
            0 <= i < j < out.len() ==> better(side, #[trigger] out[i].price, #[trigger] out[j].price),
{
    let ladder = load_levels(levels);
    lemma_load_levels_len(levels);
    assert forall|i: int| 0 <= i < out.len() implies levels.contains(#[trigger] out[i]) by {
        let p = out[i].price;
        lemma_load_levels_domain(levels, p);
        let j = choose|j: int|
            0 <= j < levels.len() && (#[trigger] levels[j]).price == p && levels[j].quantity
                == ladder[p];
        assert(levels[j] == out[i]);
    }
    // The listed prices are as many as the ladder's and all among them, so none is missing.
    let prices = Seq::new(out.len(), |i: int| out[i].price);
    assert(prices.no_duplicates()) by {
        assert forall|i: int, j: int| 0 <= i < j < prices.len() implies prices[i] != prices[j] by {
            assert(better(side, out[i].price, out[j].price));
        }
    }
    prices.unique_seq_to_set();
    assert(prices.to_set().subset_of(ladder.dom())) by {
        assert forall|p: u64| prices.to_set().contains(p) implies ladder.dom().contains(p) by {
            let i = choose|i: int| 0 <= i < prices.len() && prices[i] == p;
            assert(ladder.contains_key(out[i].price));
        }
    }
    vstd::set_lib::lemma_subset_equality(prices.to_set(), ladder.dom());
    assert forall|i: int| 0 <= i < levels.len() implies out.contains(#[trigger] levels[i]) by {
        let p = levels[i].price;
        assert(ladder.dom().contains(p));
        assert(prices.to_set().contains(p));
        let k = choose|k: int| 0 <= k < prices.len() && prices[k] == p;
        assert(out[k].price == p);
        assert(out[k].quantity == ladder[p]);
        assert(out[k] == levels[i]);
    }
}

} // verus!
