use orderbook_sync::exchange_api_types::{OrderBookDelta, RestQuote, SnapshotData, WsQuote};
use orderbook_sync::orderbook::{LocalOrderBook, PriceLevel, Side};

fn rest(price: u64, quantity: u64) -> RestQuote {
    RestQuote { price, quantity }
}

fn ws(price: u64, quantity: u64) -> WsQuote {
    WsQuote { price, quantity }
}

fn level(price: u64, quantity: u64) -> PriceLevel {
    PriceLevel { price, quantity }
}

fn delta(bids: Vec<WsQuote>, asks: Vec<WsQuote>) -> OrderBookDelta {
    OrderBookDelta { prev_ts: 0, bids, asks }
}

fn loaded(bids: Vec<RestQuote>, asks: Vec<RestQuote>) -> LocalOrderBook {
    let mut book = LocalOrderBook::new();
    book.apply_snapshot(SnapshotData { bids, asks });
    book
}

#[test]
fn new_book_is_empty_and_never_errors() {
    let book = LocalOrderBook::new();
    assert_eq!(book.top_levels(Side::Bid, 5), vec![]);
    assert_eq!(book.top_levels(Side::Ask, 5), vec![]);
    assert_eq!(book.top_levels(Side::Ask, 0), vec![]);
}

#[test]
fn bids_come_by_falling_price_and_asks_by_rising_price() {
    let book = loaded(
        vec![rest(99, 1), rest(101, 2), rest(100, 3)],
        vec![rest(105, 4), rest(103, 5), rest(104, 6)],
    );
    assert_eq!(
        book.top_levels(Side::Bid, 5),
        vec![level(101, 2), level(100, 3), level(99, 1)]
    );
    assert_eq!(
        book.top_levels(Side::Ask, 5),
        vec![level(103, 5), level(104, 6), level(105, 4)]
    );
}

#[test]
fn top_levels_gives_at_most_n_and_the_best_ones() {
    let book = loaded(
        vec![rest(1, 1), rest(2, 1), rest(3, 1), rest(4, 1), rest(5, 1), rest(6, 1), rest(7, 1)],
        vec![rest(11, 1), rest(12, 1), rest(13, 1), rest(14, 1), rest(15, 1), rest(16, 1)],
    );
    assert_eq!(book.top_levels(Side::Bid, 2), vec![level(7, 1), level(6, 1)]);
    assert_eq!(book.top_levels(Side::Ask, 2), vec![level(11, 1), level(12, 1)]);
    assert_eq!(book.top_levels(Side::Bid, 0), vec![]);
    assert_eq!(book.top_levels(Side::Bid, 5).len(), 5);
    assert_eq!(book.top_levels(Side::Ask, 100).len(), 6);
    for n in 0..10 {
        let bids = book.top_levels(Side::Bid, n);
        let asks = book.top_levels(Side::Ask, n);
        assert!(bids.len() <= n && asks.len() <= n);
        assert!(bids.windows(2).all(|pair| pair[0].price > pair[1].price));
        assert!(asks.windows(2).all(|pair| pair[0].price < pair[1].price));
    }
}

#[test]
fn extreme_prices_are_ordered_like_any_other() {
    let book = loaded(vec![rest(u64::MAX, 1), rest(0, 2)], vec![rest(u64::MAX, 3), rest(0, 4)]);
    assert_eq!(book.top_levels(Side::Bid, 1), vec![level(u64::MAX, 1)]);
    assert_eq!(book.top_levels(Side::Ask, 1), vec![level(0, 4)]);
}

#[test]
fn snapshot_discards_what_the_book_held() {
    let mut book = loaded(vec![rest(100, 1), rest(99, 2)], vec![rest(101, 3)]);
    book.apply_snapshot(SnapshotData { bids: vec![rest(98, 7)], asks: vec![] });
    assert_eq!(book.top_levels(Side::Bid, 5), vec![level(98, 7)]);
    assert_eq!(book.top_levels(Side::Ask, 5), vec![]);
}

#[test]
fn snapshot_skips_levels_without_quantity() {
    let book = loaded(vec![rest(100, 0), rest(99, 2)], vec![rest(101, 3), rest(101, 0)]);
    assert_eq!(book.top_levels(Side::Bid, 5), vec![level(99, 2)]);
    assert_eq!(book.top_levels(Side::Ask, 5), vec![level(101, 3)]);
}

#[test]
fn snapshot_keeps_the_last_quantity_of_a_repeated_price() {
    let book = loaded(vec![rest(100, 1), rest(100, 9)], vec![]);
    assert_eq!(book.top_levels(Side::Bid, 5), vec![level(100, 9)]);
}

#[test]
fn snapshot_round_trip_gives_its_levels_back_sorted() {
    let bids = vec![rest(5, 50), rest(9, 90), rest(1, 10), rest(7, 70)];
    let asks = vec![rest(15, 1), rest(11, 2), rest(19, 3)];
    let book = loaded(bids.clone(), asks.clone());
    let mut want_bids: Vec<PriceLevel> = bids.iter().map(|q| level(q.price, q.quantity)).collect();
    want_bids.sort_by(|a, b| b.price.cmp(&a.price));
    let mut want_asks: Vec<PriceLevel> = asks.iter().map(|q| level(q.price, q.quantity)).collect();
    want_asks.sort_by(|a, b| a.price.cmp(&b.price));
    assert_eq!(book.top_levels(Side::Bid, bids.len()), want_bids);
    assert_eq!(book.top_levels(Side::Ask, asks.len()), want_asks);
    assert_eq!(book.top_levels(Side::Bid, 50), want_bids);
}

#[test]
fn delta_with_zero_quantity_removes_a_present_price() {
    let mut book = loaded(vec![rest(100, 1), rest(99, 2)], vec![rest(101, 3)]);
    book.apply_delta(delta(vec![ws(100, 0)], vec![]));
    assert_eq!(book.top_levels(Side::Bid, 5), vec![level(99, 2)]);
    assert_eq!(book.top_levels(Side::Ask, 5), vec![level(101, 3)]);
}

#[test]
fn delta_with_zero_quantity_on_an_absent_price_changes_nothing() {
    let mut book = loaded(vec![rest(100, 1)], vec![rest(101, 3)]);
    book.apply_delta(delta(vec![ws(98, 0)], vec![ws(150, 0)]));
    assert_eq!(book.top_levels(Side::Bid, 5), vec![level(100, 1)]);
    assert_eq!(book.top_levels(Side::Ask, 5), vec![level(101, 3)]);
}

#[test]
fn delta_inserts_and_replaces() {
    let mut book = loaded(vec![rest(100, 1)], vec![rest(101, 3)]);
    book.apply_delta(delta(vec![ws(100, 5), ws(99, 6)], vec![ws(102, 7)]));
    assert_eq!(book.top_levels(Side::Bid, 5), vec![level(100, 5), level(99, 6)]);
    assert_eq!(book.top_levels(Side::Ask, 5), vec![level(101, 3), level(102, 7)]);
}

#[test]
fn delta_instructions_are_taken_in_order() {
    let mut book = LocalOrderBook::new();
    book.apply_delta(delta(vec![ws(100, 5), ws(100, 0), ws(99, 0), ws(99, 4)], vec![]));
    assert_eq!(book.top_levels(Side::Bid, 5), vec![level(99, 4)]);
}

#[test]
fn delta_on_one_side_leaves_the_other_untouched() {
    let mut book = loaded(vec![rest(100, 1)], vec![rest(101, 3)]);
    book.apply_delta(delta(vec![], vec![ws(101, 0), ws(103, 2)]));
    assert_eq!(book.top_levels(Side::Bid, 5), vec![level(100, 1)]);
    assert_eq!(book.top_levels(Side::Ask, 5), vec![level(103, 2)]);
}

#[test]
fn crossed_books_are_not_rejected() {
    let book = loaded(vec![rest(105, 1)], vec![rest(100, 1)]);
    assert_eq!(book.top_levels(Side::Bid, 1), vec![level(105, 1)]);
    assert_eq!(book.top_levels(Side::Ask, 1), vec![level(100, 1)]);
}

#[test]
fn no_stored_level_is_without_quantity() {
    let mut book = loaded(vec![rest(3, 0), rest(2, 1)], vec![rest(4, 0)]);
    book.apply_delta(delta(vec![ws(2, 0), ws(1, 1), ws(5, 0)], vec![ws(9, 3), ws(9, 0), ws(8, 2)]));
    book.apply_delta(delta(vec![ws(7, 7)], vec![ws(8, 0)]));
    for side in [Side::Bid, Side::Ask] {
        for found in book.top_levels(side, 100) {
            assert!(found.quantity > 0);
        }
    }
    assert_eq!(book.top_levels(Side::Bid, 100), vec![level(7, 7), level(1, 1)]);
    assert_eq!(book.top_levels(Side::Ask, 100), vec![]);
}
