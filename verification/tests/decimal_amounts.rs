use orderbook_sync::decimal::{parse_decimal, DecimalError, FRACTION_DIGITS, UNITS_PER_ONE};
use orderbook_sync::exchange_api_types::{
    rest_quotes_from_fields, ws_quotes_from_fields, MarketEvent, OrderBookDelta, QuoteError,
    RestQuote, WsMessage, WsQuote,
};

fn strings(items: &[&str]) -> Vec<String> {
    items.iter().map(|s| s.to_string()).collect()
}

#[test]
fn units_per_one_is_ten_to_the_fraction_digits() {
    assert_eq!(UNITS_PER_ONE, 10u64.pow(FRACTION_DIGITS as u32));
}

#[test]
fn whole_numbers_and_fractions_parse_exactly() {
    assert_eq!(parse_decimal("100"), Ok(100 * UNITS_PER_ONE));
    assert_eq!(parse_decimal("100.5"), Ok(100 * UNITS_PER_ONE + UNITS_PER_ONE / 2));
    assert_eq!(parse_decimal("1.0"), Ok(UNITS_PER_ONE));
    assert_eq!(parse_decimal("0.0"), Ok(0));
    assert_eq!(parse_decimal("0"), Ok(0));
    assert_eq!(parse_decimal("0.00000001"), Ok(1));
    assert_eq!(parse_decimal("3456.12"), Ok(345_612_000_000));
    assert_eq!(parse_decimal("0012.3400"), Ok(1_234_000_000));
    assert_eq!(parse_decimal("12345678.12345678"), Ok(1_234_567_812_345_678));
}

#[test]
fn a_point_may_stand_first_or_last() {
    assert_eq!(parse_decimal(".5"), Ok(UNITS_PER_ONE / 2));
    assert_eq!(parse_decimal("5."), Ok(5 * UNITS_PER_ONE));
}

#[test]
fn text_that_is_no_plain_decimal_is_malformed() {
    for text in [
        "", ".", "abc", "1.2.3", "1..2", "-1", "+1", "1e3", " 1", "1 ", "1,5", "NaN", "inf",
        "1.5x", "x1.5", "1.x5", "\u{663}", "1.\u{e9}",
    ] {
        assert_eq!(parse_decimal(text), Err(DecimalError::Malformed), "{:?}", text);
    }
}

#[test]
fn more_digits_than_an_amount_carries_is_too_precise() {
    assert_eq!(parse_decimal("1.123456789"), Err(DecimalError::TooPrecise));
    assert_eq!(parse_decimal("1.000000000"), Err(DecimalError::TooPrecise));
    assert_eq!(parse_decimal(".123456789"), Err(DecimalError::TooPrecise));
    assert_eq!(parse_decimal("1.12345678x"), Err(DecimalError::Malformed));
}

#[test]
fn the_largest_amount_parses_and_one_unit_more_does_not() {
    assert_eq!(parse_decimal("184467440737.09551615"), Ok(u64::MAX));
    assert_eq!(parse_decimal("184467440737.09551616"), Err(DecimalError::TooLarge));
    assert_eq!(parse_decimal("184467440737.1"), Err(DecimalError::TooLarge));
    assert_eq!(parse_decimal("184467440738"), Err(DecimalError::TooLarge));
    assert_eq!(parse_decimal("184467440737"), Ok(18_446_744_073_700_000_000));
    assert_eq!(
        parse_decimal("99999999999999999999999999999999999999999999999999"),
        Err(DecimalError::TooLarge)
    );
    assert_eq!(
        parse_decimal("99999999999999999999999999999999999999999.123456789"),
        Err(DecimalError::TooPrecise)
    );
    assert_eq!(parse_decimal("000000000000000000000000000000000000001"), Ok(UNITS_PER_ONE));
}

#[test]
fn stream_quote_is_read_from_the_first_two_strings() {
    assert_eq!(
        WsQuote::from_fields(&strings(&["100.5", "2.0"])),
        Ok(WsQuote { price: 100 * UNITS_PER_ONE + UNITS_PER_ONE / 2, quantity: 2 * UNITS_PER_ONE })
    );
    assert_eq!(
        WsQuote::from_fields(&strings(&["100", "0.0", "ignored"])),
        Ok(WsQuote { price: 100 * UNITS_PER_ONE, quantity: 0 })
    );
}

#[test]
fn stream_quote_errors() {
    assert_eq!(WsQuote::from_fields(&strings(&[])), Err(QuoteError::TooShort));
    assert_eq!(WsQuote::from_fields(&strings(&["1"])), Err(QuoteError::TooShort));
    assert_eq!(
        WsQuote::from_fields(&strings(&["x", "y"])),
        Err(QuoteError::Price(DecimalError::Malformed))
    );
    assert_eq!(
        WsQuote::from_fields(&strings(&["1", "1.000000001"])),
        Err(QuoteError::Quantity(DecimalError::TooPrecise))
    );
    assert_eq!(
        WsQuote::from_fields(&strings(&["184467440738", "1"])),
        Err(QuoteError::Price(DecimalError::TooLarge))
    );
}

#[test]
fn snapshot_quote_is_read_from_its_two_fields() {
    assert_eq!(
        RestQuote::from_fields("101", "1.0"),
        Ok(RestQuote { price: 101 * UNITS_PER_ONE, quantity: UNITS_PER_ONE })
    );
    assert_eq!(
        RestQuote::from_fields("101", ""),
        Err(QuoteError::Quantity(DecimalError::Malformed))
    );
    assert_eq!(
        RestQuote::from_fields("1e5", ""),
        Err(QuoteError::Price(DecimalError::Malformed))
    );
}

#[test]
fn one_bad_record_fails_the_side_with_the_first_error() {
    let good = vec![strings(&["1", "2"]), strings(&["3", "4"])];
    assert_eq!(
        ws_quotes_from_fields(&good),
        Ok(vec![
            WsQuote { price: UNITS_PER_ONE, quantity: 2 * UNITS_PER_ONE },
            WsQuote { price: 3 * UNITS_PER_ONE, quantity: 4 * UNITS_PER_ONE },
        ])
    );
    let bad = vec![strings(&["1", "2"]), strings(&["3"]), strings(&["x", "4"])];
    assert_eq!(ws_quotes_from_fields(&bad), Err(QuoteError::TooShort));
    assert_eq!(ws_quotes_from_fields(&vec![]), Ok(vec![]));

    let rest_good = vec![("1".to_string(), "2".to_string())];
    assert_eq!(
        rest_quotes_from_fields(&rest_good),
        Ok(vec![RestQuote { price: UNITS_PER_ONE, quantity: 2 * UNITS_PER_ONE }])
    );
    let rest_bad = vec![
        ("1".to_string(), "2".to_string()),
        ("1".to_string(), "two".to_string()),
        ("one".to_string(), "2".to_string()),
    ];
    assert_eq!(
        rest_quotes_from_fields(&rest_bad),
        Err(QuoteError::Quantity(DecimalError::Malformed))
    );
}

#[test]
fn only_a_frame_with_sequence_and_payload_is_an_event() {
    let payload = || OrderBookDelta {
        prev_ts: 41,
        bids: vec![WsQuote { price: 1, quantity: 2 }],
        asks: vec![],
    };
    let event: Option<MarketEvent> = WsMessage { ts: Some(42), data: Some(payload()) }.into_event();
    let event = event.expect("both parts are there");
    assert_eq!(event.ts, 42);
    assert_eq!(event.prev_ts, 41);
    assert_eq!(event.delta.prev_ts, 41);
    assert_eq!(event.delta.bids, vec![WsQuote { price: 1, quantity: 2 }]);
    assert!(event.delta.asks.is_empty());
    assert!(WsMessage { ts: None, data: Some(payload()) }.into_event().is_none());
    assert!(WsMessage { ts: Some(42), data: None }.into_event().is_none());
    assert!(WsMessage { ts: None, data: None }.into_event().is_none());
}
