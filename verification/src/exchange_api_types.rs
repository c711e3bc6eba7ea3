use crate::decimal::{parse_decimal, parse_decimal_spec, DecimalError};
use crate::orderbook::PriceLevel;
use vstd::prelude::*;
use vstd::string::*;
use vstd::utf8::encode_utf8;

verus! {

/// A price level as the update stream carries it: a two-element array
/// `[price, quantity]` of decimal strings on the wire.
#[derive(Clone, Copy, Debug, PartialEq, Eq, Structural)]
pub struct WsQuote {
    pub price: u64,
    pub quantity: u64,
}

/// A price level as the snapshot endpoint carries it: an object with a
/// `price` and a `quantity` field, both decimal strings on the wire.
#[derive(Clone, Copy, Debug, PartialEq, Eq, Structural)]
pub struct RestQuote {
    pub price: u64,
    pub quantity: u64,
}

/// Why a record of the wire is no price level.
#[derive(Clone, Copy, Debug, PartialEq, Eq, Structural)]
pub enum QuoteError {
    /// The array has fewer than two elements.
    TooShort,
    /// The price is no amount.
    Price(DecimalError),
    /// The quantity is no amount.
    Quantity(DecimalError),
}

/// The price and the quantity that two decimal texts write, or what is
/// wrong with the first of them that is no amount.
pub open spec fn amounts_spec(price: Seq<char>, quantity: Seq<char>) -> Result<(u64, u64), QuoteError> {
    match parse_decimal_spec(encode_utf8(price)) {
        Err(error) => Err(QuoteError::Price(error)),
        Ok(price) => match parse_decimal_spec(encode_utf8(quantity)) {
            Err(error) => Err(QuoteError::Quantity(error)),
            Ok(quantity) => Ok((price, quantity)),
        },
    }
}

fn parse_amounts(price: &str, quantity: &str) -> (amounts: Result<(u64, u64), QuoteError>)
    ensures
        amounts == amounts_spec(price@, quantity@),
{
    match parse_decimal(price) {
        Err(error) => Err(QuoteError::Price(error)),
        Ok(price) => match parse_decimal(quantity) {
            Err(error) => Err(QuoteError::Quantity(error)),
            Ok(quantity) => Ok((price, quantity)),
        },
    }
}

impl WsQuote {
    pub open spec fn level(self) -> PriceLevel {
        PriceLevel { price: self.price, quantity: self.quantity }
    }

    /// What the array `fields` stands for: its first element is the price
    /// and its second the quantity; what follows them does not count.
    pub open spec fn from_fields_spec(fields: Seq<String>) -> Result<WsQuote, QuoteError> {
        if fields.len() < 2 {
            Err(QuoteError::TooShort)
        } else {
            match amounts_spec(fields[0]@, fields[1]@) {
                Err(error) => Err(error),
                Ok((price, quantity)) => Ok(WsQuote { price, quantity }),
            }
        }
    }

    /// Reads a level of the update stream from the strings of its array.
    pub fn from_fields(fields: &Vec<String>) -> (quote: Result<WsQuote, QuoteError>)
        ensures
            quote == Self::from_fields_spec(fields@),
    {
        if fields.len() < 2 {
            return Err(QuoteError::TooShort);
        }
        match parse_amounts(fields[0].as_str(), fields[1].as_str()) {
            Err(error) => Err(error),
            Ok((price, quantity)) => Ok(WsQuote { price, quantity }),
        }
    }
}

impl RestQuote {
    pub open spec fn level(self) -> PriceLevel {
        PriceLevel { price: self.price, quantity: self.quantity }
    }

    /// What the two fields of a snapshot's level stand for.
    pub open spec fn from_fields_spec(price: Seq<char>, quantity: Seq<char>) -> Result<
        RestQuote,
        QuoteError,
    > {
        match amounts_spec(price, quantity) {
            Err(error) => Err(error),
            Ok((price, quantity)) => Ok(RestQuote { price, quantity }),
        }
    }

    /// Reads a level of a snapshot from the strings of its two fields.
    pub fn from_fields(price: &str, quantity: &str) -> (quote: Result<RestQuote, QuoteError>)
        ensures
            quote == Self::from_fields_spec(price@, quantity@),
    {
        match parse_amounts(price, quantity) {
            Err(error) => Err(error),
            Ok((price, quantity)) => Ok(RestQuote { price, quantity }),
        }
    }
}

/// Reads the levels of one side of an update, record by record. The first
/// record that is no level fails the whole side, with its error.
pub fn ws_quotes_from_fields(records: &Vec<Vec<String>>) -> (quotes: Result<Vec<WsQuote>, QuoteError>)
    ensures
        match quotes {
            Ok(quotes) => quotes@.len() == records@.len() && forall|i: int|
                0 <= i < records@.len() ==> WsQuote::from_fields_spec(#[trigger] records@[i]@)
                    == Ok::<WsQuote, QuoteError>(quotes@[i]),
            Err(error) => exists|i: int|
                0 <= i < records@.len() && WsQuote::from_fields_spec(#[trigger] records@[i]@)
                    == Err::<WsQuote, QuoteError>(error) && forall|j: int|
                    0 <= j < i ==> WsQuote::from_fields_spec(#[trigger] records@[j]@) is Ok,
        },
{
    let mut quotes: Vec<WsQuote> = Vec::new();
    let mut i: usize = 0;
    while i < records.len()
        invariant
            i <= records@.len(),
            quotes@.len() == i,
            forall|k: int|
                0 <= k < i ==> WsQuote::from_fields_spec(#[trigger] records@[k]@) == Ok::<
                    WsQuote,
                    QuoteError,
                >(quotes@[k]),
        decreases records@.len() - i,
    {
        match WsQuote::from_fields(&records[i]) {
            Ok(quote) => {
                quotes.push(quote);
            },
            Err(error) => {
                assert(WsQuote::from_fields_spec(records@[i as int]@) == Err::<WsQuote, QuoteError>(
                    error,
                ));
                return Err(error);
            },
        }
        i += 1;
    }
    Ok(quotes)
}

/// Reads the levels of one side of a snapshot, record by record, each a
/// price and a quantity. The first record that is no level fails the whole
/// side, with its error.
pub fn rest_quotes_from_fields(records: &Vec<(String, String)>) -> (quotes: Result<
    Vec<RestQuote>,
    QuoteError,
>)
    ensures
        match quotes {
            Ok(quotes) => quotes@.len() == records@.len() && forall|i: int|
                0 <= i < records@.len() ==> RestQuote::from_fields_spec(
                    (#[trigger] records@[i]).0@,
                    records@[i].1@,
                ) == Ok::<RestQuote, QuoteError>(quotes@[i]),
            Err(error) => exists|i: int|
                0 <= i < records@.len() && RestQuote::from_fields_spec(
                    (#[trigger] records@[i]).0@,
                    records@[i].1@,
                ) == Err::<RestQuote, QuoteError>(error) && forall|j: int|
                    0 <= j < i ==> RestQuote::from_fields_spec(
                        (#[trigger] records@[j]).0@,
                        records@[j].1@,
                    ) is Ok,
        },
{
    let mut quotes: Vec<RestQuote> = Vec::new();
    let mut i: usize = 0;
    while i < records.len()
        invariant
            i <= records@.len(),
            quotes@.len() == i,
            forall|k: int|
                0 <= k < i ==> RestQuote::from_fields_spec(
                    (#[trigger] records@[k]).0@,
                    records@[k].1@,
                ) == Ok::<RestQuote, QuoteError>(quotes@[k]),
        decreases records@.len() - i,
    {
        let record = &records[i];
        match RestQuote::from_fields(record.0.as_str(), record.1.as_str()) {
            Ok(quote) => {
                quotes.push(quote);
            },
            Err(error) => {
                assert(RestQuote::from_fields_spec(records@[i as int].0@, records@[i as int].1@)
                    == Err::<RestQuote, QuoteError>(error));
                return Err(error);
            },
        }
        i += 1;
    }
    Ok(quotes)
}

/// The levels that a sequence of stream quotes stands for, in the same order.
pub open spec fn ws_levels(quotes: Seq<WsQuote>) -> Seq<PriceLevel> {
    Seq::new(quotes.len(), |i: int| quotes[i].level())
}

/// The levels that a sequence of snapshot quotes stands for, in the same order.
pub open spec fn rest_levels(quotes: Seq<RestQuote>) -> Seq<PriceLevel> {
    Seq::new(quotes.len(), |i: int| quotes[i].level())
}

/// Both sides of the book at one instant.
#[derive(Debug)]
pub struct SnapshotData {
    pub bids: Vec<RestQuote>,
    pub asks: Vec<RestQuote>,
}

/// A full copy of the book together with the sequence number it was taken at.
#[derive(Debug)]
pub struct RestSnapshot {
    pub timestamp: u64,
    pub data: SnapshotData,
}

/// The changes to the book since the update whose own sequence number is `prev_ts`.
#[derive(Debug)]
pub struct OrderBookDelta {
    pub prev_ts: u64,
    pub bids: Vec<WsQuote>,
    pub asks: Vec<WsQuote>,
}

/// A decoded frame of the update stream. Either part may be missing.
#[derive(Debug)]
pub struct WsMessage {
    pub ts: Option<u64>,
    pub data: Option<OrderBookDelta>,
}

/// One update of the stream, ready for the book: the changes in `delta`
/// follow the update that carried `prev_ts` as its own sequence number.
#[derive(Debug)]
pub struct MarketEvent {
    pub ts: u64,
    pub prev_ts: u64,
    pub delta: OrderBookDelta,
}

impl WsMessage {
    /// Whether the frame carries an update: both a sequence number of its
    /// own and a payload.
    pub open spec fn carries_event(&self) -> bool {
        self.ts is Some && self.data is Some
    }

    /// The update that a frame with both parts carries. Its predecessor is
    /// the one that the payload names.
    pub open spec fn event(&self) -> MarketEvent {
        MarketEvent { ts: self.ts->0, prev_ts: self.data->0.prev_ts, delta: self.data->0 }
    }

    /// The update that a decoded frame carries, if it carries one.
    pub fn into_event(self) -> (event: Option<MarketEvent>)
        ensures
            event == (if self.carries_event() {
                Some(self.event())
            } else {
                None
            }),
    {
        match (self.ts, self.data) {
            (Some(ts), Some(data)) => Some(MarketEvent { ts, prev_ts: data.prev_ts, delta: data }),
            _ => None,
        }
    }
}

} // verus!
