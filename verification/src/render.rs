use crate::decimal::{pow10, FRACTION_DIGITS};
use crate::ladder_lemmas::lemma_top_levels_unique;
use crate::orderbook::{is_top_levels, LocalOrderBook, PriceLevel, Side};
use crate::text::{decimal_digits, decimal_text, digit_char, digit_text};
use vstd::prelude::*;
use vstd::string::*;

verus! {

/// How many ranks of each side the display shows.
pub const SHOWN_RANKS: usize = 5;

/// How many digits after the point a price is shown with.
pub const PRICE_PLACES: usize = 2;

/// How many digits after the point a quantity is shown with.
pub const QUANTITY_PLACES: usize = 4;

/// How many lines the display gives to one rank.
pub const LINES_PER_RANK: usize = 6;

/// An amount of `units` in steps of `1 / 10^places`, rounded to the nearest
/// step, a tie to the even one.
pub open spec fn rounded(units: nat, places: nat) -> nat {
    let step = pow10((FRACTION_DIGITS - places) as nat);
    let below = units / step;
    let rest = units % step;
    if 2 * rest > step || (2 * rest == step && below % 2 == 1) {
        below + 1
    } else {
        below
    }
}

/// `n` written with exactly `width` digits, zeros in front; the digits
/// beyond `width` are left out.
pub open spec fn padded_digits(n: nat, width: nat) -> Seq<char>
    decreases width,
{
    if width == 0 {
        Seq::empty()
    } else {
        padded_digits(n / 10, (width - 1) as nat).push(digit_char(n % 10))
    }
}

/// An amount of `units` written with `places` digits after the point, one
/// to `FRACTION_DIGITS` of them.
pub open spec fn fixed_text(units: nat, places: nat) -> Seq<char> {
    let steps = rounded(units, places);
    decimal_digits(steps / pow10(places)) + seq!['.'] + padded_digits(steps % pow10(places), places)
}

fn power_of_ten(k: usize) -> (power: u64)
    requires
        k <= FRACTION_DIGITS,
    ensures
        power == pow10(k as nat),
        1 <= power <= 100_000_000,
{
    let mut power: u64 = 1;
    let mut done: usize = 0;
    while done < k
        invariant
            done <= k <= FRACTION_DIGITS,
            power == pow10(done as nat),
            1 <= power,
            done == 0 ==> power == 1,
            done == 1 ==> power == 10,
            done == 2 ==> power == 100,
            done == 3 ==> power == 1_000,
            done == 4 ==> power == 10_000,
            done == 5 ==> power == 100_000,
            done == 6 ==> power == 1_000_000,
            done == 7 ==> power == 10_000_000,
            done == 8 ==> power == 100_000_000,
        decreases k - done,
    {
        power = power * 10;
        done += 1;
    }
    power
}

fn padded_text(n: u64, width: usize) -> (out: String)
    ensures
        out@ == padded_digits(n as nat, width as nat),
    decreases width,
{
    if width == 0 {
        String::new()
    } else {
        let mut out = padded_text(n / 10, width - 1);
        out.append(digit_text(n % 10));
        assert(out@ =~= padded_digits(n as nat, width as nat));
        out
    }
}

fn format_fixed(units: u64, places: usize) -> (out: String)
    requires
        1 <= places <= FRACTION_DIGITS,
    ensures
        out@ == fixed_text(units as nat, places as nat),
{
    let step = power_of_ten(FRACTION_DIGITS - places);
    let below = units / step;
    let rest = units % step;
    assert(step == 1 ==> rest == 0);
    assert(step >= 2 ==> below <= u64::MAX / 2) by (nonlinear_arith)
        requires
            below == units / step,
            units <= u64::MAX,
            step >= 1,
    ;
    let steps = if 2 * rest > step || (2 * rest == step && below % 2 == 1) {
        below + 1
    } else {
        below
    };
    let one = power_of_ten(places);
    let mut out = decimal_text(steps / one);
    out.append(".");
    out.append(padded_text(steps % one, places).as_str());
    proof {
        reveal_strlit(".");
        assert("."@ =~= seq!['.']);
    }
    out
}

/// Writes a price with `PRICE_PLACES` digits after the point.
pub fn price_text(units: u64) -> (out: String)
    ensures
        out@ == fixed_text(units as nat, PRICE_PLACES as nat),
{
    format_fixed(units, PRICE_PLACES)
}

/// Writes a quantity with `QUANTITY_PLACES` digits after the point.
pub fn quantity_text(units: u64) -> (out: String)
    ensures
        out@ == fixed_text(units as nat, QUANTITY_PLACES as nat),
{
    format_fixed(units, QUANTITY_PLACES)
}

/// The level at `rank` of `levels`, counted from zero, if there is one.
pub open spec fn level_at(levels: Seq<PriceLevel>, rank: int) -> Option<PriceLevel> {
    if 0 <= rank < levels.len() {
        Some(levels[rank])
    } else {
        None
    }
}

/// What the display writes for a price: the price, or a dash for a rank
/// that the side does not reach.
pub open spec fn price_or_dash(level: Option<PriceLevel>) -> Seq<char> {
    match level {
        Some(level) => fixed_text(level.price as nat, PRICE_PLACES as nat),
        None => "-"@,
    }
}

/// What the display writes for a quantity: the quantity, or a dash for a
/// rank that the side does not reach.
pub open spec fn quantity_or_dash(level: Option<PriceLevel>) -> Seq<char> {
    match level {
        Some(level) => fixed_text(level.quantity as nat, QUANTITY_PLACES as nat),
        None => "-"@,
    }
}

/// Line `row` of the six that the display gives to `rank`: the rank's
/// number from one, the bid's price and size, the ask's price and size,
/// and a rule.
pub open spec fn rank_line(rank: int, row: int, bid: Option<PriceLevel>, ask: Option<PriceLevel>) -> Seq<
    char,
> {
    if row == 0 {
        decimal_digits((rank + 1) as nat)
    } else if row == 1 {
        "BID Price: "@ + price_or_dash(bid)
    } else if row == 2 {
        "BID Size:  "@ + quantity_or_dash(bid)
    } else if row == 3 {
        "ASK Price: "@ + price_or_dash(ask)
    } else if row == 4 {
        "ASK Size:  "@ + quantity_or_dash(ask)
    } else {
        "------------------------"@
    }
}

/// Line `i` of the display of the best `bids` and `asks`, rank after rank.
pub open spec fn screen_line(bids: Seq<PriceLevel>, asks: Seq<PriceLevel>, i: int) -> Seq<char> {
    rank_line(
        i / (LINES_PER_RANK as int),
        i % (LINES_PER_RANK as int),
        level_at(bids, i / (LINES_PER_RANK as int)),
        level_at(asks, i / (LINES_PER_RANK as int)),
    )
}

fn price_line(label: &str, levels: &Vec<PriceLevel>, rank: usize) -> (line: String)
    ensures
        line@ == label@ + price_or_dash(level_at(levels@, rank as int)),
{
    let mut line = String::from_str(label);
    if rank < levels.len() {
        line.append(price_text(levels[rank].price).as_str());
    } else {
        line.append("-");
    }
    line
}

fn quantity_line(label: &str, levels: &Vec<PriceLevel>, rank: usize) -> (line: String)
    ensures
        line@ == label@ + quantity_or_dash(level_at(levels@, rank as int)),
{
    let mut line = String::from_str(label);
    if rank < levels.len() {
        line.append(quantity_text(levels[rank].quantity).as_str());
    } else {
        line.append("-");
    }
    line
}

impl LocalOrderBook {
    /// The lines of the display: the best `SHOWN_RANKS` bids and asks side
    /// by side, rank after rank, a dash where a side has no such rank.
    pub fn top_5_lines(&self) -> (lines: Vec<String>)
        ensures
            lines@.len() == SHOWN_RANKS * LINES_PER_RANK,
            forall|bids: Seq<PriceLevel>, asks: Seq<PriceLevel>, i: int|
                #![trigger screen_line(bids, asks, i)]
                is_top_levels(self.bids(), Side::Bid, SHOWN_RANKS as nat, bids) && is_top_levels(
                    self.asks(),
                    Side::Ask,
                    SHOWN_RANKS as nat,
                    asks,
                ) && 0 <= i < lines@.len() ==> lines@[i]@ == screen_line(bids, asks, i),
    {
        let bids = self.top_levels(Side::Bid, SHOWN_RANKS);
        let asks = self.top_levels(Side::Ask, SHOWN_RANKS);
        let mut lines: Vec<String> = Vec::new();
        let mut rank: usize = 0;
        while rank < SHOWN_RANKS
            invariant
                rank <= SHOWN_RANKS,
                lines@.len() == rank * LINES_PER_RANK,
                forall|i: int|
                    0 <= i < lines@.len() ==> (#[trigger] lines@[i])@ == screen_line(
                        bids@,
                        asks@,
                        i,
                    ),
            decreases SHOWN_RANKS - rank,
        {
            let ghost before = lines@;
            lines.push(decimal_text((rank + 1) as u64));
            lines.push(price_line("BID Price: ", &bids, rank));
            lines.push(quantity_line("BID Size:  ", &bids, rank));
            lines.push(price_line("ASK Price: ", &asks, rank));
            lines.push(quantity_line("ASK Size:  ", &asks, rank));
            lines.push(String::from_str("------------------------"));
            proof {
                assert forall|i: int| 0 <= i < lines@.len() implies (#[trigger] lines@[i])@
                    == screen_line(bids@, asks@, i) by {
                    if i < before.len() {
                        assert(lines@[i] == before[i]);
                    } else {
                        assert(i / 6 == rank && i % 6 == i - 6 * rank);
                    }
                }
            }
            rank += 1;
        }
        proof {
            assert forall|top_bids: Seq<PriceLevel>, top_asks: Seq<PriceLevel>, i: int|
                #![trigger screen_line(top_bids, top_asks, i)]
                is_top_levels(self.bids(), Side::Bid, SHOWN_RANKS as nat, top_bids)
                    && is_top_levels(self.asks(), Side::Ask, SHOWN_RANKS as nat, top_asks) && 0 <= i
                    < lines@.len() implies lines@[i]@ == screen_line(top_bids, top_asks, i) by {
                lemma_top_levels_unique(self.bids(), Side::Bid, SHOWN_RANKS as nat, top_bids, bids@);
                lemma_top_levels_unique(self.asks(), Side::Ask, SHOWN_RANKS as nat, top_asks, asks@);
            }
        }
        lines
    }
}

} // verus!
