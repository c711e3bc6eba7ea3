use vstd::prelude::*;
use vstd::string::*;

verus! {

/// How many digits after the point an amount can carry.
pub const FRACTION_DIGITS: usize = 8;

/// How many units make one: ten to the power of `FRACTION_DIGITS`.
pub const UNITS_PER_ONE: u64 = 100_000_000;

/// Why a text is no amount.
#[derive(Clone, Copy, Debug, PartialEq, Eq, Structural)]
pub enum DecimalError {
    /// The text is not digits with at most one point among them, or holds no digit.
    Malformed,
    /// The text has more digits after the point than an amount can carry.
    TooPrecise,
    /// The amount does not fit in 64 bits of units.
    TooLarge,
}

pub open spec fn is_digit(b: u8) -> bool {
    48 <= b <= 57
}

pub open spec fn all_digits(s: Seq<u8>) -> bool {
    forall|i: int| 0 <= i < s.len() ==> is_digit(#[trigger] s[i])
}

/// The number that the digits `s` add to the number `start` when written behind it.
pub open spec fn extend(start: nat, s: Seq<u8>) -> nat
    decreases s.len(),
{
    if s.len() == 0 {
        start
    } else {
        extend(start, s.drop_last()) * 10 + (s.last() - 48) as nat
    }
}

/// The number that the digits `s` write in base ten; zero for no digits.
pub open spec fn digits_value(s: Seq<u8>) -> nat {
    extend(0, s)
}

pub open spec fn pow10(k: nat) -> nat
    decreases k,
{
    if k == 0 {
        1
    } else {
        10 * pow10((k - 1) as nat)
    }
}

/// Where the first point of `text` stands; the length of `text` where it has none.
pub open spec fn point_at(text: Seq<u8>) -> int
    decreases text.len(),
{
    if text.len() == 0 || text[0] == 46 {
        0
    } else {
        1 + point_at(text.drop_first())
    }
}

/// What stands before the first point.
pub open spec fn whole_part(text: Seq<u8>) -> Seq<u8> {
    text.take(point_at(text))
}

/// What stands behind the first point; nothing where there is no point.
pub open spec fn fraction_part(text: Seq<u8>) -> Seq<u8> {
    if point_at(text) < text.len() {
        text.skip(point_at(text) + 1)
    } else {
        Seq::empty()
    }
}

/// The text is digits, with at most one point before, among or behind them,
/// and at least one digit.
pub open spec fn is_decimal(text: Seq<u8>) -> bool {
    &&& all_digits(whole_part(text))
    &&& all_digits(fraction_part(text))
    &&& whole_part(text).len() + fraction_part(text).len() > 0
}

/// The amount that a decimal text with at most `FRACTION_DIGITS` digits
/// behind the point writes, in units: its digits read as one number, with a
/// zero added for every digit that the fraction falls short of.
pub open spec fn decimal_units(text: Seq<u8>) -> nat {
    digits_value(whole_part(text) + fraction_part(text)) * pow10(
        (FRACTION_DIGITS - fraction_part(text).len()) as nat,
    )
}

/// What parsing `text` gives: the first of the three errors that applies,
/// else the amount in units.
pub open spec fn parse_decimal_spec(text: Seq<u8>) -> Result<u64, DecimalError> {
    if !is_decimal(text) {
        Err(DecimalError::Malformed)
    } else if fraction_part(text).len() > FRACTION_DIGITS {
        Err(DecimalError::TooPrecise)
    } else if decimal_units(text) > u64::MAX {
        Err(DecimalError::TooLarge)
    } else {
        Ok(decimal_units(text) as u64)
    }
}

proof fn lemma_point_at(text: Seq<u8>, k: int)
    requires
        0 <= k <= text.len(),
        forall|i: int| 0 <= i < k ==> text[i] != 46,
        k < text.len() ==> text[k] == 46,
    ensures
        point_at(text) == k,
    decreases k,
{
    if k > 0 {
        let rest = text.drop_first();
        assert forall|i: int| 0 <= i < k - 1 implies rest[i] != 46 by {
            assert(rest[i] == text[i + 1]);
        }
        lemma_point_at(rest, k - 1);
    }
}

proof fn lemma_extend_concat(start: nat, a: Seq<u8>, b: Seq<u8>)
    ensures
        extend(start, a + b) == extend(extend(start, a), b),
    decreases b.len(),
{
    if b.len() == 0 {
        assert(a + b =~= a);
    } else {
        assert((a + b).drop_last() =~= a + b.drop_last());
        assert((a + b).last() == b.last());
        lemma_extend_concat(start, a, b.drop_last());
    }
}

proof fn lemma_extend_grows(start: nat, s: Seq<u8>, i: int)
    requires
        0 <= i <= s.len(),
        all_digits(s),
    ensures
        extend(start, s.take(i)) <= extend(start, s),
    decreases s.len() - i,
{
    if i < s.len() {
        lemma_extend_grows(start, s, i + 1);
        assert(s.take(i + 1).drop_last() =~= s.take(i));
        assert(s.take(i + 1).last() == s[i]);
        assert(is_digit(s[i]));
    } else {
        assert(s.take(i) =~= s);
    }
}

proof fn lemma_pow10_grows(j: nat, k: nat)
    requires
        j <= k,
    ensures
        1 <= pow10(j) <= pow10(k),
    decreases k,
{
    if k > 0 {
        if j < k {
            lemma_pow10_grows(j, (k - 1) as nat);
        } else {
            lemma_pow10_grows((j - 1) as nat, (k - 1) as nat);
        }
    }
}

proof fn lemma_scale_grows(value: nat, j: nat, k: nat)
    requires
        j <= k,
    ensures
        value <= value * pow10(j) <= value * pow10(k),
{
    lemma_pow10_grows(j, k);
    assert(value <= value * pow10(j) <= value * pow10(k)) by (nonlinear_arith)
        requires
            1 <= pow10(j) <= pow10(k),
    ;
}

/// Reads the digits of `bytes` from `from` up to `to` behind the number `start`.
fn read_digits(bytes: &[u8], from: usize, to: usize, start: u64) -> (out: Option<u64>)
    requires
        from <= to <= bytes@.len(),
        all_digits(bytes@.subrange(from as int, to as int)),
    ensures
        match out {
            Some(value) => value == extend(start as nat, bytes@.subrange(from as int, to as int)),
            None => extend(start as nat, bytes@.subrange(from as int, to as int)) > u64::MAX,
        },
{
    let ghost digits = bytes@.subrange(from as int, to as int);
    let mut value = start;
    let mut i = from;
    while i < to
        invariant
            from <= i <= to <= bytes@.len(),
            digits == bytes@.subrange(from as int, to as int),
            all_digits(digits),
            value == extend(start as nat, digits.take(i - from)),
        decreases to - i,
    {
        let byte = bytes[i];
        proof {
            assert(digits.take(i + 1 - from).drop_last() =~= digits.take(i - from));
            assert(digits.take(i + 1 - from).last() == digits[i - from]);
            assert(digits[i - from] == byte);
            assert(is_digit(digits[i - from]));
        }
        let wide: u128 = value as u128 * 10 + (byte - 48) as u128;
        if wide > u64::MAX as u128 {
            proof {
                lemma_extend_grows(start as nat, digits, i + 1 - from);
            }
            return None;
        }
        value = wide as u64;
        i += 1;
    }
    assert(digits.take(i - from) =~= digits);
    Some(value)
}

/// Multiplies `value` by ten, `times` times over.
fn scale_up(value: u64, times: usize) -> (out: Option<u64>)
    ensures
        match out {
            Some(scaled) => scaled == value * pow10(times as nat),
            None => value * pow10(times as nat) > u64::MAX,
        },
{
    let mut scaled = value;
    let mut done: usize = 0;
    assert(value * pow10(0) == value) by (nonlinear_arith)
        requires
            pow10(0) == 1,
    ;
    while done < times
        invariant
            done <= times,
            scaled == value * pow10(done as nat),
        decreases times - done,
    {
        let wide: u128 = scaled as u128 * 10;
        proof {
            assert(value * pow10((done + 1) as nat) == (value * pow10(done as nat)) * 10)
                by (nonlinear_arith)
                requires
                    pow10((done + 1) as nat) == 10 * pow10(done as nat),
            ;
        }
        if wide > u64::MAX as u128 {
            proof {
                lemma_scale_grows(value as nat, (done + 1) as nat, times as nat);
            }
            return None;
        }
        scaled = wide as u64;
        done += 1;
    }
    Some(scaled)
}

/// Reads a decimal text as an amount in units of `1 / UNITS_PER_ONE`.
///
/// The text is digits with at most one point: `12`, `12.5`, `12.` and `.5`
/// are amounts; a sign, an exponent, white space or an empty text is not.
pub fn parse_decimal(text: &str) -> (parsed: Result<u64, DecimalError>)
    ensures
        parsed == parse_decimal_spec(text.spec_bytes()),
{
    let bytes = text.as_bytes();
    let len = bytes.len();
    let mut point: usize = 0;
    while point < len && bytes[point] != 46
        invariant
            bytes@ == text.spec_bytes(),
            point <= len == bytes@.len(),
            forall|i: int| 0 <= i < point ==> bytes@[i] != 46 && is_digit(bytes@[i]),
        decreases len - point,
    {
        if bytes[point] < 48 || bytes[point] > 57 {
            proof {
                lemma_first_point_bounds(bytes@);
                lemma_no_point_before(bytes@, point as int);
                assert(whole_part(bytes@)[point as int] == bytes@[point as int]);
            }
            return Err(DecimalError::Malformed);
        }
        point += 1;
    }
    proof {
        lemma_point_at(bytes@, point as int);
        assert(all_digits(whole_part(bytes@)));
    }
    let fraction_from = if point < len { point + 1 } else { len };
    let ghost fraction = fraction_part(bytes@);
    assert(fraction =~= bytes@.subrange(fraction_from as int, len as int));
    let mut i = fraction_from;
    while i < len
        invariant
            bytes@ == text.spec_bytes(),
            all_digits(whole_part(bytes@)),
            fraction_from <= i <= len == bytes@.len(),
            fraction == fraction_part(bytes@),
            fraction == bytes@.subrange(fraction_from as int, len as int),
            forall|k: int| fraction_from <= k < i ==> is_digit(bytes@[k]),
        decreases len - i,
    {
        if bytes[i] < 48 || bytes[i] > 57 {
            assert(fraction[i - fraction_from] == bytes@[i as int]);
            return Err(DecimalError::Malformed);
        }
        i += 1;
    }
    assert(all_digits(fraction));
    if point + (len - fraction_from) == 0 {
        return Err(DecimalError::Malformed);
    }
    if len - fraction_from > FRACTION_DIGITS {
        return Err(DecimalError::TooPrecise);
    }
    let ghost whole = whole_part(bytes@);
    let ghost missing = (FRACTION_DIGITS - fraction.len()) as nat;
    assert(whole =~= bytes@.subrange(0, point as int));
    proof {
        lemma_extend_concat(0, whole, fraction);
        lemma_extend_grows(0, whole + fraction, whole.len() as int);
        assert((whole + fraction).take(whole.len() as int) =~= whole);
        lemma_scale_grows(digits_value(whole + fraction), 0, missing);
    }
    let whole_value = match read_digits(bytes, 0, point, 0) {
        Some(value) => value,
        None => {
            return Err(DecimalError::TooLarge);
        },
    };
    let digits = match read_digits(bytes, fraction_from, len, whole_value) {
        Some(value) => value,
        None => {
            return Err(DecimalError::TooLarge);
        },
    };
    match scale_up(digits, FRACTION_DIGITS - (len - fraction_from)) {
        Some(units) => Ok(units),
        None => Err(DecimalError::TooLarge),
    }
}

proof fn lemma_first_point_bounds(text: Seq<u8>)
    ensures
        0 <= point_at(text) <= text.len(),
        point_at(text) < text.len() ==> text[point_at(text)] == 46,
    decreases text.len(),
{
    if !(text.len() == 0 || text[0] == 46) {
        lemma_first_point_bounds(text.drop_first());
    }
}

proof fn lemma_no_point_before(text: Seq<u8>, k: int)
    requires
        0 <= k < text.len(),
        forall|i: int| 0 <= i <= k ==> text[i] != 46,
    ensures
        point_at(text) > k,
    decreases k,
{
    let rest = text.drop_first();
    lemma_first_point_bounds(rest);
    if k > 0 {
        assert forall|i: int| 0 <= i <= k - 1 implies rest[i] != 46 by {
            assert(rest[i] == text[i + 1]);
        }
        lemma_no_point_before(rest, k - 1);
    }
}

proof fn lemma_extend_shifts(start: nat, s: Seq<u8>)
    ensures
        extend(start, s) == start * pow10(s.len()) + digits_value(s),
    decreases s.len(),
{
    if s.len() == 0 {
        assert(start * pow10(0) == start) by (nonlinear_arith)
            requires
                pow10(0) == 1,
        ;
    } else {
        let init = s.drop_last();
        lemma_extend_shifts(start, init);
        assert(pow10(s.len()) == 10 * pow10(init.len()));
        assert((start * pow10(init.len()) + digits_value(init)) * 10 == start * pow10(s.len())
            + digits_value(init) * 10) by (nonlinear_arith)
            requires
                pow10(s.len()) == 10 * pow10(init.len()),
        ;
    }
}

/// An amount is its whole part in ones plus its fraction in units: the
/// digits before the point count `UNITS_PER_ONE` each, the digits behind it
/// are read as a number and given the zeros that they fall short of.
pub proof fn lemma_decimal_units_split(text: Seq<u8>)
    requires
        fraction_part(text).len() <= FRACTION_DIGITS,
    ensures
        pow10(FRACTION_DIGITS as nat) == UNITS_PER_ONE,
        decimal_units(text) == digits_value(whole_part(text)) * UNITS_PER_ONE + digits_value(
            fraction_part(text),
        ) * pow10((FRACTION_DIGITS - fraction_part(text).len()) as nat),
{
    let whole = whole_part(text);
    let fraction = fraction_part(text);
    let given = fraction.len();
    let missing = (FRACTION_DIGITS - given) as nat;
    lemma_extend_concat(0, whole, fraction);
    lemma_extend_shifts(digits_value(whole), fraction);
    lemma_pow10_adds(given, missing);
    assert(pow10(8) == 100_000_000) by {
        reveal_with_fuel(pow10, 9);
    }
    assert((digits_value(whole) * pow10(given) + digits_value(fraction)) * pow10(missing)
        == digits_value(whole) * (pow10(given) * pow10(missing)) + digits_value(fraction) * pow10(
        missing,
    )) by (nonlinear_arith);
}

proof fn lemma_pow10_adds(j: nat, k: nat)
    ensures
        pow10(j) * pow10(k) == pow10(j + k),
    decreases j,
{
    if j == 0 {
        assert(pow10(0) * pow10(k) == pow10(k)) by (nonlinear_arith)
            requires
                pow10(0) == 1,
        ;
    } else {
        lemma_pow10_adds((j - 1) as nat, k);
        assert(pow10(j) == 10 * pow10((j - 1) as nat));
        assert(pow10(j + k) == 10 * pow10((j + k - 1) as nat));
        assert((10 * pow10((j - 1) as nat)) * pow10(k) == 10 * (pow10((j - 1) as nat) * pow10(k)))
            by (nonlinear_arith);
    }
}

} // verus!
