//! Currencies, reference rates, and the conversion of amounts to euros.
//!
//! Amounts and rates are counted in millionths. A rate says how many
//! millionths of a currency one euro buys; the euro itself has no rate.

use std::collections::HashMap;

use vstd::prelude::*;

verus! {

broadcast use vstd::std_specs::hash::group_hash_axioms;

/// Amounts and rates are fixed-point numbers counted in millionths of a unit.
pub const MICROS_PER_UNIT: u64 = 1_000_000;

/// Number of currencies in [`Currency`].
pub const CURRENCY_COUNT: usize = 33;

/// The closed set of currencies a search can be priced in.
#[derive(Clone, Copy, Debug, PartialEq, Eq, Hash, Structural)]
pub enum Currency {
    EUR,
    USD,
    JPY,
    BGN,
    CZK,
    DKK,
    GBP,
    HUF,
    PLN,
    RON,
    SEK,
    CHF,
    ISK,
    NOK,
    HRK,
    RUB,
    TRY,
    AUD,
    BRL,
    CAD,
    CNY,
    HKD,
    IDR,
    ILS,
    INR,
    KRW,
    MXN,
    MYR,
    NZD,
    PHP,
    SGD,
    THB,
    ZAR,
}

/// The currency whose three-letter code is `(a, b, c)`, if there is one.
pub open spec fn currency_of_letters(a: char, b: char, c: char) -> Option<Currency> {
    match (a, b, c) {
        ('E', 'U', 'R') => Some(Currency::EUR),
        ('U', 'S', 'D') => Some(Currency::USD),
        ('J', 'P', 'Y') => Some(Currency::JPY),
        ('B', 'G', 'N') => Some(Currency::BGN),
        ('C', 'Z', 'K') => Some(Currency::CZK),
        ('D', 'K', 'K') => Some(Currency::DKK),
        ('G', 'B', 'P') => Some(Currency::GBP),
        ('H', 'U', 'F') => Some(Currency::HUF),
        ('P', 'L', 'N') => Some(Currency::PLN),
        ('R', 'O', 'N') => Some(Currency::RON),
        ('S', 'E', 'K') => Some(Currency::SEK),
        ('C', 'H', 'F') => Some(Currency::CHF),
        ('I', 'S', 'K') => Some(Currency::ISK),
        ('N', 'O', 'K') => Some(Currency::NOK),
        ('H', 'R', 'K') => Some(Currency::HRK),
        ('R', 'U', 'B') => Some(Currency::RUB),
        ('T', 'R', 'Y') => Some(Currency::TRY),
        ('A', 'U', 'D') => Some(Currency::AUD),
        ('B', 'R', 'L') => Some(Currency::BRL),
        ('C', 'A', 'D') => Some(Currency::CAD),
        ('C', 'N', 'Y') => Some(Currency::CNY),
        ('H', 'K', 'D') => Some(Currency::HKD),
        ('I', 'D', 'R') => Some(Currency::IDR),
        ('I', 'L', 'S') => Some(Currency::ILS),
        ('I', 'N', 'R') => Some(Currency::INR),
        ('K', 'R', 'W') => Some(Currency::KRW),
        ('M', 'X', 'N') => Some(Currency::MXN),
        ('M', 'Y', 'R') => Some(Currency::MYR),
        ('N', 'Z', 'D') => Some(Currency::NZD),
        ('P', 'H', 'P') => Some(Currency::PHP),
        ('S', 'G', 'D') => Some(Currency::SGD),
        ('T', 'H', 'B') => Some(Currency::THB),
        ('Z', 'A', 'R') => Some(Currency::ZAR),
        _ => None,
    }
}

/// The currency named by `code`: the code is exactly three letters long and
/// is the code of that currency.
pub open spec fn currency_of_code(code: Seq<char>) -> Option<Currency> {
    if code.len() == 3 {
        currency_of_letters(code[0], code[1], code[2])
    } else {
        None
    }
}

impl Currency {
    /// The three letters of the currency's code.
    pub open spec fn letters(self) -> (char, char, char) {
        match self {
            Currency::EUR => ('E', 'U', 'R'),
            Currency::USD => ('U', 'S', 'D'),
            Currency::JPY => ('J', 'P', 'Y'),
            Currency::BGN => ('B', 'G', 'N'),
            Currency::CZK => ('C', 'Z', 'K'),
            Currency::DKK => ('D', 'K', 'K'),
            Currency::GBP => ('G', 'B', 'P'),
            Currency::HUF => ('H', 'U', 'F'),
            Currency::PLN => ('P', 'L', 'N'),
            Currency::RON => ('R', 'O', 'N'),
            Currency::SEK => ('S', 'E', 'K'),
            Currency::CHF => ('C', 'H', 'F'),
            Currency::ISK => ('I', 'S', 'K'),
            Currency::NOK => ('N', 'O', 'K'),
            Currency::HRK => ('H', 'R', 'K'),
            Currency::RUB => ('R', 'U', 'B'),
            Currency::TRY => ('T', 'R', 'Y'),
            Currency::AUD => ('A', 'U', 'D'),
            Currency::BRL => ('B', 'R', 'L'),
            Currency::CAD => ('C', 'A', 'D'),
            Currency::CNY => ('C', 'N', 'Y'),
            Currency::HKD => ('H', 'K', 'D'),
            Currency::IDR => ('I', 'D', 'R'),
            Currency::ILS => ('I', 'L', 'S'),
            Currency::INR => ('I', 'N', 'R'),
            Currency::KRW => ('K', 'R', 'W'),
            Currency::MXN => ('M', 'X', 'N'),
            Currency::MYR => ('M', 'Y', 'R'),
            Currency::NZD => ('N', 'Z', 'D'),
            Currency::PHP => ('P', 'H', 'P'),
            Currency::SGD => ('S', 'G', 'D'),
            Currency::THB => ('T', 'H', 'B'),
            Currency::ZAR => ('Z', 'A', 'R'),
        }
    }

    /// The currency's three-letter code, as it is written on the wire.
    pub open spec fn code(self) -> Seq<char> {
        seq![self.letters().0, self.letters().1, self.letters().2]
    }

    /// Position of the currency in the declaration order, starting at 0.
    pub open spec fn ordinal(self) -> nat {
        match self {
            Currency::EUR => 0,
            Currency::USD => 1,
            Currency::JPY => 2,
            Currency::BGN => 3,
            Currency::CZK => 4,
            Currency::DKK => 5,
            Currency::GBP => 6,
            Currency::HUF => 7,
            Currency::PLN => 8,
            Currency::RON => 9,
            Currency::SEK => 10,
            Currency::CHF => 11,
            Currency::ISK => 12,
            Currency::NOK => 13,
            Currency::HRK => 14,
            Currency::RUB => 15,
            Currency::TRY => 16,
            Currency::AUD => 17,
            Currency::BRL => 18,
            Currency::CAD => 19,
            Currency::CNY => 20,
            Currency::HKD => 21,
            Currency::IDR => 22,
            Currency::ILS => 23,
            Currency::INR => 24,
            Currency::KRW => 25,
            Currency::MXN => 26,
            Currency::MYR => 27,
            Currency::NZD => 28,
            Currency::PHP => 29,
            Currency::SGD => 30,
            Currency::THB => 31,
            Currency::ZAR => 32,
        }
    }

    /// Position of the currency in the declaration order, starting at 0.
    pub fn index(&self) -> (i: usize)
        ensures
            i == self.ordinal(),
            i < CURRENCY_COUNT,
    {
        match self {
            Currency::EUR => 0,
            Currency::USD => 1,
            Currency::JPY => 2,
            Currency::BGN => 3,
            Currency::CZK => 4,
            Currency::DKK => 5,
            Currency::GBP => 6,
            Currency::HUF => 7,
            Currency::PLN => 8,
            Currency::RON => 9,
            Currency::SEK => 10,
            Currency::CHF => 11,
            Currency::ISK => 12,
            Currency::NOK => 13,
            Currency::HRK => 14,
            Currency::RUB => 15,
            Currency::TRY => 16,
            Currency::AUD => 17,
            Currency::BRL => 18,
            Currency::CAD => 19,
            Currency::CNY => 20,
            Currency::HKD => 21,
            Currency::IDR => 22,
            Currency::ILS => 23,
            Currency::INR => 24,
            Currency::KRW => 25,
            Currency::MXN => 26,
            Currency::MYR => 27,
            Currency::NZD => 28,
            Currency::PHP => 29,
            Currency::SGD => 30,
            Currency::THB => 31,
            Currency::ZAR => 32,
        }
    }

    /// The currency's three-letter code.
    pub fn as_str(&self) -> (code: &'static str)
        ensures
            code@ == self.code(),
    {
        match self {
            Currency::EUR => {
                proof {
                    reveal_strlit("EUR");
                }
                "EUR"
            },
            Currency::USD => {
                proof {
                    reveal_strlit("USD");
                }
                "USD"
            },
            Currency::JPY => {
                proof {
                    reveal_strlit("JPY");
                }
                "JPY"
            },
            Currency::BGN => {
                proof {
                    reveal_strlit("BGN");
                }
                "BGN"
            },
            Currency::CZK => {
                proof {
                    reveal_strlit("CZK");
                }
                "CZK"
            },
            Currency::DKK => {
                proof {
                    reveal_strlit("DKK");
                }
                "DKK"
            },
            Currency::GBP => {
                proof {
                    reveal_strlit("GBP");
                }
                "GBP"
            },
            Currency::HUF => {
                proof {
                    reveal_strlit("HUF");
                }
                "HUF"
            },
            Currency::PLN => {
                proof {
                    reveal_strlit("PLN");
                }
                "PLN"
            },
            Currency::RON => {
                proof {
                    reveal_strlit("RON");
                }
                "RON"
            },
            Currency::SEK => {
                proof {
                    reveal_strlit("SEK");
                }
                "SEK"
            },
            Currency::CHF => {
                proof {
                    reveal_strlit("CHF");
                }
                "CHF"
            },
            Currency::ISK => {
                proof {
                    reveal_strlit("ISK");
                }
                "ISK"
            },
            Currency::NOK => {
                proof {
                    reveal_strlit("NOK");
                }
                "NOK"
            },
            Currency::HRK => {
                proof {
                    reveal_strlit("HRK");
                }
                "HRK"
            },
            Currency::RUB => {
                proof {
                    reveal_strlit("RUB");
                }
                "RUB"
            },
            Currency::TRY => {
                proof {
                    reveal_strlit("TRY");
                }
                "TRY"
            },
            Currency::AUD => {
                proof {
                    reveal_strlit("AUD");
                }
                "AUD"
            },
            Currency::BRL => {
                proof {
                    reveal_strlit("BRL");
                }
                "BRL"
            },
            Currency::CAD => {
                proof {
                    reveal_strlit("CAD");
                }
                "CAD"
            },
            Currency::CNY => {
                proof {
                    reveal_strlit("CNY");
                }
                "CNY"
            },
            Currency::HKD => {
                proof {
                    reveal_strlit("HKD");
                }
                "HKD"
            },
            Currency::IDR => {
                proof {
                    reveal_strlit("IDR");
                }
                "IDR"
            },
            Currency::ILS => {
                proof {
                    reveal_strlit("ILS");
                }
                "ILS"
            },
            Currency::INR => {
                proof {
                    reveal_strlit("INR");
                }
                "INR"
            },
            Currency::KRW => {
                proof {
                    reveal_strlit("KRW");
                }
                "KRW"
            },
            Currency::MXN => {
                proof {
                    reveal_strlit("MXN");
                }
                "MXN"
            },
            Currency::MYR => {
                proof {
                    reveal_strlit("MYR");
                }
                "MYR"
            },
            Currency::NZD => {
                proof {
                    reveal_strlit("NZD");
                }
                "NZD"
            },
            Currency::PHP => {
                proof {
                    reveal_strlit("PHP");
                }
                "PHP"
            },
            Currency::SGD => {
                proof {
                    reveal_strlit("SGD");
                }
                "SGD"
            },
            Currency::THB => {
                proof {
                    reveal_strlit("THB");
                }
                "THB"
            },
            Currency::ZAR => {
                proof {
                    reveal_strlit("ZAR");
                }
                "ZAR"
            },
        }
    }

    /// Reads a currency from its three-letter code. Anything else is `None`.
    pub fn from_code(code: &str) -> (currency: Option<Currency>)
        ensures
            currency == currency_of_code(code@),
    {
        if code.unicode_len() != 3 {
            return None;
        }
        let a = code.get_char(0);
        let b = code.get_char(1);
        let c = code.get_char(2);
        match (a, b, c) {
        ('E', 'U', 'R') => Some(Currency::EUR),
        ('U', 'S', 'D') => Some(Currency::USD),
        ('J', 'P', 'Y') => Some(Currency::JPY),
        ('B', 'G', 'N') => Some(Currency::BGN),
        ('C', 'Z', 'K') => Some(Currency::CZK),
        ('D', 'K', 'K') => Some(Currency::DKK),
        ('G', 'B', 'P') => Some(Currency::GBP),
        ('H', 'U', 'F') => Some(Currency::HUF),
        ('P', 'L', 'N') => Some(Currency::PLN),
        ('R', 'O', 'N') => Some(Currency::RON),
        ('S', 'E', 'K') => Some(Currency::SEK),
        ('C', 'H', 'F') => Some(Currency::CHF),
        ('I', 'S', 'K') => Some(Currency::ISK),
        ('N', 'O', 'K') => Some(Currency::NOK),
        ('H', 'R', 'K') => Some(Currency::HRK),
        ('R', 'U', 'B') => Some(Currency::RUB),
        ('T', 'R', 'Y') => Some(Currency::TRY),
        ('A', 'U', 'D') => Some(Currency::AUD),
        ('B', 'R', 'L') => Some(Currency::BRL),
        ('C', 'A', 'D') => Some(Currency::CAD),
        ('C', 'N', 'Y') => Some(Currency::CNY),
        ('H', 'K', 'D') => Some(Currency::HKD),
        ('I', 'D', 'R') => Some(Currency::IDR),
        ('I', 'L', 'S') => Some(Currency::ILS),
        ('I', 'N', 'R') => Some(Currency::INR),
        ('K', 'R', 'W') => Some(Currency::KRW),
        ('M', 'X', 'N') => Some(Currency::MXN),
        ('M', 'Y', 'R') => Some(Currency::MYR),
        ('N', 'Z', 'D') => Some(Currency::NZD),
        ('P', 'H', 'P') => Some(Currency::PHP),
        ('S', 'G', 'D') => Some(Currency::SGD),
        ('T', 'H', 'B') => Some(Currency::THB),
        ('Z', 'A', 'R') => Some(Currency::ZAR),
            _ => None,
        }
    }
}

/// Reading a currency's own code gives that currency back.
pub proof fn lemma_code_round_trip(currency: Currency)
    ensures
        currency_of_code(currency.code()) == Some(currency),
{
}

/// A code that names a currency is that currency's code.
pub proof fn lemma_code_of_named(code: Seq<char>)
    ensures
        currency_of_code(code) matches Some(currency) ==> currency.code() == code,
{
    if let Some(currency) = currency_of_code(code) {
        assert(currency.code() =~= code);
    }
}

/// Why an amount could not be expressed in euros: the table holds no rate
/// for the currency.
#[derive(Clone, Copy, Debug, PartialEq, Eq, Structural)]
pub struct RateUnavailable {
    pub currency: Currency,
}

/// The euro value of `amount` of `currency` under `rates`, in millionths.
///
/// Euros pass through unchanged. Any other currency is divided by its rate,
/// which counts millionths of the currency per euro; what is left below one
/// millionth of a euro is dropped.
pub open spec fn euros_of(rates: Map<Currency, u64>, amount: u64, currency: Currency) -> Result<
    u128,
    RateUnavailable,
> {
    if currency == Currency::EUR {
        Ok(amount as u128)
    } else if rates.contains_key(currency) {
        Ok((amount as int * MICROS_PER_UNIT as int / rates[currency] as int) as u128)
    } else {
        Err(RateUnavailable { currency })
    }
}

/// A snapshot of reference rates: for each currency other than the euro,
/// how many millionths of that currency one euro buys.
///
/// The euro itself has no rate, and every rate is above zero.
#[derive(Clone, Debug)]
pub struct ExchangeRates {
    /// The rates, by `Currency::index`.
    rates: HashMap<usize, u64>,
}

impl View for ExchangeRates {
    type V = Map<Currency, u64>;

    closed spec fn view(&self) -> Map<Currency, u64> {
        Map::new(
            |c: Currency|
                c != Currency::EUR && self.rates@.contains_key(c.ordinal() as usize)
                    && self.rates@[c.ordinal() as usize] > 0,
            |c: Currency| self.rates@[c.ordinal() as usize],
        )
    }
}

impl ExchangeRates {
    /// A table without any rate: only euro amounts can be converted.
    pub fn new() -> (table: Self)
        ensures
            table@ == Map::<Currency, u64>::empty(),
    {
        let table = ExchangeRates { rates: HashMap::new() };
        assert(table@ =~= Map::<Currency, u64>::empty());
        table
    }

    /// Records `rate` (millionths of `currency` per euro) for `currency`,
    /// replacing an earlier one. The euro and a rate of zero are refused,
    /// and the table is then left as it was.
    pub fn insert(&mut self, currency: Currency, rate: u64) -> (accepted: bool)
        ensures
            accepted == (currency != Currency::EUR && rate > 0),
            accepted ==> final(self)@ == old(self)@.insert(currency, rate),
            !accepted ==> final(self)@ == old(self)@,
    {
        if rate == 0 {
            return false;
        }
        match currency {
            Currency::EUR => false,
            _ => {
                self.rates.insert(currency.index(), rate);
                assert(self@ =~= old(self)@.insert(currency, rate)) by {
                    lemma_ordinal_injective();
                }
                true
            },
        }
    }

    /// The rate recorded for `currency`, if any.
    pub fn rate_of(&self, currency: Currency) -> (rate: Option<u64>)
        ensures
            rate == if self@.contains_key(currency) {
                Some(self@[currency])
            } else {
                None
            },
            rate matches Some(r) ==> r > 0 && currency != Currency::EUR,
    {
        let slot = currency.index();
        match currency {
            Currency::EUR => None,
            _ => match self.rates.get(&slot) {
                Some(rate) => if *rate > 0 {
                    Some(*rate)
                } else {
                    None
                },
                None => None,
            },
        }
    }

    /// Expresses `amount` (millionths of `currency`) in millionths of a euro.
    pub fn to_euros(&self, amount: u64, currency: &Currency) -> (euros: Result<
        u128,
        RateUnavailable,
    >)
        ensures
            euros == euros_of(self@, amount, *currency),
    {
        match currency {
            Currency::EUR => Ok(amount as u128),
            _ => match self.rate_of(*currency) {
                Some(rate) => {
                    let scaled: u128 = (amount as u128) * (MICROS_PER_UNIT as u128);
                    Ok(scaled / (rate as u128))
                },
                None => Err(RateUnavailable { currency: *currency }),
            },
        }
    }
}

impl Default for ExchangeRates {
    fn default() -> (table: Self)
        ensures
            table@ == Map::<Currency, u64>::empty(),
    {
        ExchangeRates::new()
    }
}

/// No two currencies share a position.
pub proof fn lemma_ordinal_injective()
    ensures
        forall|a: Currency, b: Currency| a.ordinal() == b.ordinal() ==> a == b,
{
}

/// Euro amounts are returned as they are, whatever the table holds.
pub proof fn lemma_euro_passthrough(rates: Map<Currency, u64>, amount: u64)
    ensures
        euros_of(rates, amount, Currency::EUR) == Ok::<u128, RateUnavailable>(amount as u128),
{
}

/// For a currency with rate `r`, the result is the quotient `amount / r`
/// cut off at a millionth of a euro: the largest `e` with
/// `e * r <= amount * 1_000_000`.
pub proof fn lemma_conversion_is_quotient(rates: Map<Currency, u64>, amount: u64, currency: Currency)
    requires
        currency != Currency::EUR,
        rates.contains_key(currency),
        rates[currency] > 0,
    ensures
        euros_of(rates, amount, currency) matches Ok(e) && e * rates[currency] <= amount
            * MICROS_PER_UNIT < (e + 1) * rates[currency],
{
    let n = amount as int * MICROS_PER_UNIT as int;
    let r = rates[currency] as int;
    vstd::arithmetic::div_mod::lemma_fundamental_div_mod(n, r);
    vstd::arithmetic::div_mod::lemma_mod_bound(n, r);
    vstd::arithmetic::div_mod::lemma_div_pos_is_pos(n, r);
    assert(n / r <= n) by {
        vstd::arithmetic::div_mod::lemma_div_is_ordered_by_denominator(n, 1, r);
    }
    assert(r * (n / r) == (n / r) * r) by (nonlinear_arith);
    assert((n / r + 1) * r == (n / r) * r + r) by (nonlinear_arith);
}

/// With the rate fixed, a larger amount never converts to fewer euros.
pub proof fn lemma_conversion_monotonic(
    rates: Map<Currency, u64>,
    smaller: u64,
    larger: u64,
    currency: Currency,
)
    requires
        smaller <= larger,
        currency != Currency::EUR,
        rates.contains_key(currency),
        rates[currency] > 0,
    ensures
        euros_of(rates, smaller, currency)->Ok_0 <= euros_of(rates, larger, currency)->Ok_0,
{
    let r = rates[currency] as int;
    let a = smaller as int * MICROS_PER_UNIT as int;
    let b = larger as int * MICROS_PER_UNIT as int;
    vstd::arithmetic::div_mod::lemma_div_is_ordered(a, b, r);
    vstd::arithmetic::div_mod::lemma_div_pos_is_pos(a, r);
    vstd::arithmetic::div_mod::lemma_div_pos_is_pos(b, r);
    vstd::arithmetic::div_mod::lemma_div_is_ordered_by_denominator(a, 1, r);
    vstd::arithmetic::div_mod::lemma_div_is_ordered_by_denominator(b, 1, r);
}

} // verus!
