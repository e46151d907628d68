//! The rate table that a row of reference rates gives.
//!
//! A rate file has a header that names a currency in each column but the
//! first, which holds the date, and rows that hold the rates of one day.

use vstd::prelude::*;

use crate::currency_exchange::{currency_of_code, Currency, ExchangeRates};
use crate::decimal::{micros_of_text, parse_micros};
use crate::text::{texts_of, trim, trimmed};

verus! {

/// Why a row of rates gives no rate table. Each variant holds the column,
/// counted from zero.
#[derive(Clone, Copy, Debug, PartialEq, Eq, Structural)]
pub enum RateRowError {
    /// The row has a column that the header does not have.
    NoHeader(usize),
    /// The header names no currency in the column.
    UnknownCurrency(usize),
    /// What the row holds in the column is no rate above zero, or the
    /// column is the euro's, which has no rate.
    BadRate(usize),
}

/// The rates `rates` with what column `column` adds.
///
/// A column whose header is empty adds nothing. Header and rate are read
/// without the white space around them, and a later rate takes the place of
/// an earlier one for the same currency.
pub open spec fn with_column(
    rates: Map<Currency, u64>,
    header: Seq<Seq<char>>,
    row: Seq<Seq<char>>,
    column: int,
) -> Result<Map<Currency, u64>, RateRowError> {
    if column >= header.len() {
        Err(RateRowError::NoHeader(column as usize))
    } else if trimmed(header[column]).len() == 0 {
        Ok(rates)
    } else {
        match currency_of_code(trimmed(header[column])) {
            None => Err(RateRowError::UnknownCurrency(column as usize)),
            Some(currency) => match micros_of_text(trimmed(row[column])) {
                Some(rate) => if currency != Currency::EUR && rate > 0 {
                    Ok(rates.insert(currency, rate))
                } else {
                    Err(RateRowError::BadRate(column as usize))
                },
                None => Err(RateRowError::BadRate(column as usize)),
            },
        }
    }
}

/// The rates that the columns of `row` before `upto` give, the first column
/// left out; the first column that fails refuses the row.
pub open spec fn rates_of_columns(header: Seq<Seq<char>>, row: Seq<Seq<char>>, upto: int) -> Result<
    Map<Currency, u64>,
    RateRowError,
>
    decreases upto,
{
    if upto <= 1 {
        Ok(Map::empty())
    } else {
        match rates_of_columns(header, row, upto - 1) {
            Err(e) => Err(e),
            Ok(rates) => with_column(rates, header, row, upto - 1),
        }
    }
}

/// The rates that `row` gives under `header`.
pub open spec fn rates_of_row(header: Seq<Seq<char>>, row: Seq<Seq<char>>) -> Result<
    Map<Currency, u64>,
    RateRowError,
> {
    rates_of_columns(header, row, row.len() as int)
}

/// A failure among the first columns is the failure of the row.
proof fn lemma_failure_persists(header: Seq<Seq<char>>, row: Seq<Seq<char>>, upto: int)
    requires
        upto <= row.len(),
        rates_of_columns(header, row, upto) is Err,
    ensures
        rates_of_row(header, row) == rates_of_columns(header, row, upto),
    decreases row.len() - upto,
{
    if upto < row.len() {
        lemma_failure_persists(header, row, upto + 1);
    }
}

/// Builds the rate table from the header of a rate file and one of its
/// rows.
pub fn rates_from_row(header: &Vec<String>, row: &Vec<String>) -> (table: Result<
    ExchangeRates,
    RateRowError,
>)
    ensures
        match table {
            Ok(t) => rates_of_row(texts_of(header@), texts_of(row@)) == Ok::<
                Map<Currency, u64>,
                RateRowError,
            >(t@),
            Err(e) => rates_of_row(texts_of(header@), texts_of(row@)) == Err::<
                Map<Currency, u64>,
                RateRowError,
            >(e),
        },
{
    let ghost names = texts_of(header@);
    let ghost cells = texts_of(row@);
    let mut table = ExchangeRates::new();
    let mut column: usize = 1;
    while column < row.len()
        invariant
            1 <= column,
            names == texts_of(header@),
            cells == texts_of(row@),
            column <= row@.len() || (row@.len() == 0 && column == 1),
            rates_of_columns(names, cells, column as int) == Ok::<Map<Currency, u64>, RateRowError>(
                table@,
            ),
        decreases row@.len() - column,
    {
        proof {
            assert(cells[column as int] == row@[column as int]@);
            if column < header@.len() {
                assert(names[column as int] == header@[column as int]@);
            }
        }
        if column >= header.len() {
            proof {
                lemma_failure_persists(names, cells, column + 1);
            }
            return Err(RateRowError::NoHeader(column));
        }
        let name = trim(header[column].as_str());
        if !name.as_str().is_empty() {
            let currency = match Currency::from_code(name.as_str()) {
                Some(currency) => currency,
                None => {
                    proof {
                        lemma_failure_persists(names, cells, column + 1);
                    }
                    return Err(RateRowError::UnknownCurrency(column));
                },
            };
            let cell = trim(row[column].as_str());
            let accepted = match parse_micros(cell.as_str()) {
                Some(rate) => table.insert(currency, rate),
                None => false,
            };
            if !accepted {
                proof {
                    lemma_failure_persists(names, cells, column + 1);
                }
                return Err(RateRowError::BadRate(column));
            }
        }
        column = column + 1;
    }
    proof {
        assert(cells.len() == row@.len());
        if row@.len() == 0 {
            assert(rates_of_columns(names, cells, 1) == rates_of_columns(names, cells, 0));
        }
    }
    Ok(table)
}

} // verus!
