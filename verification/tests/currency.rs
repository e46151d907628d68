use enrichment::currency_exchange::{Currency, ExchangeRates, RateUnavailable, MICROS_PER_UNIT};

#[test]
fn test_from_euros_to_euros() {
    let exchange_rates = ExchangeRates::new();
    let amount: u64 = 100 * MICROS_PER_UNIT;

    assert_eq!(exchange_rates.to_euros(amount, &Currency::EUR), Ok(100 * 1_000_000));
}

#[test]
fn euros_pass_through_even_with_rates_loaded() {
    let mut rates = ExchangeRates::new();
    assert!(rates.insert(Currency::USD, 1_100_000));
    assert_eq!(rates.to_euros(0, &Currency::EUR), Ok(0));
    assert_eq!(rates.to_euros(123_456_789, &Currency::EUR), Ok(123_456_789));
    assert_eq!(rates.to_euros(u64::MAX, &Currency::EUR), Ok(u64::MAX as u128));
}

#[test]
fn amount_is_divided_by_the_rate() {
    let mut rates = ExchangeRates::new();
    assert!(rates.insert(Currency::USD, 1_100_000));
    assert!(rates.insert(Currency::JPY, 157_830_000));
    // 100 USD at 1.1 USD per EUR: 90.909090 EUR, cut off at a millionth
    assert_eq!(rates.to_euros(100_000_000, &Currency::USD), Ok(90_909_090));
    // 10 USD and 5 USD
    assert_eq!(rates.to_euros(10_000_000, &Currency::USD), Ok(9_090_909));
    assert_eq!(rates.to_euros(5_000_000, &Currency::USD), Ok(4_545_454));
    // 15783 JPY at 157.83 JPY per EUR: exactly 100 EUR
    assert_eq!(rates.to_euros(15_783_000_000, &Currency::JPY), Ok(100_000_000));
}

#[test]
fn conversion_never_overflows() {
    let mut rates = ExchangeRates::new();
    assert!(rates.insert(Currency::GBP, 1));
    assert_eq!(
        rates.to_euros(u64::MAX, &Currency::GBP),
        Ok(u64::MAX as u128 * 1_000_000)
    );
}

#[test]
fn conversion_grows_with_the_amount() {
    let mut rates = ExchangeRates::new();
    assert!(rates.insert(Currency::CHF, 953_700));
    let mut last = 0u128;
    for amount in [0u64, 1, 2, 953_699, 953_700, 953_701, 1_000_000, 7_777_777, u64::MAX] {
        let euros = rates.to_euros(amount, &Currency::CHF).unwrap();
        assert!(euros >= last);
        // the quotient, cut off: euros * rate <= amount * 1e6 < (euros + 1) * rate
        assert!(euros * 953_700 <= amount as u128 * 1_000_000);
        assert!((euros + 1) * 953_700 > amount as u128 * 1_000_000);
        last = euros;
    }
}

#[test]
fn missing_rate_is_reported() {
    let mut rates = ExchangeRates::new();
    assert_eq!(
        rates.to_euros(5, &Currency::USD),
        Err(RateUnavailable { currency: Currency::USD })
    );
    assert!(rates.insert(Currency::GBP, 857_130));
    assert_eq!(
        rates.to_euros(5, &Currency::USD),
        Err(RateUnavailable { currency: Currency::USD })
    );
    assert_eq!(rates.rate_of(Currency::GBP), Some(857_130));
    assert_eq!(rates.rate_of(Currency::USD), None);
}

#[test]
fn euro_and_zero_rates_are_refused() {
    let mut rates = ExchangeRates::new();
    assert!(!rates.insert(Currency::EUR, 1_000_000));
    assert!(!rates.insert(Currency::USD, 0));
    assert_eq!(rates.rate_of(Currency::EUR), None);
    assert_eq!(rates.rate_of(Currency::USD), None);
    assert!(rates.insert(Currency::USD, 1_100_000));
    assert!(rates.insert(Currency::USD, 1_200_000));
    assert_eq!(rates.rate_of(Currency::USD), Some(1_200_000));
    assert!(!rates.insert(Currency::USD, 0));
    assert_eq!(rates.rate_of(Currency::USD), Some(1_200_000));
}

#[test]
fn default_table_is_empty() {
    let rates = ExchangeRates::default();
    assert_eq!(rates.rate_of(Currency::ZAR), None);
}

#[test]
fn currency_codes_round_trip() {
    let all = [
        Currency::EUR, Currency::USD, Currency::JPY, Currency::BGN, Currency::CZK, Currency::DKK,
        Currency::GBP, Currency::HUF, Currency::PLN, Currency::RON, Currency::SEK, Currency::CHF,
        Currency::ISK, Currency::NOK, Currency::HRK, Currency::RUB, Currency::TRY, Currency::AUD,
        Currency::BRL, Currency::CAD, Currency::CNY, Currency::HKD, Currency::IDR, Currency::ILS,
        Currency::INR, Currency::KRW, Currency::MXN, Currency::MYR, Currency::NZD, Currency::PHP,
        Currency::SGD, Currency::THB, Currency::ZAR,
    ];
    for (i, currency) in all.iter().enumerate() {
        assert_eq!(currency.index(), i);
        assert_eq!(currency.as_str().len(), 3);
        assert_eq!(Currency::from_code(currency.as_str()), Some(*currency));
    }
    assert_eq!(Currency::USD.as_str(), "USD");
    assert_eq!(Currency::from_code("ZAR"), Some(Currency::ZAR));
}

#[test]
fn unknown_currency_codes_are_refused() {
    assert_eq!(Currency::from_code(""), None);
    assert_eq!(Currency::from_code("usd"), None);
    assert_eq!(Currency::from_code("US"), None);
    assert_eq!(Currency::from_code("USDX"), None);
    assert_eq!(Currency::from_code("QQQ"), None);
    assert_eq!(Currency::from_code("€UR"), None);
}
