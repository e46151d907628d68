use enrichment::currency_exchange::Currency;
use enrichment::neobase::{Location, LocationFieldError};
use enrichment::reference_rates::{rates_from_row, RateRowError};

fn row(cells: &[&str]) -> Vec<String> {
    cells.iter().map(|c| c.to_string()).collect()
}

#[test]
fn rates_of_the_last_row() {
    let header = row(&["Date", " USD", "JPY ", " GBP ", ""]);
    let rates = rates_from_row(&header, &row(&["1 March 2024", " 1.0876", "157.83", "0.85713", ""]))
        .unwrap();
    assert_eq!(rates.rate_of(Currency::USD), Some(1_087_600));
    assert_eq!(rates.rate_of(Currency::JPY), Some(157_830_000));
    assert_eq!(rates.rate_of(Currency::GBP), Some(857_130));
    assert_eq!(rates.rate_of(Currency::CHF), None);
    assert_eq!(rates.rate_of(Currency::EUR), None);
    assert_eq!(rates.to_euros(108_760_000, &Currency::USD), Ok(100_000_000));
}

#[test]
fn the_first_column_is_not_read() {
    let rates = rates_from_row(&row(&["USD", "USD"]), &row(&["9", "1.5"])).unwrap();
    assert_eq!(rates.rate_of(Currency::USD), Some(1_500_000));
    let rates = rates_from_row(&row(&["nonsense"]), &row(&["more nonsense"])).unwrap();
    assert_eq!(rates.rate_of(Currency::USD), None);
    let rates = rates_from_row(&row(&[]), &row(&[])).unwrap();
    assert_eq!(rates.rate_of(Currency::USD), None);
    let rates = rates_from_row(&row(&["Date", "USD"]), &row(&["today"])).unwrap();
    assert_eq!(rates.rate_of(Currency::USD), None);
}

#[test]
fn columns_without_a_name_are_skipped() {
    let rates =
        rates_from_row(&row(&["Date", "", "  ", "CHF"]), &row(&["d", "x", "N/A", "0.9537"]))
            .unwrap();
    assert_eq!(rates.rate_of(Currency::CHF), Some(953_700));
}

#[test]
fn a_later_rate_replaces_an_earlier_one() {
    let rates =
        rates_from_row(&row(&["Date", "USD", "USD"]), &row(&["d", "1.1", "1.2"])).unwrap();
    assert_eq!(rates.rate_of(Currency::USD), Some(1_200_000));
}

#[test]
fn rows_that_give_no_table() {
    let header = row(&["Date", "USD", "ABC", "GBP"]);
    assert_eq!(
        rates_from_row(&header, &row(&["d", "1.1", "2", "3"])).unwrap_err(),
        RateRowError::UnknownCurrency(2)
    );
    assert_eq!(
        rates_from_row(&header, &row(&["d", "N/A", "2", "3"])).unwrap_err(),
        RateRowError::BadRate(1)
    );
    for bad in ["", "0", "0.0000001", "-1.1", "1,1", "1.1 USD"] {
        assert_eq!(
            rates_from_row(&header, &row(&["d", bad])).unwrap_err(),
            RateRowError::BadRate(1)
        );
    }
    assert_eq!(
        rates_from_row(&row(&["Date", "USD", "EUR"]), &row(&["d", "1.1", "1"])).unwrap_err(),
        RateRowError::BadRate(2)
    );
    assert_eq!(
        rates_from_row(&row(&["Date", "USD"]), &row(&["d", "1.1", "2"])).unwrap_err(),
        RateRowError::NoHeader(2)
    );
    assert_eq!(
        rates_from_row(&row(&[]), &row(&["d", "1.1"])).unwrap_err(),
        RateRowError::NoHeader(1)
    );
}

fn located(latitude: &str, longitude: &str) -> Result<Option<(i32, i32)>, LocationFieldError> {
    Location::from_fields(latitude, longitude, "FR".to_string(), "PAR")
        .map(|l| l.coordinates.map(|p| (p.latitude(), p.longitude())))
}

#[test]
fn a_location_from_its_fields() {
    let location =
        Location::from_fields("49.012779", "2.55", "FR".to_string(), "PAR,BVA").unwrap();
    let point = location.coordinates.unwrap();
    assert_eq!(point.latitude(), 49_012_779);
    assert_eq!(point.longitude(), 2_550_000);
    assert_eq!(location.country_code, "FR");
    assert_eq!(location.city_code_list, vec!["PAR", "BVA"]);
}

#[test]
fn degrees_are_cut_off_at_a_millionth() {
    assert_eq!(located("-33.9461119", "151.1772229"), Ok(Some((-33_946_111, 151_177_222))));
    assert_eq!(located("0", "-0"), Ok(Some((0, 0))));
    assert_eq!(located("90", "-180"), Ok(Some((90_000_000, -180_000_000))));
    assert_eq!(located("-9e1", "1.8E2"), Ok(Some((-90_000_000, 180_000_000))));
    assert_eq!(located("+.5", "5."), Ok(Some((500_000, 5_000_000))));
}

#[test]
fn a_location_without_latitude_or_longitude_lies_nowhere() {
    assert_eq!(located("", ""), Ok(None));
    assert_eq!(located("49.0", ""), Ok(None));
    assert_eq!(located("", "2.55"), Ok(None));
    assert_eq!(located("", "999"), Ok(None));
}

#[test]
fn fields_that_give_no_location() {
    assert_eq!(located("north", "2.55"), Err(LocationFieldError::BadLatitude));
    assert_eq!(located("north", "east"), Err(LocationFieldError::BadLatitude));
    assert_eq!(located(" 49", "2.55"), Err(LocationFieldError::BadLatitude));
    assert_eq!(located("3000", "2.55"), Err(LocationFieldError::BadLatitude));
    assert_eq!(located("49.0", "east"), Err(LocationFieldError::BadLongitude));
    assert_eq!(located("", "east"), Err(LocationFieldError::BadLongitude));
    assert_eq!(located("90.000001", "0"), Err(LocationFieldError::OffGlobe));
    assert_eq!(located("-90.000001", "0"), Err(LocationFieldError::OffGlobe));
    assert_eq!(located("0", "180.000001"), Err(LocationFieldError::OffGlobe));
    assert_eq!(located("0", "-180.000001"), Err(LocationFieldError::OffGlobe));
}

#[test]
fn an_empty_city_list_is_one_empty_city() {
    let location = Location::from_fields("", "", "".to_string(), "").unwrap();
    assert_eq!(location.city_code_list, vec![""]);
    assert_eq!(location.country_code, "");
}
