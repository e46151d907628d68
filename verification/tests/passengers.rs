use enrichment::search::enriched_search::{
    parse_one_passenger_string, parse_passengers_string, ParsePassengerError, Passenger,
    PassengerType,
};

fn adults(n: u64) -> Passenger {
    Passenger { passenger_type: PassengerType::Adult, passenger_nb: n }
}

fn children(n: u64) -> Passenger {
    Passenger { passenger_type: PassengerType::Child, passenger_nb: n }
}

#[test]
fn one_adult_and_two_children() {
    assert_eq!(
        parse_passengers_string("ADT=1,CH=2"),
        Ok(vec![adults(1), children(2)])
    );
}

#[test]
fn order_of_the_pieces_is_kept() {
    assert_eq!(
        parse_passengers_string("CH=2,ADT=1,CH=0,ADT=3"),
        Ok(vec![children(2), adults(1), children(0), adults(3)])
    );
    assert_eq!(parse_passengers_string("ADT=1"), Ok(vec![adults(1)]));
}

#[test]
fn one_piece() {
    assert_eq!(parse_one_passenger_string("ADT=1"), Ok(adults(1)));
    assert_eq!(parse_one_passenger_string("CH=12"), Ok(children(12)));
    assert_eq!(parse_one_passenger_string("ADT=0"), Ok(adults(0)));
    assert_eq!(parse_one_passenger_string("ADT=007"), Ok(adults(7)));
    assert_eq!(parse_one_passenger_string("ADT=+4"), Ok(adults(4)));
    assert_eq!(
        parse_one_passenger_string("CH=18446744073709551615"),
        Ok(children(u64::MAX))
    );
}

#[test]
fn what_follows_a_second_equals_sign_is_not_read() {
    assert_eq!(parse_one_passenger_string("ADT=1=2"), Ok(adults(1)));
    assert_eq!(parse_one_passenger_string("CH=3=x=y"), Ok(children(3)));
}

#[test]
fn unknown_type_is_refused() {
    for piece in ["", "INF=1", "adt=1", "ADT1", "=1", "AD=1", "ADTT=1", " ADT=1", "CHD=2", "C"] {
        assert_eq!(
            parse_one_passenger_string(piece),
            Err(ParsePassengerError::FailedToParsePassengerTypeString(piece.to_string()))
        );
    }
}

#[test]
fn missing_count_is_refused() {
    assert_eq!(
        parse_one_passenger_string("ADT"),
        Err(ParsePassengerError::NoPassengerNumber("ADT".to_string()))
    );
    assert_eq!(
        parse_one_passenger_string("CH"),
        Err(ParsePassengerError::NoPassengerNumber("CH".to_string()))
    );
}

#[test]
fn bad_count_is_refused() {
    for piece in [
        "ADT=", "ADT=-1", "ADT=x", "ADT=1x", "ADT= 1", "ADT=1.5", "ADT=+", "ADT=++1", "ADT==1",
        "CH=18446744073709551616", "CH=99999999999999999999999", "ADT=١",
    ] {
        assert_eq!(
            parse_one_passenger_string(piece),
            Err(ParsePassengerError::FailedToParsePassengerNumber(piece.to_string()))
        );
    }
}

#[test]
fn first_bad_piece_refuses_the_string() {
    assert_eq!(
        parse_passengers_string("ADT=1,XX=2,CH=y"),
        Err(ParsePassengerError::FailedToParsePassengerTypeString("XX=2".to_string()))
    );
    assert_eq!(
        parse_passengers_string("ADT=1,CH=y,XX=2"),
        Err(ParsePassengerError::FailedToParsePassengerNumber("CH=y".to_string()))
    );
    assert_eq!(
        parse_passengers_string("ADT=1,CH"),
        Err(ParsePassengerError::NoPassengerNumber("CH".to_string()))
    );
}

#[test]
fn empty_pieces_are_refused() {
    assert_eq!(
        parse_passengers_string(""),
        Err(ParsePassengerError::FailedToParsePassengerTypeString("".to_string()))
    );
    assert_eq!(
        parse_passengers_string("ADT=1,"),
        Err(ParsePassengerError::FailedToParsePassengerTypeString("".to_string()))
    );
    assert_eq!(
        parse_passengers_string(",ADT=1"),
        Err(ParsePassengerError::FailedToParsePassengerTypeString("".to_string()))
    );
}

#[test]
fn wire_codes() {
    assert_eq!(PassengerType::Adult.as_str(), "ADT");
    assert_eq!(PassengerType::Child.as_str(), "CH");
}
