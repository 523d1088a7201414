use crackathon::input_parser::{parse_addition_input, Input, ParseError};
use crackathon::legacy::input_parser as legacy_parser;

#[test]
fn test_set_code_override() {
    let input = String::from("1 blb");
    let second_input = String::from("1");

    let expected = Input {
        card_number: "1".to_string(),
        set_code: "blb".to_string(),
        foil: false,
        removal: false,
    };
    let second_expected = Input {
        card_number: "1".to_string(),
        set_code: "dsk".to_string(),
        foil: false,
        removal: false,
    };

    let res = parse_addition_input(input, Some("dsk".to_string())).unwrap();
    let second_res = parse_addition_input(second_input, Some("dsk".to_string())).unwrap();

    assert_eq!(res, expected);
    assert_eq!(second_res, second_expected);
}

#[test]
fn test_simple_input_provided_setcode() {
    let input = String::from("1");
    let expected = Input {
        card_number: "1".to_string(),
        set_code: "blb".to_string(),
        foil: false,
        removal: false,
    };

    let res = parse_addition_input(input, Some("blb".to_string())).unwrap();

    assert_eq!(res, expected)
}

#[test]
fn test_simple_with_set() {
    let input = "1 dsk".to_string();
    let expected = Input {
        card_number: "1".to_string(),
        set_code: "dsk".to_string(),
        foil: false,
        removal: false,
    };

    let res = parse_addition_input(input, None).unwrap();
    assert_eq!(res, expected)
}

#[test]
fn test_removal_input() {
    let input = "-2 dsk".to_string();
    let expected = Input {
        card_number: 2.to_string(),
        set_code: "dsk".to_string(),
        foil: false,
        removal: true,
    };
    let res = parse_addition_input(input, None).unwrap();
    assert_eq!(res, expected)
}

#[test]
fn test_simple_foil_input() {
    let input = "1f".to_string();
    let expected = Input {
        card_number: "1".to_string(),
        set_code: "blb".to_string(),
        foil: true,
        removal: false,
    };
    let res = parse_addition_input(input, Some("blb".to_string())).unwrap();
    assert_eq!(res, expected)
}

#[test]
fn test_only_allow_minus_on_card_number() {
    assert!(parse_addition_input("1 -dsk".to_string(), None).is_err());
    assert!(parse_addition_input("1-f".to_string(), None).is_err());
}

#[test]
fn test_nonalphanumeric_set_code_is_reported() {
    let res = parse_addition_input("3 d_k".to_string(), None);
    assert_eq!(
        res,
        Err(ParseError::NonAlphanumericSetCode("d_k".to_string()))
    );
}

#[test]
fn test_missing_set_code_is_reported() {
    let res = parse_addition_input("3".to_string(), None);
    assert_eq!(res, Err(ParseError::MissingSetCode));
}

#[test]
fn test_removal_and_foil_combine() {
    let res = parse_addition_input("-12f dsk".to_string(), None).unwrap();
    assert_eq!(
        res,
        Input {
            card_number: "12".to_string(),
            set_code: "dsk".to_string(),
            foil: true,
            removal: true,
        }
    );
}

#[test]
fn input_parser_test_simple_input_provided_setcode() {
    let input = String::from("1");
    let expected = legacy_parser::Input {
        card_number: "1".to_string(),
        set_code: "blb".to_string(),
        foil: false,
        removal: false,
    };

    let res = legacy_parser::parse_addition_input(input, Some("blb".to_string())).unwrap();

    assert_eq!(res, expected)
}

#[test]
fn input_parser_test_simple_with_set() {
    let input = "dsk 1".to_string();
    let expected = legacy_parser::Input {
        card_number: "1".to_string(),
        set_code: "dsk".to_string(),
        foil: false,
        removal: false,
    };

    let res = legacy_parser::parse_addition_input(input, None).unwrap();
    assert_eq!(res, expected)
}

#[test]
fn input_parser_test_simple_foil_input() {
    let input = "1f".to_string();
    let expected = legacy_parser::Input {
        card_number: "1".to_string(),
        set_code: "blb".to_string(),
        foil: true,
        removal: false,
    };
    let res = legacy_parser::parse_addition_input(input, Some("blb".to_string())).unwrap();
    assert_eq!(res, expected)
}

#[test]
fn legacy_unparsable_input_is_reported() {
    let res = legacy_parser::parse_addition_input("512".to_string(), None);
    assert_eq!(
        res,
        Err(legacy_parser::ParseError::UnparsableInput("512".to_string()))
    );
}

#[test]
fn legacy_stalling_input_yields_nothing() {
    let res = legacy_parser::try_parse_addition_input("1.5 dsk".to_string(), None);
    assert!(res.is_none());
}

#[test]
fn legacy_terminating_input_parses_through_the_check() {
    let res = legacy_parser::try_parse_addition_input("dsk 2".to_string(), None)
        .unwrap()
        .unwrap();
    assert_eq!(
        res,
        legacy_parser::Input {
            card_number: "2".to_string(),
            set_code: "dsk".to_string(),
            foil: false,
            removal: false,
        }
    );
}
