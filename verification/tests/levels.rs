use bunyan::{Error, NamedLogLevel, NumericalLogLevel};

#[test]
fn invalid_levels() {
    for invalid_level in &[
        "not-a-real-level",
        "'-1-", // Only positive values are allowed
        "256",  // Out of bounds for u8
    ] {
        match NumericalLogLevel::from_str(invalid_level) {
            Err(error) => {
                assert!(error.message().contains("Invalid level"));
                assert!(matches!(error, Error::InvalidLevel(ref given) if given == invalid_level));
            }
            Ok(level) => panic!("{:?}", level),
        }
    }
}

#[test]
fn valid_levels() {
    for valid_level in &["info", "10", "InFo", "INFO"] {
        assert!(NumericalLogLevel::from_str(valid_level).is_ok());
    }
    assert_eq!(NumericalLogLevel::from_str("info").unwrap(), NumericalLogLevel(30));
    assert_eq!(NumericalLogLevel::from_str("10").unwrap(), NumericalLogLevel(10));
    assert_eq!(NumericalLogLevel::from_str("InFo").unwrap(), NumericalLogLevel(30));
    assert_eq!(NumericalLogLevel::from_str("INFO").unwrap(), NumericalLogLevel(30));
}

#[test]
fn level_is_a_number_before_it_is_a_name() {
    assert_eq!(NumericalLogLevel::from_str("0").unwrap(), NumericalLogLevel(0));
    assert_eq!(NumericalLogLevel::from_str("255").unwrap(), NumericalLogLevel(255));
    assert_eq!(NumericalLogLevel::from_str("+32").unwrap(), NumericalLogLevel(32));
    assert_eq!(NumericalLogLevel::from_str("007").unwrap(), NumericalLogLevel(7));
    assert!(NumericalLogLevel::from_str("").is_err());
    assert!(NumericalLogLevel::from_str("+").is_err());
    assert!(NumericalLogLevel::from_str("-0").is_err());
    assert!(NumericalLogLevel::from_str(" 10").is_err());
    assert!(NumericalLogLevel::from_str("1e1").is_err());
}

#[test]
fn level_names_and_numbers_agree() {
    let table = [
        ("trace", 10u8, NamedLogLevel::Trace),
        ("debug", 20, NamedLogLevel::Debug),
        ("info", 30, NamedLogLevel::Info),
        ("warn", 40, NamedLogLevel::Warn),
        ("error", 50, NamedLogLevel::Error),
        ("fatal", 60, NamedLogLevel::Fatal),
    ];
    for (name, number, level) in table {
        assert_eq!(NamedLogLevel::from_str(name).unwrap(), level);
        assert_eq!(NamedLogLevel::from_str(&name.to_uppercase()).unwrap(), level);
        assert_eq!(NamedLogLevel::try_from(number).unwrap(), level);
        assert_eq!(level.to_u8(), number);
        assert_eq!(NumericalLogLevel::from_str(name).unwrap(), NumericalLogLevel(number));
    }
}

#[test]
fn unnamed_levels_are_reported() {
    for number in [0u8, 9, 11, 35, 55, 61, 255] {
        match NamedLogLevel::try_from(number) {
            Err(Error::UnnamedLevel(given)) => assert_eq!(given, number),
            other => panic!("{:?}", other),
        }
    }
    assert_eq!(
        NamedLogLevel::try_from(55).unwrap_err().message(),
        "55 does not correspond to a valid named log level.",
    );
    match NamedLogLevel::from_str("verbose") {
        Err(error) => assert_eq!(error.message(), "Invalid level value: 'verbose'"),
        Ok(level) => panic!("{:?}", level),
    }
}
