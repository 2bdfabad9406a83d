use yuck::dynval::DynVal;
use yuck::dynval::FromDynVal;
use yuck::monitor::MonitorIdentifier;

#[test]
fn integer_strings_parse_as_numeric() {
    assert!(matches!(MonitorIdentifier::from_str("3"), MonitorIdentifier::Numeric(3)));
    assert!(matches!(MonitorIdentifier::from_str("-2"), MonitorIdentifier::Numeric(-2)));
    assert!(matches!(MonitorIdentifier::from_str("+7"), MonitorIdentifier::Numeric(7)));
    assert!(MonitorIdentifier::from_str("0").is_numeric());
}

#[test]
fn other_strings_parse_as_names() {
    let m = MonitorIdentifier::from_str("DP-1");
    assert!(!m.is_numeric());
    assert!(matches!(m, MonitorIdentifier::Name(n) if n == "DP-1"));
    assert!(!MonitorIdentifier::from_str("").is_numeric());
    assert!(!MonitorIdentifier::from_str("3 ").is_numeric());
}

#[test]
fn display_round_trips_for_both_variants() {
    assert_eq!(MonitorIdentifier::from_str("3").to_display_string(), "3");
    assert_eq!(MonitorIdentifier::from_str("-12").to_display_string(), "-12");
    assert_eq!(MonitorIdentifier::from_str("eDP-1").to_display_string(), "eDP-1");
    assert_eq!(MonitorIdentifier::from_str("").to_display_string(), "");
}

#[test]
fn non_canonical_integer_text_is_normalised() {
    let m = MonitorIdentifier::from_str("007");
    assert!(m.is_numeric());
    assert_eq!(m.to_display_string(), "7");
    assert_eq!(MonitorIdentifier::from_str("+5").to_display_string(), "5");
}

#[test]
fn from_dynval_tries_the_numeric_reading_first() {
    let v = DynVal::from_string("5".to_string());
    let m = MonitorIdentifier::from_dynval(&v).unwrap();
    assert!(m.is_numeric());
    let v = DynVal::from_string("main".to_string());
    let m = MonitorIdentifier::from_dynval(&v).unwrap();
    assert!(!m.is_numeric());
}

#[test]
fn out_of_range_integers_fall_back_to_names() {
    assert!(!MonitorIdentifier::from_str("2147483648").is_numeric());
    assert!(MonitorIdentifier::from_str("2147483647").is_numeric());
    assert!(MonitorIdentifier::from_str("-2147483648").is_numeric());
    assert!(!MonitorIdentifier::from_str("-2147483649").is_numeric());
}

#[test]
fn to_dynval_carries_the_display_text() {
    let v = MonitorIdentifier::from_str("2").to_dynval();
    assert_eq!(v.text, "2");
    let v = MonitorIdentifier::from_str("HDMI-A-1").to_dynval();
    assert_eq!(v.text, "HDMI-A-1");
}
