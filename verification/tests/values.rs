use yuck::anchor::parse_anchor;
use yuck::anchor::AnchorAlignment;
use yuck::anchor::AnchorPoint;
use yuck::coords::parse_coords;
use yuck::coords::parse_num_with_unit;
use yuck::coords::Coords;
use yuck::coords::NumWithUnit;
use yuck::dynval::DynVal;
use yuck::dynval::Duration;
use yuck::dynval::FromDynVal;
use yuck::dynval::TargetType;

fn val(s: &str) -> DynVal {
    DynVal::from_string(s.to_string())
}

#[test]
fn as_i32_reads_integers_and_reports_failures() {
    assert_eq!(val("42").as_i32().unwrap(), 42);
    assert_eq!(val("-7").as_i32().unwrap(), -7);
    let e = val("4.5").as_i32().unwrap_err();
    assert_eq!(e.target, TargetType::Integer);
    assert_eq!(e.value.text, "4.5");
    assert!(val("2147483648").as_i32().is_err());
}

#[test]
fn as_string_never_fails_and_keeps_the_text() {
    assert_eq!(val("anything at all").as_string().unwrap(), "anything at all");
    assert_eq!(val("").as_string().unwrap(), "");
}

#[test]
fn conversions_read_the_text_without_changing_it() {
    let span = yuck::dynval::Span { start: 4, end: 9, file_id: 1 };
    let v = DynVal::new("12".to_string(), span);
    assert_eq!(v.span, Some(span));
    assert_eq!(v.as_i32().unwrap(), 12);
    assert!(v.as_bool().is_err());
    assert_eq!(v.text, "12");
    assert_eq!(v.as_string().unwrap(), "12");
}

#[test]
fn as_bool_accepts_exactly_true_and_false() {
    assert_eq!(val("true").as_bool().unwrap(), true);
    assert_eq!(val("false").as_bool().unwrap(), false);
    let e = val("yes").as_bool().unwrap_err();
    assert_eq!(e.target, TargetType::Boolean);
    assert!(val("True").as_bool().is_err());
    assert!(val("").as_bool().is_err());
}

#[test]
fn durations_scale_by_their_unit_suffix() {
    assert_eq!(val("500ms").as_duration().unwrap(), Duration { millis: 500 });
    assert_eq!(val("2s").as_duration().unwrap(), Duration { millis: 2000 });
    assert_eq!(val("3m").as_duration().unwrap(), Duration { millis: 180000 });
    assert_eq!(val("1h").as_duration().unwrap(), Duration { millis: 3600000 });
    assert_eq!(val("0ms").as_duration().unwrap(), Duration { millis: 0 });
}

#[test]
fn malformed_durations_are_conversion_errors() {
    let e = val("5").as_duration().unwrap_err();
    assert_eq!(e.target, TargetType::Duration);
    assert!(val("ms").as_duration().is_err());
    assert!(val("1.5s").as_duration().is_err());
    assert!(val("-2s").as_duration().is_err());
    assert!(val("").as_duration().is_err());
    // the millisecond total must fit in 64 bits
    assert!(val("18446744073709551615ms").as_duration().unwrap().millis == u64::MAX);
    assert!(val("18446744073709551616ms").as_duration().is_err());
    assert!(val("18446744073709551615h").as_duration().is_err());
}

#[test]
fn coordinates_split_on_the_first_separator() {
    assert_eq!(
        parse_coords("800x600"),
        Some(Coords { x: NumWithUnit::Px(800), y: NumWithUnit::Px(600) })
    );
    assert_eq!(
        parse_coords("50%x70%"),
        Some(Coords { x: NumWithUnit::Percent(50), y: NumWithUnit::Percent(70) })
    );
    assert_eq!(
        parse_coords("20*-30"),
        Some(Coords { x: NumWithUnit::Px(20), y: NumWithUnit::Px(-30) })
    );
}

#[test]
fn malformed_coordinates_are_rejected() {
    assert_eq!(parse_coords("800"), None);
    assert_eq!(parse_coords("x600"), None);
    assert_eq!(parse_coords("800x"), None);
    assert_eq!(parse_coords("axb"), None);
    assert_eq!(parse_coords(""), None);
    let e = Coords::from_dynval(&val("oops")).unwrap_err();
    assert_eq!(e.target, TargetType::Coords);
}

#[test]
fn lengths_read_pixels_or_percent() {
    assert_eq!(parse_num_with_unit("15"), Some(NumWithUnit::Px(15)));
    assert_eq!(parse_num_with_unit("-4"), Some(NumWithUnit::Px(-4)));
    assert_eq!(parse_num_with_unit("33%"), Some(NumWithUnit::Percent(33)));
    assert_eq!(parse_num_with_unit("%"), None);
    assert_eq!(parse_num_with_unit("12px"), None);
}

#[test]
fn anchors_accept_center_and_two_word_forms() {
    let c = AnchorPoint { x: AnchorAlignment::Center, y: AnchorAlignment::Center };
    assert_eq!(parse_anchor("center"), Some(c));
    assert_eq!(
        parse_anchor("top left"),
        Some(AnchorPoint { x: AnchorAlignment::Start, y: AnchorAlignment::Start })
    );
    assert_eq!(
        parse_anchor("left top"),
        Some(AnchorPoint { x: AnchorAlignment::Start, y: AnchorAlignment::Start })
    );
    assert_eq!(
        parse_anchor("bottom right"),
        Some(AnchorPoint { x: AnchorAlignment::End, y: AnchorAlignment::End })
    );
    assert_eq!(parse_anchor("center right"), Some(AnchorPoint {
        x: AnchorAlignment::End,
        y: AnchorAlignment::Center,
    }));
}

#[test]
fn malformed_anchors_are_rejected() {
    assert_eq!(parse_anchor("up down"), None);
    assert_eq!(parse_anchor("top"), None);
    assert_eq!(parse_anchor("top  left"), None);
    assert_eq!(parse_anchor(""), None);
    let e = AnchorPoint::from_dynval(&val("sideways")).unwrap_err();
    assert_eq!(e.target, TargetType::Anchor);
}
