use yuck::ast::Ast;
use yuck::ast::AstIterator;
use yuck::ast::DiagKind;
use yuck::dynval::DynVal;
use yuck::dynval::Span;
use yuck::var_definition::VarDefinition;
use yuck::varmap::VarMap;

fn sp(start: usize, end: usize) -> Span {
    Span { start, end, file_id: 0 }
}

fn sym(s: &str) -> Ast {
    Ast::Symbol(sp(0, 0), s.to_string())
}

fn kw(s: &str) -> Ast {
    Ast::Keyword(sp(0, 0), s.to_string())
}

fn lit(s: &str) -> Ast {
    Ast::Literal(sp(0, 0), DynVal::from_string(s.to_string()))
}

fn tail(items: Vec<Ast>) -> AstIterator {
    AstIterator::new(sp(0, 10), items)
}

#[test]
fn parses_a_plain_defvar() {
    let d = VarDefinition::from_tail(sp(3, 9), tail(vec![sym("foo"), lit("hello")])).unwrap();
    assert_eq!(d.name.0, "foo");
    assert_eq!(d.initial_value.text, "hello");
    assert_eq!(d.per_window, false);
    assert_eq!(d.span, sp(3, 9));
}

#[test]
fn parses_the_per_window_flag() {
    let d = VarDefinition::from_tail(
        sp(0, 0),
        tail(vec![sym("foo"), kw("per_window"), lit("true"), lit("hello")]),
    )
    .unwrap();
    assert_eq!(d.per_window, true);
    let d = VarDefinition::from_tail(
        sp(0, 0),
        tail(vec![sym("foo"), kw("per_window"), lit("false"), lit("hello")]),
    )
    .unwrap();
    assert_eq!(d.per_window, false);
}

#[test]
fn rejects_a_non_boolean_per_window_value() {
    let e = VarDefinition::from_tail(
        sp(0, 0),
        tail(vec![sym("foo"), kw("per_window"), lit("maybe"), lit("hello")]),
    )
    .unwrap_err();
    assert!(matches!(e.kind, DiagKind::AttrConversion(_)));
    assert!(e.note.is_some());
}

#[test]
fn rejects_a_missing_name_symbol() {
    let e = VarDefinition::from_tail(sp(0, 0), tail(vec![lit("hello")])).unwrap_err();
    assert!(matches!(e.kind, DiagKind::WrongChild { .. }));
    assert!(e.note.unwrap().contains("defvar"));
}

#[test]
fn rejects_a_missing_initial_value() {
    let e = VarDefinition::from_tail(sp(0, 0), tail(vec![sym("foo")])).unwrap_err();
    assert!(matches!(e.kind, DiagKind::MissingChild { .. }));
}

#[test]
fn rejects_trailing_children() {
    let e = VarDefinition::from_tail(sp(0, 0), tail(vec![sym("foo"), lit("a"), lit("b")]))
        .unwrap_err();
    assert!(matches!(e.kind, DiagKind::TooManyChildren));
}

#[test]
fn rejects_a_keyword_without_a_value() {
    let e = VarDefinition::from_tail(sp(0, 0), tail(vec![sym("foo"), kw("per_window")]))
        .unwrap_err();
    assert!(matches!(e.kind, DiagKind::KeywordWithoutValue));
}

#[test]
fn element_name_is_defvar() {
    assert_eq!(VarDefinition::element_name(), "defvar");
}

#[test]
fn expect_operations_advance_one_child_at_a_time() {
    let mut it = tail(vec![sym("name"), kw("k"), lit("v"), lit("tail")]);
    let (_, name) = it.expect_symbol().unwrap();
    assert_eq!(name, "name");
    let attrs = it.expect_key_values().unwrap();
    assert_eq!(attrs.attrs.get("k").unwrap().text, "v");
    let (_, value) = it.expect_literal().unwrap();
    assert_eq!(value.text, "tail");
    assert!(it.expect_done().is_ok());
}

#[test]
fn expect_done_fails_while_children_remain() {
    let it = tail(vec![sym("x")]);
    assert!(matches!(it.expect_done().unwrap_err().kind, DiagKind::TooManyChildren));
}

#[test]
fn expect_symbol_fails_on_a_literal() {
    let mut it = tail(vec![lit("x")]);
    assert!(it.expect_symbol().is_err());
}

#[test]
fn key_values_stop_at_the_first_non_keyword() {
    let mut it = tail(vec![kw("a"), lit("1"), sym("rest")]);
    let attrs = it.expect_key_values().unwrap();
    assert_eq!(attrs.attrs.len(), 1);
    assert_eq!(attrs.attrs.get("a").unwrap().text, "1");
    let (_, s) = it.expect_symbol().unwrap();
    assert_eq!(s, "rest");
}

#[test]
fn later_attribute_occurrences_overwrite_earlier_ones() {
    let mut it = tail(vec![kw("a"), lit("1"), kw("a"), lit("2")]);
    let attrs = it.expect_key_values().unwrap();
    assert_eq!(attrs.attrs.len(), 1);
    assert_eq!(attrs.attrs.get("a").unwrap().text, "2");
}

#[test]
fn required_attributes_report_absence_or_bad_values() {
    let mut it = tail(vec![kw("present"), lit("1")]);
    let attrs = it.expect_key_values().unwrap();
    let e = attrs.primitive_required::<bool>("present").unwrap_err();
    assert!(matches!(e.kind, DiagKind::AttrConversion(_)));
    let e = attrs.primitive_required::<bool>("absent").unwrap_err();
    assert!(matches!(e.kind, DiagKind::MissingAttr { .. }));
    let mut it2 = tail(vec![kw("flag"), lit("true")]);
    let attrs2 = it2.expect_key_values().unwrap();
    assert_eq!(attrs2.primitive_required::<bool>("flag").unwrap(), true);
}

#[test]
fn varmap_bindings_overwrite_and_remove() {
    let mut m = VarMap::new();
    m.insert(
        yuck::dynval::VarName("x".to_string()),
        DynVal::from_string("1".to_string()),
    );
    m.insert(
        yuck::dynval::VarName("x".to_string()),
        DynVal::from_string("2".to_string()),
    );
    assert_eq!(m.len(), 1);
    assert_eq!(m.get("x").unwrap().text, "2");
    assert!(m.contains_key("x"));
    let removed = m.remove("x").unwrap();
    assert_eq!(removed.text, "2");
    assert_eq!(m.len(), 0);
    assert!(!m.contains_key("x"));
    assert!(m.remove("x").is_none());
}
