use yuck::dynval::Duration;
use yuck::dynval::DynVal;
use yuck::dynval::TargetType;
use yuck::dynval::VarName;
use yuck::monitor::MonitorIdentifier;
use yuck::varmap::VarMap;
use yuck::window_arguments::ResolveError;
use yuck::window_arguments::WindowArguments;
use yuck::window_definition::AttrSpec;
use yuck::window_definition::WindowDefinition;

fn schema(name: &str, params: &[(&str, bool)]) -> WindowDefinition {
    let mut expected_args = Vec::new();
    for (param, optional) in params {
        expected_args.push(AttrSpec { name: VarName(param.to_string()), optional: *optional });
    }
    WindowDefinition { name: name.to_string(), expected_args }
}

fn supplied(pairs: &[(&str, &str)]) -> VarMap {
    let mut m = VarMap::new();
    for (k, v) in pairs {
        m.insert(VarName(k.to_string()), DynVal::from_string(v.to_string()));
    }
    m
}

fn request(id: &str, window: &str, args: VarMap) -> WindowArguments {
    WindowArguments {
        window_name: window.to_string(),
        instance_id: id.to_string(),
        anchor: None,
        args,
        duration: None,
        monitor: None,
        pos: None,
        size: None,
    }
}

#[test]
fn missing_required_argument_fails_naming_it() {
    let def = schema("bar", &[("label", false), ("icon", true)]);
    let req = request("w0", "bar", supplied(&[]));
    match req.get_local_window_variables(&def) {
        Err(ResolveError::MissingArg { arg_name, window_name, instance_id }) => {
            assert_eq!(arg_name.0, "label");
            assert_eq!(window_name, "bar");
            assert_eq!(instance_id, "w0");
        },
        other => panic!("expected a missing-argument error, got {:?}", other),
    }
}

#[test]
fn absent_optional_argument_alone_succeeds() {
    let def = schema("bar", &[("icon", true)]);
    let req = request("w0", "bar", supplied(&[]));
    let env = req.get_local_window_variables(&def).unwrap();
    assert_eq!(env.len(), 0);
    assert!(env.get("icon").is_none());
}

#[test]
fn unexpected_argument_fails_naming_only_it() {
    let def = schema("bar", &[("label", false)]);
    let req = request("w1", "bar", supplied(&[("label", "hi"), ("color", "red")]));
    match req.get_local_window_variables(&def) {
        Err(ResolveError::UnexpectedArgs { arg_names, instance_id }) => {
            assert_eq!(arg_names.len(), 1);
            assert_eq!(arg_names[0].0, "color");
            assert_eq!(instance_id, "w1");
        },
        other => panic!("expected an unexpected-argument error, got {:?}", other),
    }
}

#[test]
fn all_unexpected_arguments_are_reported_together() {
    let def = schema("bar", &[]);
    let req = request("w1", "bar", supplied(&[("a", "1"), ("b", "2")]));
    match req.get_local_window_variables(&def) {
        Err(ResolveError::UnexpectedArgs { arg_names, .. }) => {
            let mut names: Vec<String> = arg_names.into_iter().map(|n| n.0).collect();
            names.sort();
            assert_eq!(names, vec!["a".to_string(), "b".to_string()]);
        },
        other => panic!("expected an unexpected-argument error, got {:?}", other),
    }
}

#[test]
fn declared_id_is_bound_implicitly() {
    let def = schema("bar", &[("id", true)]);
    let req = request("bar1", "bar", supplied(&[]));
    let env = req.get_local_window_variables(&def).unwrap();
    assert_eq!(env.len(), 1);
    assert_eq!(env.get("id").unwrap().text, "bar1");
}

#[test]
fn declared_screen_is_bound_from_the_monitor_override() {
    let def = schema("bar", &[("screen", false)]);
    let mut req = request("w0", "bar", supplied(&[]));
    req.monitor = Some(MonitorIdentifier::Numeric(2));
    let env = req.get_local_window_variables(&def).unwrap();
    assert_eq!(env.get("screen").unwrap().text, "2");
}

#[test]
fn screen_without_monitor_override_stays_unbound() {
    let def = schema("bar", &[("screen", false)]);
    let req = request("w0", "bar", supplied(&[]));
    assert!(matches!(
        req.get_local_window_variables(&def),
        Err(ResolveError::MissingArg { .. })
    ));
}

#[test]
fn explicit_values_win_over_implicit_bindings() {
    let def = schema("bar", &[("id", false), ("screen", false)]);
    let mut req = request(
        "instance7",
        "bar",
        supplied(&[("id", "explicit-id"), ("screen", "explicit-screen")]),
    );
    req.monitor = Some(MonitorIdentifier::Numeric(0));
    let env = req.get_local_window_variables(&def).unwrap();
    assert_eq!(env.get("id").unwrap().text, "explicit-id");
    assert_eq!(env.get("screen").unwrap().text, "explicit-screen");
}

#[test]
fn resolution_is_idempotent_on_success() {
    let def = schema("bar", &[("id", false), ("label", false), ("icon", true)]);
    let req = request("w9", "bar", supplied(&[("label", "hello"), ("icon", "i.png")]));
    let env1 = req.get_local_window_variables(&def).unwrap();
    let env2 = req.get_local_window_variables(&def).unwrap();
    assert_eq!(env1.len(), env2.len());
    for key in ["id", "label", "icon"] {
        assert_eq!(env1.get(key).unwrap().text, env2.get(key).unwrap().text);
    }
}

#[test]
fn successful_resolution_binds_exactly_the_declared_names() {
    let def = schema("bar", &[("a", false), ("b", false)]);
    let req = request("w0", "bar", supplied(&[("a", "1"), ("b", "2")]));
    let env = req.get_local_window_variables(&def).unwrap();
    assert_eq!(env.len(), 2);
    assert!(env.get("a").is_some());
    assert!(env.get("b").is_some());
    assert!(env.get("c").is_none());
}

#[test]
fn duration_is_extracted_as_a_structural_override() {
    let args = supplied(&[("label", "hi"), ("duration", "500ms")]);
    let w = WindowArguments::new_from_args("w2".to_string(), "bar".to_string(), args).unwrap();
    assert_eq!(w.duration, Some(Duration { millis: 500 }));
    assert!(w.args.get("duration").is_none());
    assert!(w.args.get("label").is_some());
    let def = schema("bar", &[("label", false)]);
    let env = w.get_local_window_variables(&def).unwrap();
    assert_eq!(env.len(), 1);
    assert!(env.get("duration").is_none());
    assert_eq!(env.get("label").unwrap().text, "hi");
}

#[test]
fn all_reserved_overrides_are_extracted() {
    let args = supplied(&[
        ("pos", "10x20"),
        ("size", "30%x40%"),
        ("screen", "1"),
        ("anchor", "top right"),
        ("duration", "2s"),
        ("free", "form"),
    ]);
    let w = WindowArguments::new_from_args("w3".to_string(), "bar".to_string(), args).unwrap();
    assert!(w.pos.is_some());
    assert!(w.size.is_some());
    assert!(matches!(w.monitor, Some(MonitorIdentifier::Numeric(1))));
    assert!(w.anchor.is_some());
    assert_eq!(w.duration, Some(Duration { millis: 2000 }));
    assert_eq!(w.args.len(), 1);
    assert_eq!(w.args.get("free").unwrap().text, "form");
    assert_eq!(w.window_name, "bar");
    assert_eq!(w.instance_id, "w3");
}

#[test]
fn absent_reserved_keys_are_none_not_errors() {
    let w = WindowArguments::new_from_args("w".to_string(), "b".to_string(), supplied(&[]))
        .unwrap();
    assert!(w.pos.is_none());
    assert!(w.size.is_none());
    assert!(w.monitor.is_none());
    assert!(w.anchor.is_none());
    assert!(w.duration.is_none());
}

#[test]
fn malformed_reserved_keys_are_hard_errors() {
    let args = supplied(&[("pos", "wide")]);
    let e = WindowArguments::new_from_args("w".to_string(), "b".to_string(), args).unwrap_err();
    assert_eq!(e.target, TargetType::Coords);
    assert_eq!(e.value.text, "wide");
    let args = supplied(&[("duration", "soon")]);
    let e = WindowArguments::new_from_args("w".to_string(), "b".to_string(), args).unwrap_err();
    assert_eq!(e.target, TargetType::Duration);
}
