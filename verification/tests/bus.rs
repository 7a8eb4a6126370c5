use wlrix_settings_daemon::bus::{
    bus_error, category, describe, describe_all, describe_group, describe_key, empty_of,
    from_wire, get_value, group_keys, invalid_entries, known, outcomes, worst_reload, BusError,
    Wire, VERSION,
};
use wlrix_settings_daemon::apply::Outcome;
use wlrix_settings_daemon::edit::{Double, Value};
use wlrix_settings_daemon::paths::{all, Roots};
use wlrix_settings_daemon::schema::{lookup, lookup_group, namespaces, Kind, Reload};
use wlrix_settings_daemon::store::{resolve, Changed, Store};

fn field(fields: &[(&'static str, Value)], name: &str) -> Value {
    fields.iter().find(|(k, _)| *k == name).map(|(_, v)| v.clone()).unwrap_or_else(|| panic!("no {name}"))
}

fn string(text: &str) -> Value {
    Value::Str(text.into())
}

fn roots() -> Roots {
    Roots::new(Some("/home/a/.config/wlrix".into()), "/etc/wlrix".into())
}

#[test]
fn a_group_key_is_not_a_namespace() {
    assert!(!namespaces().contains(&"appearance"));
    assert!(known("appearance").is_err());
}

#[test]
fn every_integer_width_a_client_might_send_is_accepted() {
    for value in [Wire::U8(7), Wire::I16(7), Wire::U16(7), Wire::I32(7), Wire::U32(7), Wire::I64(7), Wire::U64(7)] {
        assert_eq!(from_wire(&value), Some(Value::Int(7)), "{value:?}");
    }
}

#[test]
fn a_doubly_wrapped_value_is_unwrapped() {
    let wrapped = Wire::Wrapped(Box::new(Wire::Str("jp".into())));
    assert_eq!(from_wire(&wrapped), Some(Value::Str("jp".into())));
    let twice = Wire::Wrapped(Box::new(wrapped));
    assert_eq!(from_wire(&twice), Some(Value::Str("jp".into())));
}

#[test]
fn a_list_of_strings_comes_through_and_a_list_of_anything_else_does_not() {
    assert_eq!(
        from_wire(&Wire::Array(vec![Wire::Str("a".into()), Wire::Str("b".into())])),
        Some(Value::StrList(vec!["a".into(), "b".into()]))
    );
    assert_eq!(from_wire(&Wire::Array(vec![Wire::I32(1), Wire::I32(2)])), None);
    assert_eq!(
        from_wire(&Wire::Array(vec![Wire::Wrapped(Box::new(Wire::Str("a".into())))])),
        Some(Value::StrList(vec!["a".into()]))
    );
    assert_eq!(from_wire(&Wire::Array(vec![])), Some(Value::StrList(vec![])));
    assert_eq!(from_wire(&Wire::Other), None);
}

#[test]
fn a_u64_too_large_for_the_file_is_refused_rather_than_wrapped() {
    assert_eq!(from_wire(&Wire::U64(u64::MAX)), None);
    assert_eq!(from_wire(&Wire::U64(i64::MAX as u64)), Some(Value::Int(i64::MAX)));
}

#[test]
fn a_double_comes_through_as_itself() {
    let d = Double::from_decimal("0.25").unwrap();
    assert_eq!(from_wire(&Wire::F64(d.clone())), Some(Value::Float(d)));
    assert_eq!(from_wire(&Wire::Bool(true)), Some(Value::Bool(true)));
}

#[test]
fn a_value_round_trips_through_the_wire_types() {
    let quarter = Double::from_decimal("0.25").unwrap();
    for (wire, value) in [
        (Wire::Bool(true), Value::Bool(true)),
        (Wire::I64(-3), Value::Int(-3)),
        (Wire::F64(quarter.clone()), Value::Float(quarter.clone())),
        (Wire::Str("jp,us".into()), Value::Str("jp,us".into())),
        (Wire::Array(vec![Wire::Str("xdg-open".into())]), Value::StrList(vec!["xdg-open".into()])),
    ] {
        assert_eq!(from_wire(&wire), Some(value.clone()), "{value:?}");
    }
}

#[test]
fn a_group_is_only_as_live_as_its_least_live_member() {
    let group = lookup_group("appearance.palette").unwrap();
    assert_eq!(worst_reload(&group), Reload::Never);
    assert_eq!(field(&describe_group(&group), "reload"), string("none"));
}

#[test]
fn a_group_describes_itself_in_the_same_shape_as_a_setting() {
    let group = lookup_group("appearance.palette").expect("the scheme is a group");
    let described = describe_group(&group);
    let ordinary = describe(&lookup("compositor.focus.policy").unwrap(), &roots());
    for (key, _) in &ordinary {
        assert!(
            described.iter().any(|(k, _)| k == key) || *key == "choices" || *key == "choice_labels",
            "a group description is missing {key}"
        );
    }
    assert_eq!(field(&described, "kind"), string("string"));
    assert_eq!(field(&described, "signature"), string("s"));
    assert_eq!(field(&described, "namespace"), string("appearance"));
    assert_eq!(field(&described, "owner"), string(""));
    assert_eq!(field(&described, "file"), string(""));
    assert_eq!(field(&described, "has_default"), Value::Bool(false));
    // Four members, one per file that holds a palette key. The portal has no palette key of
    // its own, so it cannot be a member: a member has to be a setting.
    assert_eq!(
        field(&described, "members"),
        Value::StrList(vec![
            "compositor.appearance.palette".into(),
            "desktop.appearance.palette".into(),
            "screenshot.appearance.palette".into(),
            "tray.appearance.palette".into(),
        ])
    );
}

#[test]
fn a_description_carries_what_a_panel_needs_to_draw_a_dropdown() {
    let described = describe(&lookup("compositor.focus.policy").unwrap(), &roots());
    assert_eq!(field(&described, "kind"), string("enum"));
    assert_eq!(field(&described, "signature"), string("s"));
    assert_eq!(field(&described, "owner"), string("wlrix-compositor"));
    assert_eq!(field(&described, "reload"), string("live"));
    assert_eq!(field(&described, "has_default"), Value::Bool(true));
    assert_eq!(field(&described, "default"), string("click"));
    assert_eq!(field(&described, "choices"), Value::StrList(vec!["click".into(), "pointer".into()]));
    assert_eq!(
        field(&described, "choice_labels"),
        Value::StrList(vec!["Click to focus".into(), "Focus follows pointer".into()])
    );
    assert_ne!(field(&described, "summary"), string(""));
    assert_eq!(field(&described, "file"), string("/home/a/.config/wlrix/compositor.toml"));
}

#[test]
fn a_number_carries_its_range_and_its_unit() {
    let described = describe(&lookup("compositor.keyboard.repeat_rate").unwrap(), &roots());
    assert_eq!(field(&described, "min"), Value::Int(0));
    assert_eq!(field(&described, "max"), Value::Int(255));
    assert_eq!(field(&described, "unit"), string("hz"));
    assert_eq!(field(&described, "default"), Value::Int(25));
    let described = describe(&lookup("idle.gamepad.deadzone").unwrap(), &roots());
    assert_eq!(field(&described, "min"), Value::Float(Double::from_decimal("0.02").unwrap()));
    assert_eq!(field(&described, "max"), Value::Float(Double::from_decimal("0.9").unwrap()));
}

#[test]
fn a_setting_with_no_default_says_so_rather_than_inventing_one() {
    let described = describe(&lookup("compositor.keyboard.layout").unwrap(), &roots());
    assert_eq!(field(&described, "has_default"), Value::Bool(false));
    assert_eq!(field(&described, "default"), string(""));
}

#[test]
fn a_deferred_setting_is_described_as_unsupported_not_unknown() {
    match describe_key("compositor.output.mode", &roots()) {
        Err(BusError::Unsupported(message)) => {
            assert!(message.contains("wlr-output-management"), "{message}");
        }
        other => panic!("{other:?}"),
    }
    match describe_key("compositor.keyboard.layuot", &roots()) {
        Err(BusError::UnknownKey(_)) => {}
        other => panic!("{other:?}"),
    }
    assert!(describe_key("appearance.palette", &roots()).is_ok());
    assert!(describe_key("compositor.focus.policy", &roots()).is_ok());
}

#[test]
fn get_answers_an_empty_value_of_the_right_type_for_an_unset_setting() {
    let mut store = Store::new(roots());
    for file in all() {
        store.reread(file, wlrix_settings_daemon::store::Observed::Absent);
    }
    assert_eq!(get_value(&store, "compositor.keyboard.layout").unwrap(), string(""));
    assert_eq!(get_value(&store, "compositor.focus.policy").unwrap(), string("click"));
    assert_eq!(get_value(&store, "appearance.palette").unwrap(), string(""));
    assert!(matches!(get_value(&store, "nope"), Err(BusError::UnknownKey(_))));
    assert!(invalid_entries(&store).is_empty());
}

#[test]
fn an_empty_value_has_the_kind_of_its_setting() {
    assert_eq!(empty_of(&Kind::Bool { default: None }), Value::Bool(false));
    assert_eq!(empty_of(&Kind::Int { default: None, min: 0, max: 1 }), Value::Int(0));
    assert_eq!(empty_of(&Kind::Str { default: None }), string(""));
    assert_eq!(empty_of(&Kind::StrList { default: &[] }), Value::StrList(vec![]));
    assert_eq!(
        empty_of(&lookup("idle.gamepad.deadzone").unwrap().kind),
        Value::Float(Double::from_int(0))
    );
}

#[test]
fn a_category_is_what_comes_before_the_first_dot() {
    assert_eq!(category("appearance.palette"), "appearance");
    assert_eq!(category("a.b.c"), "a");
    assert_eq!(category("plain"), "plain");
}

#[test]
fn outcomes_leave_out_settings_nobody_reads_while_running() {
    let changed = Changed {
        values: Vec::new(),
        outcomes: vec![("wlrix-compositor", Outcome::Applied), ("", Outcome::NextLogin)],
    };
    assert_eq!(outcomes(&changed), [("wlrix-compositor", "applied")]);
}

#[test]
fn errors_are_answered_by_name() {
    let err = resolve("nope").unwrap_err();
    assert!(matches!(bus_error(&err), BusError::UnknownKey(m) if m == "no such setting: nope"));
    let err = resolve("session.env.X").unwrap_err();
    assert!(matches!(bus_error(&err), BusError::Unsupported(_)));
    match known("greeter") {
        Err(BusError::UnknownKey(m)) => assert_eq!(m, "no such namespace: greeter"),
        other => panic!("{other:?}"),
    }
    assert_eq!(group_keys(), ["appearance.palette"]);
    assert_eq!(VERSION, 2);
    let all_described = describe_all("idle", &roots()).unwrap();
    assert!(all_described.iter().any(|(key, _)| *key == "idle.gamepad.deadzone"));
}
