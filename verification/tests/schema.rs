use std::collections::HashSet;

use wlrix_settings_daemon::edit::Double;
use wlrix_settings_daemon::schema::dump::default_literal;
use wlrix_settings_daemon::schema::table::settings;
use wlrix_settings_daemon::schema::{
    dump, in_namespace, lookup, namespaces, Kind, Owner, Reload, Unit,
};

#[test]
fn every_key_is_unique() {
    let mut seen = HashSet::new();
    for setting in settings() {
        assert!(seen.insert(setting.key), "duplicate key {}", setting.key);
    }
}

#[test]
fn a_key_spells_out_its_own_path() {
    for setting in settings() {
        let expected = format!("{}.{}", setting.namespace(), setting.path.join("."));
        assert_eq!(setting.key, expected, "{}", setting.key);
    }
}

#[test]
fn a_path_is_not_empty_and_is_not_too_deep() {
    for setting in settings() {
        assert!(!setting.path.is_empty(), "{}", setting.key);
        assert!(setting.path.len() <= 2, "{}", setting.key);
        for part in setting.path {
            assert!(!part.is_empty(), "{}", setting.key);
        }
    }
}

#[test]
fn a_default_is_inside_its_own_range() {
    for setting in settings() {
        match &setting.kind {
            Kind::Int { default, min, max } => {
                assert!(min <= max, "{}", setting.key);
                if let Some(value) = default {
                    assert!(value >= min && value <= max, "{}", setting.key);
                }
            }
            Kind::Float { default, min, max } => {
                let (min, max) = (f64::from_bits(min.bits), f64::from_bits(max.bits));
                assert!(min <= max, "{}", setting.key);
                if let Some(value) = default {
                    let value = f64::from_bits(value.bits);
                    assert!(value >= min && value <= max, "{}", setting.key);
                }
            }
            _ => {}
        }
    }
}

#[test]
fn a_decimal_in_the_table_reads_as_its_own_bits() {
    // Each decimal is declared twice, as bits to compare against and as the text it is
    // written out as; the two have to be the same number.
    for setting in settings() {
        if let Kind::Float { default, min, max } = &setting.kind {
            for lit in default.iter().chain([min, max]) {
                let parsed = Double::from_decimal(lit.text).expect("a decimal");
                assert_eq!(parsed.bits(), lit.bits, "{}: {}", setting.key, lit.text);
                assert_eq!(f64::from_bits(lit.bits).to_string(), lit.text, "{}", setting.key);
            }
        }
    }
}

#[test]
fn an_enum_default_is_one_of_its_own_choices() {
    for setting in settings() {
        if let Kind::Enum { default, choices } = &setting.kind {
            assert!(!choices.is_empty(), "{}", setting.key);
            if let Some(value) = default {
                assert!(
                    choices.iter().any(|choice| choice.value == *value),
                    "{} defaults to {value:?}, which is not a choice",
                    setting.key
                );
            }
        }
    }
}

#[test]
fn a_live_setting_has_someone_to_tell() {
    for setting in settings() {
        if setting.reload == Reload::Live {
            assert!(
                setting.owner.pidfile().is_some(),
                "{} is live but {:?} has no pidfile",
                setting.key,
                setting.owner
            );
        }
    }
}

#[test]
fn only_numbers_carry_units() {
    for setting in settings() {
        if setting.unit != Unit::Unitless {
            assert!(
                matches!(setting.kind, Kind::Int { .. } | Kind::Float { .. }),
                "{} is a {} with a unit",
                setting.key,
                setting.kind.name()
            );
        }
    }
}

#[test]
fn everything_says_what_it_is() {
    for setting in settings() {
        assert!(!setting.summary.is_empty(), "{}", setting.key);
        assert!(!setting.description.is_empty(), "{}", setting.key);
    }
}

#[test]
fn a_lists_default_is_the_empty_list() {
    for setting in settings() {
        if let Kind::StrList { default } = &setting.kind {
            assert!(default.is_empty(), "{}", setting.key);
        }
    }
}

#[test]
fn every_namespace_has_at_least_one_setting() {
    for namespace in namespaces() {
        assert!(!in_namespace(namespace).is_empty(), "{namespace} has no settings");
    }
}

#[test]
fn lookup_finds_what_the_table_declares() {
    assert!(lookup("compositor.focus.policy").is_some());
    assert!(lookup("compositor.keyboard.layout").is_some());
    assert!(lookup("compositor.output.mode").is_none());
    assert!(lookup("session.app.command").is_none());
    assert!(lookup("nonsense").is_none());
}

#[test]
fn a_setting_names_its_kind_unit_and_reload_behavior() {
    let rate = lookup("compositor.keyboard.repeat_rate").unwrap();
    assert_eq!(rate.kind.signature(), "x");
    assert_eq!(rate.kind.name(), "int");
    assert_eq!(rate.unit.name(), "hz");
    assert_eq!(rate.reload.name(), "live");
    assert!(rate.kind.has_default());
    let layout = lookup("compositor.keyboard.layout").unwrap();
    assert!(!layout.kind.has_default());
    assert_eq!(Reload::Never.name(), "none");
    assert_eq!(Owner::Compositor.program(), Some("wlrix-compositor"));
    assert_eq!(Owner::Nobody.program(), None);
}

#[test]
fn a_default_is_written_as_toml_would_read_it() {
    assert_eq!(
        default_literal(&lookup("idle.gamepad.deadzone").unwrap().kind).as_deref(),
        Some("0.25")
    );
    assert_eq!(default_literal(&Kind::Bool { default: Some(true) }).as_deref(), Some("true"));
    assert_eq!(
        default_literal(&Kind::Int { default: Some(-3), min: -5, max: 5 }).as_deref(),
        Some("-3")
    );
    assert_eq!(
        default_literal(&Kind::Str { default: Some("say \"hi\"") }).as_deref(),
        Some("\"say \\\"hi\\\"\"")
    );
    assert_eq!(default_literal(&Kind::StrList { default: &[] }).as_deref(), Some("[]"));
    assert_eq!(
        default_literal(&Kind::StrList { default: &["a", "b"] }).as_deref(),
        Some("[\"a\", \"b\"]")
    );
    assert_eq!(default_literal(&Kind::Str { default: None }), None);
}

#[test]
fn the_dump_is_every_setting_at_its_default() {
    let text = dump();
    assert!(text.starts_with("# Every wlRIX setting the settings daemon knows about"));
    for namespace in namespaces() {
        assert!(text.contains(&format!("\n# ---- {namespace}.toml ----\n")), "{namespace}");
    }
    assert!(text.contains("\n[keyboard]\n"));
    assert!(text.contains("repeat_delay = 200\n"));
    assert!(text.contains("policy = \"click\"\n"));
    assert!(text.contains("# layout =    # no default; unset by default\n"));
    assert!(text.contains("deadzone = 0.25\n"));
    // Every section header appears once per file, however many settings it holds.
    let compositor = text
        .split("\n# ---- ")
        .find(|block| block.starts_with("compositor.toml"))
        .expect("a compositor block");
    assert_eq!(compositor.matches("\n[keyboard]\n").count(), 1);
}
