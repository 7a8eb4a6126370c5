use wlrix_settings_daemon::edit::{
    check_verdict, contains_crlf, next_step, read_document, to_crlf, write_paths,
    write_source_given, CheckAnswer, Document, Double, Error, NextStep, Value, Waited,
};
use wlrix_settings_daemon::paths::{File, Roots};

fn set(text: &str, path: &[&str], value: Value) -> String {
    let mut doc = Document::parse(text).expect("should parse");
    doc.set("test.key", path, value).expect("should set");
    doc.to_text()
}

fn float(text: &str) -> Value {
    Value::Float(Double::from_decimal(text).expect("a decimal"))
}

#[test]
fn a_value_is_replaced_in_place() {
    let out = set("[keyboard]\nlayout = \"us\"\n", &["keyboard", "layout"], Value::Str("jp".into()));
    assert_eq!(out, "[keyboard]\nlayout = \"jp\"\n");
}

#[test]
fn a_section_header_with_a_comment_after_it_is_found() {
    let out = set(
        "[keyboard]  # japanese\nlayout = \"us\"\n",
        &["keyboard", "layout"],
        Value::Str("jp".into()),
    );
    assert_eq!(out, "[keyboard]  # japanese\nlayout = \"jp\"\n");
    assert_eq!(out.matches("[keyboard]").count(), 1, "one table, not two");
    assert!(toml::from_str::<toml::Value>(&out).is_ok());
}

#[test]
fn comments_and_unrelated_sections_survive() {
    let original = "\
# my compositor
# hands off

[keyboard]
# the layout I actually use
layout = \"us\"
model = \"pc105\"   # a trailing remark

[[output]]
name = \"DP-1\"
mode = \"2560x1440@144\"

[focus]
policy = \"pointer\"
";
    let out = set(original, &["keyboard", "layout"], Value::Str("jp".into()));
    assert!(out.contains("# my compositor"));
    assert!(out.contains("# hands off"));
    assert!(out.contains("# the layout I actually use"));
    assert!(out.contains("[[output]]"));
    assert!(out.contains("mode = \"2560x1440@144\""));
    assert!(out.contains("policy = \"pointer\""));
    assert!(out.contains("layout = \"jp\""));
    assert_eq!(out, original.replace("layout = \"us\"", "layout = \"jp\""));
}

#[test]
fn a_trailing_comment_on_the_value_is_kept() {
    let out = set(
        "[keyboard]\nrepeat_delay = 200  # feels right\n",
        &["keyboard", "repeat_delay"],
        Value::Int(300),
    );
    assert_eq!(out, "[keyboard]\nrepeat_delay = 300  # feels right\n");
}

#[test]
fn key_order_is_not_disturbed() {
    let out = set(
        "[keyboard]\nrepeat_rate = 25\nlayout = \"us\"\nmodel = \"pc105\"\n",
        &["keyboard", "layout"],
        Value::Str("jp".into()),
    );
    assert_eq!(out, "[keyboard]\nrepeat_rate = 25\nlayout = \"jp\"\nmodel = \"pc105\"\n");
}

#[test]
fn a_missing_key_is_appended_to_its_own_section() {
    let out = set(
        "[keyboard]\nlayout = \"jp\"\n\n[focus]\npolicy = \"click\"\n",
        &["keyboard", "model"],
        Value::Str("jp106".into()),
    );
    assert!(out.contains("model = \"jp106\""));
    let parsed: toml::Value = toml::from_str(&out).expect("should parse");
    assert_eq!(parsed["keyboard"]["model"].as_str(), Some("jp106"));
    assert!(parsed["focus"].get("model").is_none());
}

#[test]
fn a_missing_section_is_created_as_a_real_table() {
    let out = set("[focus]\npolicy = \"pointer\"\n", &["keyboard", "layout"], Value::Str("jp".into()));
    assert!(out.contains("[keyboard]"), "{out}");
    assert!(!out.contains('{'), "{out}");
    let parsed: toml::Value = toml::from_str(&out).expect("should parse");
    assert_eq!(parsed["keyboard"]["layout"].as_str(), Some("jp"));
    assert_eq!(parsed["focus"]["policy"].as_str(), Some("pointer"));
}

#[test]
fn a_top_level_key_goes_before_the_sections() {
    let out = set("[metrics]\nicon = 64\n", &["snap_to_grid"], Value::Bool(true));
    let parsed: toml::Value = toml::from_str(&out).expect("should parse");
    assert_eq!(parsed["snap_to_grid"].as_bool(), Some(true));
    assert!(parsed["metrics"].get("snap_to_grid").is_none(), "{out}");
}

#[test]
fn an_empty_file_gets_a_whole_section() {
    let out = set("", &["keyboard", "layout"], Value::Str("jp".into()));
    let parsed: toml::Value = toml::from_str(&out).expect("should parse");
    assert_eq!(parsed["keyboard"]["layout"].as_str(), Some("jp"));
}

#[test]
fn a_dotted_key_is_seen_and_written_where_it_already_is() {
    let doc = Document::parse("keyboard.layout = \"us\"\n").expect("should parse");
    assert_eq!(doc.get(&["keyboard", "layout"]), Some(Value::Str("us".into())));
    let out = set("keyboard.layout = \"us\"\n", &["keyboard", "layout"], Value::Str("jp".into()));
    assert_eq!(out, "keyboard.layout = \"jp\"\n");
}

#[test]
fn an_inline_table_is_seen_and_written_where_it_already_is() {
    let out = set(
        "keyboard = { layout = \"us\", model = \"pc105\" }\n",
        &["keyboard", "layout"],
        Value::Str("jp".into()),
    );
    assert_eq!(out, "keyboard = { layout = \"jp\", model = \"pc105\" }\n");
}

#[test]
fn a_multi_line_array_does_not_end_the_section_early() {
    let out = set(
        "[gamepad]\nallow = [\n  \"Xbox\",\n  \"DualSense\",\n]\nenable = true\n",
        &["gamepad", "enable"],
        Value::Bool(false),
    );
    let parsed: toml::Value = toml::from_str(&out).expect("should parse");
    assert_eq!(parsed["gamepad"]["enable"].as_bool(), Some(false));
    assert_eq!(parsed["gamepad"]["allow"].as_array().map(Vec::len), Some(2));
}

#[test]
fn crlf_survives_a_round_trip() {
    let out = set("[keyboard]\r\nlayout = \"us\"\r\n", &["keyboard", "model"], Value::Str("jp106".into()));
    assert!(out.contains("model = \"jp106\""));
    assert_eq!(out.matches('\n').count(), out.matches("\r\n").count());
}

#[test]
fn an_lf_file_stays_lf() {
    let out = set("[keyboard]\nlayout = \"us\"\n", &["keyboard", "model"], Value::Str("jp106".into()));
    assert!(!out.contains('\r'));
}

#[test]
fn every_kind_round_trips() {
    for value in [
        Value::Bool(true),
        Value::Int(-3),
        float("0.25"),
        Value::Str("hello # not a comment".into()),
        Value::StrList(vec!["a".into(), "b \"quoted\"".into()]),
        Value::StrList(Vec::new()),
    ] {
        let out = set("", &["section", "key"], value.clone());
        let doc = Document::parse(&out).expect("should parse");
        assert_eq!(doc.get(&["section", "key"]), Some(value.clone()), "{out}");
        assert!(toml::from_str::<toml::Value>(&out).is_ok(), "{out}");
    }
}

#[test]
fn a_hash_in_a_string_is_not_a_comment() {
    let doc = Document::parse("[lock]\ncommand = \"swaylock -c #000000\"\n").unwrap();
    assert_eq!(doc.get(&["lock", "command"]), Some(Value::Str("swaylock -c #000000".into())));
}

#[test]
fn removing_a_key_leaves_the_section_and_the_rest() {
    let mut doc = Document::parse("[keyboard]\n# mine\nlayout = \"jp\"\nmodel = \"jp106\"\n").unwrap();
    assert!(doc.remove(&["keyboard", "layout"]));
    let out = doc.to_text();
    assert!(!out.contains("layout"), "{out}");
    assert!(out.contains("model = \"jp106\""), "{out}");
    assert!(out.contains("[keyboard]"), "{out}");
}

#[test]
fn removing_the_last_key_keeps_the_empty_section() {
    let mut doc = Document::parse("[keyboard]\nlayout = \"jp\"\n").unwrap();
    assert!(doc.remove(&["keyboard", "layout"]));
    let out = doc.to_text();
    assert!(out.contains("[keyboard]"), "{out}");
    assert!(toml::from_str::<toml::Value>(&out).is_ok());
}

#[test]
fn removing_what_is_not_there_is_not_an_error() {
    let mut doc = Document::parse("[keyboard]\nlayout = \"jp\"\n").unwrap();
    assert!(!doc.remove(&["keyboard", "model"]));
    assert!(!doc.remove(&["focus", "policy"]));
    assert!(!doc.remove(&["nothing"]));
}

#[test]
fn a_section_where_a_value_belongs_is_refused() {
    let mut doc = Document::parse("[keyboard.layout]\nsomething = 1\n").unwrap();
    let err = doc
        .set("compositor.keyboard.layout", &["keyboard", "layout"], Value::Str("jp".into()))
        .expect_err("should refuse");
    assert!(matches!(err, Error::NotAValue { .. }), "{err:?}");
    assert_eq!(err.message(), "compositor.keyboard.layout names a table, not a value");
}

#[test]
fn reading_a_value_we_do_not_model_answers_nothing() {
    let doc = Document::parse("[a]\nmixed = [1, \"two\"]\ninline = { x = 1 }\nwhen = 1979-05-27\n").unwrap();
    assert_eq!(doc.get(&["a", "mixed"]), None);
    assert_eq!(doc.get(&["a", "inline"]), None);
    assert_eq!(doc.get(&["a", "when"]), None);
    assert_eq!(doc.get(&["a", "absent"]), None);
    assert_eq!(doc.get(&["nowhere", "at", "all"]), None);
}

#[test]
fn an_empty_document_renders_as_nothing() {
    assert_eq!(Document::empty().to_text(), "");
}

#[test]
fn a_top_level_value_where_a_section_belongs_is_refused() {
    let mut doc = Document::parse("keyboard = 3\n").unwrap();
    assert!(matches!(
        doc.set("x.keyboard.layout", &["keyboard", "layout"], Value::Str("jp".into())),
        Err(Error::NotAValue { .. })
    ));
    let mut doc = Document::parse("[keyboard]\nlayout = \"us\"\n").unwrap();
    assert!(matches!(
        doc.set("x.keyboard", &["keyboard"], Value::Int(1)),
        Err(Error::NotAValue { .. })
    ));
    assert!(matches!(doc.set("x", &[], Value::Int(1)), Err(Error::NotAValue { .. })));
    assert_eq!(doc.to_text(), "[keyboard]\nlayout = \"us\"\n");
}

#[test]
fn a_value_set_reads_back_and_leaves_the_others_alone() {
    let mut doc = Document::parse("[keyboard]\nlayout = \"us\"\nmodel = \"pc105\"\n").unwrap();
    doc.set("k", &["keyboard", "layout"], Value::Str("jp".into())).unwrap();
    assert_eq!(doc.get(&["keyboard", "layout"]), Some(Value::Str("jp".into())));
    assert_eq!(doc.get(&["keyboard", "model"]), Some(Value::Str("pc105".into())));
    doc.set("k", &["keyboard", "layout"], Value::Str("fr".into())).unwrap();
    assert_eq!(doc.get(&["keyboard", "layout"]), Some(Value::Str("fr".into())));
    assert!(doc.remove(&["keyboard", "layout"]));
    assert_eq!(doc.get(&["keyboard", "layout"]), None);
    assert_eq!(doc.get(&["keyboard", "model"]), Some(Value::Str("pc105".into())));
}

#[test]
fn a_parse_error_carries_the_parsers_message() {
    let err = Document::parse("[keyboard\nlayout = ").err().expect("should not parse");
    assert!(!err.is_empty());
    let err = read_document("/etc/wlrix/compositor.toml", Ok("[keyboard\n".into()))
        .err()
        .expect("should not parse");
    match &err {
        Error::Parse { path, message } => {
            assert_eq!(path, "/etc/wlrix/compositor.toml");
            assert!(!message.is_empty());
        }
        other => panic!("{other:?}"),
    }
    assert!(err.message().starts_with("/etc/wlrix/compositor.toml is not valid: "));
    let err = read_document("/x.toml", Err("permission denied".into())).err().unwrap();
    assert_eq!(err.message(), "could not read /x.toml: permission denied");
}

#[test]
fn crlf_is_found_and_every_line_break_becomes_one() {
    assert!(contains_crlf("a\r\nb"));
    assert!(!contains_crlf("a\nb\r"));
    assert_eq!(to_crlf("a\nb\r\nc\r\r\n"), "a\r\nb\r\nc\r\r\n");
    assert_eq!(to_crlf(""), "");
}

#[test]
fn a_first_write_starts_from_the_user_file_else_the_system_one() {
    let roots = Roots::new(Some("/u/wlrix".into()), "/s/wlrix".into());
    assert_eq!(
        write_source_given(&roots, File::Compositor, true, true).unwrap().as_deref(),
        Some("/u/wlrix/compositor.toml")
    );
    assert_eq!(
        write_source_given(&roots, File::Compositor, false, true).unwrap().as_deref(),
        Some("/s/wlrix/compositor.toml")
    );
    assert_eq!(write_source_given(&roots, File::Compositor, false, false).unwrap(), None);
    let nowhere = Roots::new(None, "/s/wlrix".into());
    let err = write_source_given(&nowhere, File::Compositor, false, true).err().unwrap();
    assert!(matches!(err, Error::NoConfigHome));
    assert_eq!(
        err.message(),
        "neither XDG_CONFIG_HOME nor HOME is set; there is nowhere to write"
    );
}

#[test]
fn the_temporary_sits_beside_the_target_and_is_hidden() {
    assert_eq!(
        write_paths("/home/a/.config/wlrix/compositor.toml"),
        ("/home/a/.config/wlrix".to_string(), "/home/a/.config/wlrix/.compositor.toml.tmp".to_string())
    );
    assert_eq!(write_paths("compositor.toml"), ("".to_string(), ".compositor.toml.tmp".to_string()));
}

#[test]
fn only_a_program_that_says_no_refuses_a_write() {
    assert_eq!(check_verdict(CheckAnswer::NotInstalled), Ok(()));
    assert_eq!(check_verdict(CheckAnswer::CouldNotStart), Ok(()));
    assert_eq!(check_verdict(CheckAnswer::DidNotExit), Ok(()));
    assert_eq!(check_verdict(CheckAnswer::Lost), Ok(()));
    assert_eq!(
        check_verdict(CheckAnswer::Exited { success: true, status: "exit status: 0".into(), stderr: "warn".into() }),
        Ok(())
    );
    assert_eq!(
        check_verdict(CheckAnswer::Exited {
            success: false,
            status: "exit status: 1".into(),
            stderr: "  unknown field `layuot`\n".into()
        }),
        Err("unknown field `layuot`".to_string())
    );
    assert_eq!(
        check_verdict(CheckAnswer::Exited { success: false, status: "exit status: 2".into(), stderr: " \n".into() }),
        Err("exit status exit status: 2".to_string())
    );
}

#[test]
fn a_check_that_does_not_answer_in_time_is_killed() {
    assert!(matches!(next_step(Waited::Exited, true), NextStep::Collect));
    assert!(matches!(next_step(Waited::Running, true), NextStep::Wait));
    assert!(matches!(next_step(Waited::Running, false), NextStep::Kill));
    assert!(matches!(next_step(Waited::Failed, true), NextStep::GiveUp));
}

#[test]
fn doubles_compare_as_numbers() {
    let a = float("0.5");
    assert_eq!(a, float("0.50"));
    assert_ne!(a, float("0.25"));
    assert_eq!(float("0"), float("-0"));
    assert_ne!(float("NaN"), float("NaN"));
    assert_eq!(Double::from_int(0).bits(), 0);
    assert_eq!(Double::from_int(3).text(), "3");
    assert_eq!(Double::from_decimal("0.02").unwrap().text(), "0.02");
    assert!(Double::from_decimal("zero").is_none());
    assert_eq!(Value::Int(1).kind_name(), "int");
    assert_eq!(float("1").kind_name(), "double");
    assert_eq!(Value::StrList(vec![]).kind_name(), "string-list");
}

#[test]
fn a_top_level_value_is_rewritten_where_it_stands() {
    let out = set(
        "# mine\ncompositor = \"kwin\"   # the one I use\nlogout = true\n",
        &["compositor"],
        Value::Str("wlrix".into()),
    );
    assert_eq!(out, "# mine\ncompositor = \"wlrix\"   # the one I use\nlogout = true\n");
}

#[test]
fn a_remove_that_finds_nothing_leaves_the_text_alone() {
    let text = "[keyboard]\n# mine\nlayout = \"jp\"  # chosen\n";
    let mut doc = Document::parse(text).unwrap();
    assert!(!doc.remove(&["keyboard", "model"]));
    assert!(!doc.remove(&["focus", "policy"]));
    assert!(!doc.remove(&["nothing"]));
    assert_eq!(doc.to_text(), text);
}

#[test]
fn a_new_key_goes_at_the_end_of_its_section_and_the_rest_keeps_its_comments() {
    let out = set(
        "[keyboard]\nlayout = \"jp\"  # chosen\n\n[focus]\npolicy = \"click\"\n",
        &["keyboard", "model"],
        Value::Str("jp106".into()),
    );
    assert_eq!(out, "[keyboard]\nlayout = \"jp\"  # chosen\nmodel = \"jp106\"\n\n[focus]\npolicy = \"click\"\n");
}
