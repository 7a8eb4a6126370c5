use std::collections::HashMap;

use wlrix_settings_daemon::apply::Outcome;
use wlrix_settings_daemon::edit::{read_document, write_source_given, Document, Double, Value};
use wlrix_settings_daemon::paths::{all, File, Roots};
use wlrix_settings_daemon::schema::{in_namespace, lookup, Setting};
use wlrix_settings_daemon::store::{
    coerce, default_value, plan_reset, plan_reset_namespace, plan_set_many, resolve,
    value_of, Changed, Error, Found, Notice, Observed, Plan, Source, Store,
};

fn setting(key: &str) -> Setting {
    lookup(key).unwrap_or_else(|| panic!("{key} is a setting"))
}

fn compositor() -> Setting {
    setting("compositor.focus.policy")
}

fn float(text: &str) -> Value {
    Value::Float(Double::from_decimal(text).expect("a decimal"))
}

#[test]
fn a_deferred_section_says_what_to_do_instead() {
    for key in [
        "background.output",
        "background.output.image",
        "compositor.output",
        "compositor.output.mode",
        "idle.timeout.after_secs",
        "session.app.command",
        "session.env.QT_QPA_PLATFORM",
        "portal.preview.tile",
    ] {
        match resolve(key) {
            Err(Error::Unsupported { why, .. }) => assert!(!why.is_empty()),
            other => panic!("{key}: {other:?}"),
        }
    }
}

#[test]
fn a_key_that_is_not_a_setting_at_all_is_unknown() {
    for key in ["compositor.keyboard.layuot", "greeter.theme", "compositor", ""] {
        assert!(matches!(resolve(key), Err(Error::UnknownKey(_))), "{key}: {:?}", resolve(key));
    }
}

#[test]
fn a_deferred_prefix_does_not_swallow_a_real_setting() {
    assert!(resolve("session.compositor").is_ok());
    assert!(resolve("background.image").is_ok());
}

#[test]
fn the_wrong_shape_is_refused_with_both_names() {
    let err = coerce(&compositor(), Value::Int(1)).expect_err("should refuse");
    match err {
        Error::WrongType { wanted, got, .. } => {
            assert_eq!(wanted, "enum");
            assert_eq!(got, "int");
        }
        other => panic!("{other:?}"),
    }
}

#[test]
fn a_focus_policy_the_compositor_would_reject_is_refused_here_first() {
    for bad in ["explicit", "Pointer", ""] {
        let err = coerce(&compositor(), Value::Str(bad.into())).expect_err(bad);
        match err {
            Error::InvalidValue { choices, .. } => {
                assert_eq!(choices, ["click", "pointer"]);
            }
            other => panic!("{bad}: {other:?}"),
        }
    }
    assert!(coerce(&compositor(), Value::Str("pointer".into())).is_ok());
}

#[test]
fn a_number_outside_its_range_is_refused() {
    let rate = setting("compositor.keyboard.repeat_rate");
    assert!(coerce(&rate, Value::Int(25)).is_ok());
    assert!(coerce(&rate, Value::Int(0)).is_ok(), "0 switches repeat off");
    assert!(matches!(coerce(&rate, Value::Int(-1)), Err(Error::OutOfRange { .. })));
    assert!(matches!(coerce(&rate, Value::Int(1_000)), Err(Error::OutOfRange { .. })));
}

#[test]
fn a_whole_number_is_accepted_where_a_fraction_is_wanted() {
    let deadzone = setting("idle.gamepad.deadzone");
    assert_eq!(
        coerce(&deadzone, Value::Int(0)).unwrap_err().message(),
        "idle.gamepad.deadzone must be between 0.02 and 0.9, not 0"
    );
    assert_eq!(coerce(&deadzone, float("0.5")).ok(), Some(float("0.5")));
    let interval = setting("idle.gamepad.min_interval_ms");
    assert_eq!(coerce(&interval, Value::Int(500)).ok(), Some(Value::Int(500)));
}

#[test]
fn a_non_finite_number_is_refused() {
    let deadzone = setting("idle.gamepad.deadzone");
    for bad in ["NaN", "inf", "-inf"] {
        assert!(matches!(coerce(&deadzone, float(bad)), Err(Error::OutOfRange { .. })), "{bad}");
    }
}

#[test]
fn a_default_is_reported_for_the_settings_that_have_one() {
    assert_eq!(default_value(&setting("compositor.keyboard.repeat_delay")), Some(Value::Int(200)));
    assert_eq!(default_value(&compositor()), Some(Value::Str("click".into())));
    assert_eq!(default_value(&setting("desktop.open")), Some(Value::StrList(Vec::new())));
    assert_eq!(default_value(&setting("compositor.keyboard.layout")), None);
    assert_eq!(default_value(&setting("idle.gamepad.deadzone")), Some(float("0.25")));
}

#[test]
fn a_value_of_the_wrong_shape_in_the_file_reads_as_unset() {
    let document = Document::parse("[focus]\npolicy = 3\n").unwrap();
    assert_eq!(value_of(&document, &compositor()), None);
}

#[test]
fn a_whole_number_in_the_file_reads_as_the_fraction_it_is() {
    let deadzone = setting("idle.gamepad.deadzone");
    let document = Document::parse("[gamepad]\ndeadzone = 1\n").unwrap();
    assert_eq!(value_of(&document, &deadzone), Some(float("1.0")));
}

#[test]
fn error_messages_say_what_was_wrong() {
    let deadzone = setting("idle.gamepad.deadzone");
    assert_eq!(
        coerce(&deadzone, float("2.5")).unwrap_err().message(),
        "idle.gamepad.deadzone must be between 0.02 and 0.9, not 2.5"
    );
    assert_eq!(
        coerce(&setting("compositor.keyboard.repeat_rate"), Value::Int(-1)).unwrap_err().message(),
        "compositor.keyboard.repeat_rate must be between 0 and 255, not -1"
    );
    assert_eq!(
        coerce(&compositor(), Value::Str("Pointer".into())).unwrap_err().message(),
        "compositor.focus.policy must be one of click, pointer, not \"Pointer\""
    );
    assert_eq!(
        coerce(&compositor(), Value::Bool(true)).unwrap_err().message(),
        "compositor.focus.policy is a enum, not a bool"
    );
    assert_eq!(resolve("nope").unwrap_err().message(), "no such setting: nope");
    assert!(resolve("compositor.output.mode")
        .unwrap_err()
        .message()
        .starts_with("compositor.output.mode is not settable here: per-monitor settings"));
}

// --- The store, driven the way the program drives it, over a disk kept in memory ---

struct Disk {
    roots: Roots,
    files: HashMap<String, String>,
}

impl Disk {
    fn new() -> Disk {
        Disk { roots: Roots::new(Some("/u/wlrix".into()), "/s/wlrix".into()), files: HashMap::new() }
    }

    fn user(&self, file: File) -> String {
        self.roots.user_path(file).unwrap()
    }

    fn observe(&self, file: File) -> Observed {
        let user = self.user(file);
        if let Some(text) = self.files.get(&user) {
            return Observed::Read { path: user, from_user: true, text: Ok(text.clone()) };
        }
        let system = self.roots.system_path(file);
        match self.files.get(&system) {
            Some(text) => Observed::Read { path: system, from_user: false, text: Ok(text.clone()) },
            None => Observed::Absent,
        }
    }

    fn load(&self) -> Store {
        Store::load(self.roots.clone(), all().into_iter().map(|file| (file, self.observe(file))).collect())
    }

    fn commit(&mut self, store: &mut Store, plan: Plan) -> Changed {
        let mut touched = Vec::new();
        for edits in &plan.files {
            let user_is_file = self.files.contains_key(&self.user(edits.file));
            let system_is_file = self.files.contains_key(&self.roots.system_path(edits.file));
            let document = match write_source_given(&self.roots, edits.file, user_is_file, system_is_file) {
                Ok(Some(path)) => read_document(&path, Ok(self.files[&path].clone())),
                Ok(None) => Ok(Document::empty()),
                Err(err) => Err(err),
            };
            if let Some(write) = store.prepare_write(edits, document).expect("should write") {
                let text = write.document.to_text();
                self.files.insert(write.path.clone(), text.clone());
                store.record_write(write.file, text.into_bytes());
                touched.push(write.file);
            }
        }
        let written = touched.iter().map(|file| (*file, self.observe(*file))).collect();
        store.settle(&plan, written, |_| Outcome::NotRunning)
    }

    fn refresh(&self, store: &mut Store, file: File) -> Vec<Notice> {
        self.refresh_all(store, &[file])
    }

    fn refresh_all(&self, store: &mut Store, files: &[File]) -> Vec<Notice> {
        let found = files
            .iter()
            .map(|file| Found {
                file: *file,
                actual: self.files.get(&self.user(*file)).map(|text| text.as_bytes().to_vec()),
                observed: self.observe(*file),
            })
            .collect();
        store.refresh(found, |_| Outcome::NotRunning)
    }
}

fn source_of(store: &Store, namespace: &str, key: &str) -> Source {
    store.sources(namespace).into_iter().find(|(k, _)| *k == key).map(|(_, s)| s).unwrap()
}

fn value_in(changed: &Changed, key: &str) -> Option<Value> {
    changed.values.iter().find(|(k, _)| *k == key).map(|(_, v)| v.clone())
}

#[test]
fn a_fresh_store_reports_the_declared_defaults() {
    let disk = Disk::new();
    let store = disk.load();
    assert_eq!(store.get("compositor.focus.policy").unwrap(), Some(Value::Str("click".into())));
    assert_eq!(store.get("compositor.keyboard.repeat_delay").unwrap(), Some(Value::Int(200)));
    assert_eq!(store.get("compositor.keyboard.layout").unwrap(), None);
    assert_eq!(source_of(&store, "compositor", "compositor.focus.policy"), Source::Default);
    assert!(store.invalid().is_empty());
}

#[test]
fn a_write_lands_in_the_user_file_and_reads_back_as_the_users() {
    let mut disk = Disk::new();
    let mut store = disk.load();
    let plan = plan_set_many(&[("compositor.focus.policy".into(), Value::Str("pointer".into()))]).unwrap();
    let changed = disk.commit(&mut store, plan);
    assert_eq!(value_in(&changed, "compositor.focus.policy"), Some(Value::Str("pointer".into())));
    assert_eq!(store.get("compositor.focus.policy").unwrap(), Some(Value::Str("pointer".into())));
    assert_eq!(source_of(&store, "compositor", "compositor.focus.policy"), Source::User);
    let text = &disk.files[&disk.user(File::Compositor)];
    let parsed: toml::Value = toml::from_str(text).expect("should parse");
    assert_eq!(parsed["focus"]["policy"].as_str(), Some("pointer"));
}

#[test]
fn a_batch_writes_each_file_once_and_tells_each_owner_once() {
    let mut disk = Disk::new();
    let mut store = disk.load();
    let plan = plan_set_many(&[
        ("compositor.keyboard.layout".into(), Value::Str("jp".into())),
        ("compositor.keyboard.model".into(), Value::Str("jp106".into())),
        ("compositor.keyboard.repeat_delay".into(), Value::Int(300)),
        ("compositor.focus.policy".into(), Value::Str("pointer".into())),
    ])
    .expect("should apply");
    assert_eq!(plan.files.len(), 1);
    let changed = disk.commit(&mut store, plan);
    assert_eq!(changed.values.len(), 4);
    assert_eq!(changed.outcomes.len(), 1);
    assert_eq!(changed.outcomes[0].0, "wlrix-compositor");
    let parsed: toml::Value = toml::from_str(&disk.files[&disk.user(File::Compositor)]).unwrap();
    assert_eq!(parsed["keyboard"]["layout"].as_str(), Some("jp"));
    assert_eq!(parsed["keyboard"]["model"].as_str(), Some("jp106"));
    assert_eq!(parsed["keyboard"]["repeat_delay"].as_integer(), Some(300));
    assert_eq!(parsed["focus"]["policy"].as_str(), Some("pointer"));
}

#[test]
fn a_batch_over_two_files_tells_both_owners() {
    let mut disk = Disk::new();
    let mut store = disk.load();
    let plan = plan_set_many(&[
        ("compositor.focus.policy".into(), Value::Str("pointer".into())),
        ("idle.gamepad.enable".into(), Value::Bool(false)),
    ])
    .unwrap();
    let changed = disk.commit(&mut store, plan);
    assert_eq!(changed.outcomes.len(), 2);
    assert!(disk.files.contains_key(&disk.user(File::Compositor)));
    assert!(disk.files.contains_key(&disk.user(File::Idle)));
}

#[test]
fn one_bad_value_refuses_the_whole_batch() {
    let err = plan_set_many(&[
        ("compositor.focus.policy".into(), Value::Str("pointer".into())),
        ("compositor.keyboard.repeat_rate".into(), Value::Int(9999)),
    ])
    .expect_err("should refuse");
    assert!(matches!(err, Error::OutOfRange { .. }), "{err:?}");
}

#[test]
fn a_reset_removes_the_key_and_announces_the_default() {
    let mut disk = Disk::new();
    let mut store = disk.load();
    disk.commit(&mut store, plan_set_many(&[("compositor.keyboard.repeat_delay".into(), Value::Int(500))]).unwrap());
    let changed = disk.commit(&mut store, plan_reset(&["compositor.keyboard.repeat_delay".into()]).unwrap());
    assert_eq!(value_in(&changed, "compositor.keyboard.repeat_delay"), Some(Value::Int(200)));
    assert!(!disk.files[&disk.user(File::Compositor)].contains("repeat_delay"));
    assert_eq!(source_of(&store, "compositor", "compositor.keyboard.repeat_delay"), Source::Default);
}

#[test]
fn resetting_what_was_never_set_writes_nothing() {
    let mut disk = Disk::new();
    disk.files.insert(disk.roots.system_path(File::Compositor), "[keyboard]\nlayout = \"fr\"\n".into());
    let mut store = disk.load();
    let changed = disk.commit(&mut store, plan_reset(&["compositor.focus.policy".into()]).unwrap());
    assert!(changed.values.is_empty());
    assert!(!disk.files.contains_key(&disk.user(File::Compositor)));
    assert_eq!(store.get("compositor.keyboard.layout").unwrap(), Some(Value::Str("fr".into())));
}

#[test]
fn the_system_file_is_the_systems_and_seeds_the_first_write() {
    let mut disk = Disk::new();
    disk.files.insert(
        disk.roots.system_path(File::Compositor),
        "# the administrator's\n[keyboard]\nlayout = \"fr\"\nmodel = \"pc105\"\n".into(),
    );
    let mut store = disk.load();
    assert_eq!(store.get("compositor.keyboard.layout").unwrap(), Some(Value::Str("fr".into())));
    assert_eq!(source_of(&store, "compositor", "compositor.keyboard.layout"), Source::System);
    disk.commit(&mut store, plan_set_many(&[("compositor.keyboard.layout".into(), Value::Str("jp".into()))]).unwrap());
    let text = &disk.files[&disk.user(File::Compositor)];
    assert!(text.contains("layout = \"jp\""), "{text}");
    assert!(text.contains("model = \"pc105\""), "{text}");
    assert!(text.contains("# the administrator's"), "{text}");
    assert_eq!(source_of(&store, "compositor", "compositor.keyboard.model"), Source::User);
}

#[test]
fn our_own_write_coming_back_announces_nothing() {
    let mut disk = Disk::new();
    let mut store = disk.load();
    disk.commit(&mut store, plan_set_many(&[("compositor.focus.policy".into(), Value::Str("pointer".into()))]).unwrap());
    assert!(disk.refresh(&mut store, File::Compositor).is_empty());
}

#[test]
fn a_hand_edit_announces_only_the_keys_that_moved() {
    let mut disk = Disk::new();
    let mut store = disk.load();
    disk.commit(&mut store, plan_set_many(&[("compositor.focus.policy".into(), Value::Str("pointer".into()))]).unwrap());
    let _ = disk.refresh(&mut store, File::Compositor);
    let path = disk.user(File::Compositor);
    let text = disk.files[&path].clone();
    disk.files.insert(path, text.replace("pointer", "click") + "[keyboard]\nlayout = \"jp\"\n");
    let notices = disk.refresh(&mut store, File::Compositor);
    let Some(Notice::Changed(changed)) = notices.first() else { panic!("{notices:?}") };
    let mut keys: Vec<&str> = changed.values.iter().map(|(k, _)| *k).collect();
    keys.sort();
    assert_eq!(keys, ["compositor.focus.policy", "compositor.keyboard.layout"], "only what actually moved");
    assert_eq!(value_in(changed, "compositor.keyboard.layout"), Some(Value::Str("jp".into())));
    assert_eq!(changed.outcomes.len(), 1);
}

#[test]
fn a_reformat_that_changes_no_value_announces_nothing() {
    let mut disk = Disk::new();
    let mut store = disk.load();
    disk.commit(&mut store, plan_set_many(&[("compositor.focus.policy".into(), Value::Str("pointer".into()))]).unwrap());
    let _ = disk.refresh(&mut store, File::Compositor);
    let path = disk.user(File::Compositor);
    let text = disk.files[&path].clone();
    disk.files.insert(path, format!("# a new comment\n{text}"));
    assert!(disk.refresh(&mut store, File::Compositor).is_empty());
}

#[test]
fn a_broken_file_is_reported_once_and_its_last_good_values_kept() {
    let mut disk = Disk::new();
    let mut store = disk.load();
    disk.commit(&mut store, plan_set_many(&[("compositor.focus.policy".into(), Value::Str("pointer".into()))]).unwrap());
    let _ = disk.refresh(&mut store, File::Compositor);
    let path = disk.user(File::Compositor);
    disk.files.insert(path.clone(), "[keyboard\nlayout = ".into());
    let notices = disk.refresh(&mut store, File::Compositor);
    assert!(matches!(notices.as_slice(), [Notice::Invalid { .. }]), "{notices:?}");
    assert_eq!(store.get("compositor.focus.policy").unwrap(), Some(Value::Str("pointer".into())));
    assert_eq!(store.invalid().len(), 1);
    assert!(disk.refresh(&mut store, File::Compositor).is_empty(), "reported once");
    disk.files.insert(path, "[focus]\npolicy = \"click\"\n".into());
    let notices = disk.refresh(&mut store, File::Compositor);
    assert!(matches!(notices.as_slice(), [Notice::Recovered { .. }, Notice::Changed(_)]), "{notices:?}");
    assert!(store.invalid().is_empty());
}

#[test]
fn a_hand_edit_right_after_our_write_is_still_a_hand_edit() {
    let mut disk = Disk::new();
    let mut store = disk.load();
    disk.commit(&mut store, plan_set_many(&[("compositor.focus.policy".into(), Value::Str("pointer".into()))]).unwrap());
    disk.files.insert(disk.user(File::Compositor), "[focus]\npolicy = \"click\"\n".into());
    let notices = disk.refresh(&mut store, File::Compositor);
    assert!(matches!(notices.as_slice(), [Notice::Changed(_)]), "{notices:?}");
}

#[test]
fn a_burst_over_several_files_is_one_change_after_what_broke() {
    let mut disk = Disk::new();
    let mut store = disk.load();
    disk.files.insert(disk.user(File::Compositor), "[appearance]\npalette = \"gotham\"\n".into());
    disk.files.insert(disk.user(File::Tray), "[appearance]\npalette = \"gotham\"\n".into());
    disk.files.insert(disk.user(File::Idle), "[gamepad\n".into());
    let notices = disk.refresh_all(&mut store, &[File::Compositor, File::Idle, File::Tray]);
    let [Notice::Invalid { namespace, .. }, Notice::Changed(changed)] = notices.as_slice() else {
        panic!("{notices:?}")
    };
    assert_eq!(*namespace, "idle");
    let keys: Vec<&str> = changed.values.iter().map(|(k, _)| *k).collect();
    assert_eq!(keys, ["compositor.appearance.palette", "tray.appearance.palette", "appearance.palette"]);
    let programs: Vec<&str> = changed.outcomes.iter().map(|(p, _)| *p).collect();
    assert_eq!(programs, ["wlrix-compositor", "wlrix-tray"], "each owner once, in the order its file came");
    assert!(disk.refresh_all(&mut store, &[File::Compositor, File::Tray]).is_empty());
}

#[test]
fn a_group_key_writes_every_member_and_is_announced_with_them() {
    let mut disk = Disk::new();
    let mut store = disk.load();
    let plan = plan_set_many(&[("appearance.palette".into(), Value::Str("gotham".into()))]).unwrap();
    assert_eq!(plan.files.len(), 4);
    let changed = disk.commit(&mut store, plan);
    for key in [
        "compositor.appearance.palette",
        "desktop.appearance.palette",
        "screenshot.appearance.palette",
        "tray.appearance.palette",
        "appearance.palette",
    ] {
        assert_eq!(value_in(&changed, key), Some(Value::Str("gotham".into())), "{key}");
    }
    assert_eq!(store.get("appearance.palette").unwrap(), Some(Value::Str("gotham".into())));
    let changed = disk.commit(&mut store, plan_reset(&["appearance.palette".into()]).unwrap());
    assert_eq!(store.get("appearance.palette").unwrap(), None);
    assert!(changed.values.is_empty(), "{:?}", changed.values);
}

#[test]
fn resetting_a_namespace_removes_everything_in_it() {
    let mut disk = Disk::new();
    let mut store = disk.load();
    disk.commit(&mut store, plan_set_many(&[
        ("idle.gamepad.enable".into(), Value::Bool(false)),
        ("idle.gamepad.deadzone".into(), float("0.5")),
    ]).unwrap());
    let changed = disk.commit(&mut store, plan_reset_namespace("idle").unwrap());
    assert_eq!(value_in(&changed, "idle.gamepad.deadzone"), Some(float("0.25")));
    assert!(matches!(plan_reset_namespace("appearance"), Err(Error::UnknownKey(_))));
}

#[test]
fn a_store_answers_per_namespace() {
    let disk = Disk::new();
    let store = disk.load();
    let all_values = store.get_all("compositor");
    assert!(all_values.iter().any(|(k, v)| *k == "compositor.focus.policy" && *v == Value::Str("click".into())));
    assert!(!all_values.iter().any(|(k, _)| *k == "compositor.keyboard.layout"));
    assert_eq!(store.sources("compositor").len(), in_namespace("compositor").len());
    assert!(store.get_all("nothing").is_empty());
}

#[test]
fn a_write_keeps_the_users_comments_and_key_order() {
    let mut disk = Disk::new();
    let path = disk.user(File::Compositor);
    disk.files.insert(
        path.clone(),
        "# my settings\n[keyboard]\nrepeat_delay = 200  # feels right\nlayout = \"us\"\n".into(),
    );
    let mut store = disk.load();
    disk.commit(&mut store, plan_set_many(&[("compositor.keyboard.repeat_delay".into(), Value::Int(300))]).unwrap());
    assert_eq!(
        disk.files[&path],
        "# my settings\n[keyboard]\nrepeat_delay = 300  # feels right\nlayout = \"us\"\n"
    );
}
