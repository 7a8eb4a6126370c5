use wlrix_settings_daemon::cli::{check_report, parse_args, Command};
use wlrix_settings_daemon::paths::{all, File, Roots};
use wlrix_settings_daemon::store::{Observed, Store};

fn args(list: &[&str]) -> Vec<String> {
    list.iter().map(|s| s.to_string()).collect()
}

#[test]
fn flags_are_read_and_help_version_or_nonsense_stop_the_reading() {
    assert_eq!(parse_args(&args(&[])), Command::Run { replace: false, dump_schema: false, check: false });
    assert_eq!(
        parse_args(&args(&["--replace", "--check"])),
        Command::Run { replace: true, dump_schema: false, check: true }
    );
    assert_eq!(
        parse_args(&args(&["--dump-schema"])),
        Command::Run { replace: false, dump_schema: true, check: false }
    );
    assert_eq!(parse_args(&args(&["--replace", "-h", "--bogus"])), Command::Help);
    assert_eq!(parse_args(&args(&["--version"])), Command::Version);
    assert_eq!(parse_args(&args(&["-V"])), Command::Version);
    assert_eq!(parse_args(&args(&["--bogus", "-h"])), Command::Unknown("--bogus".into()));
}

#[test]
fn check_counts_what_is_set_or_names_what_is_broken() {
    let roots = Roots::new(Some("/u/wlrix".into()), "/s/wlrix".into());
    let mut store = Store::new(roots);
    for file in all() {
        store.reread(file, Observed::Absent);
    }
    store.reread(
        File::Idle,
        Observed::Read { path: "/u/wlrix/idle.toml".into(), from_user: true, text: Ok("[gamepad]\nenable = false\n".into()) },
    );
    let (ok, lines) = check_report(&store);
    assert!(ok);
    assert_eq!(lines.len(), all().len());
    assert!(lines.iter().any(|line| line.starts_with("idle: 1 of ")), "{lines:?}");
    assert!(lines.iter().any(|line| line.starts_with("compositor: 0 of ")), "{lines:?}");

    store.reread(
        File::Compositor,
        Observed::Read { path: "/u/wlrix/compositor.toml".into(), from_user: true, text: Ok("[keyboard\n".into()) },
    );
    let (ok, lines) = check_report(&store);
    assert!(!ok);
    assert_eq!(lines.len(), 1);
    assert!(lines[0].starts_with("compositor: /u/wlrix/compositor.toml is not valid: "), "{lines:?}");
}
