use wlrix_settings_daemon::apply::{
    notify, parse_pid, pidfile_path, reload_via_pidfile, runtime_dir, signal_owner, Outcome,
};
use wlrix_settings_daemon::schema::{Owner, Reload};

#[test]
fn a_pidfile_is_a_bare_number() {
    assert_eq!(parse_pid("1234"), Some(1234));
    // Every wlRIX pidfile is written with a trailing newline.
    assert_eq!(parse_pid("1234\n"), Some(1234));
    assert_eq!(parse_pid("  1234  \n"), Some(1234));
}

#[test]
fn nonsense_in_the_pidfile_is_not_a_pid() {
    for text in ["", "\n", "not a pid", "12x", "-1", "3.5"] {
        assert_eq!(parse_pid(text), None, "{text:?}");
    }
}

#[test]
fn pid_one_and_zero_are_refused() {
    assert_eq!(parse_pid("0"), None);
    assert_eq!(parse_pid("1"), None);
}

#[test]
fn the_pidfiles_are_the_ones_the_owners_write() {
    assert_eq!(Owner::Compositor.pidfile(), Some("wlrix-compositor.pid"));
    assert_eq!(Owner::Idle.pidfile(), Some("wlrix-idle.pid"));
    assert_eq!(Owner::Desktop.pidfile(), Some("wlrix-desktop.pid"));
    assert_eq!(Owner::Background.pidfile(), Some("wlrix-bg.pid"));
    assert_eq!(Owner::Portal.pidfile(), None);
}

#[test]
fn a_setting_nobody_can_be_told_about_says_so_without_looking() {
    let never = |_: &'static str| -> Outcome { panic!("no pidfile should be looked at") };
    assert_eq!(notify(Owner::Nobody, Reload::NextLogin, never), Outcome::NextLogin);
    assert_eq!(notify(Owner::Portal, Reload::Never, never), Outcome::RestartRequired);
    assert_eq!(notify(Owner::Idle, Reload::Restart, never), Outcome::RestartRequired);
}

#[test]
fn a_live_setting_asks_for_its_owners_pidfile() {
    let answer = notify(Owner::Compositor, Reload::Live, |name| {
        assert_eq!(name, "wlrix-compositor.pid");
        Outcome::Applied
    });
    assert_eq!(answer, Outcome::Applied);
}

#[test]
fn a_live_owner_without_a_pidfile_must_be_restarted() {
    let never = |_: &'static str| -> Outcome { panic!("the portal has no pidfile") };
    assert_eq!(signal_owner(Owner::Portal, never), Outcome::RestartRequired);
    assert_eq!(notify(Owner::Portal, Reload::Live, never), Outcome::RestartRequired);
}

#[test]
fn a_missing_pidfile_means_not_running() {
    let never = |_: i32| -> bool { panic!("nothing to signal") };
    assert_eq!(reload_via_pidfile(None, never), Outcome::NotRunning);
}

#[test]
fn a_pidfile_naming_no_process_that_may_be_signaled_means_not_running() {
    for text in ["1\n", "0\n", "not a pid\n", ""] {
        let never = |_: i32| -> bool { panic!("{text:?} names nothing to signal") };
        assert_eq!(reload_via_pidfile(Some(text), never), Outcome::NotRunning, "{text:?}");
    }
}

#[test]
fn a_signal_that_arrives_is_applied_and_one_that_does_not_is_not_running() {
    let mut asked = Vec::new();
    let answer = reload_via_pidfile(Some("4321\n"), |pid| {
        asked.push(pid);
        true
    });
    assert_eq!(answer, Outcome::Applied);
    assert_eq!(asked, [4321]);
    assert_eq!(reload_via_pidfile(Some("2147483646\n"), |_| false), Outcome::NotRunning);
}

#[test]
fn outcomes_have_the_names_a_panel_reads() {
    assert_eq!(Outcome::Applied.name(), "applied");
    assert_eq!(Outcome::NotRunning.name(), "not-running");
    assert_eq!(Outcome::RestartRequired.name(), "restart-required");
    assert_eq!(Outcome::NextLogin.name(), "next-login");
}

#[test]
fn pidfiles_live_in_the_runtime_directory_when_it_is_absolute() {
    assert_eq!(runtime_dir(Some("/run/user/1000"), "/tmp"), "/run/user/1000");
    assert_eq!(runtime_dir(Some("relative/dir"), "/tmp"), "/tmp");
    assert_eq!(runtime_dir(Some(""), "/tmp"), "/tmp");
    assert_eq!(runtime_dir(None, "/tmp"), "/tmp");
    assert_eq!(
        pidfile_path("/run/user/1000", "wlrix-idle.pid"),
        "/run/user/1000/wlrix-idle.pid"
    );
    assert_eq!(pidfile_path("/tmp/", "wlrix-bg.pid"), "/tmp/wlrix-bg.pid");
}
