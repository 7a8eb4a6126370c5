use wlrix_settings_daemon::paths::{all, File};
use wlrix_settings_daemon::watch::{
    changed_files, parent_watch, wait_step, Event, ParentWatch, Polled, WaitStep,
};

fn named(name: &str) -> Event {
    Event { name: Some(name.into()), everything: false }
}

#[test]
fn an_event_naming_a_config_file_puts_that_file_in_doubt() {
    assert_eq!(changed_files(&[named("compositor.toml")]), [File::Compositor]);
    assert_eq!(changed_files(&[named("idle.toml"), named("idle.toml")]), [File::Idle]);
}

#[test]
fn a_swapfile_or_a_temporary_is_no_change() {
    let events: Vec<Event> = [
        ".compositor.toml.swp",
        "compositor.toml~",
        "4913",
        "outputs.toml",
        "autostart.toml",
        ".compositor.toml.tmp",
        "wlrix",
    ]
    .into_iter()
    .map(named)
    .collect();
    assert!(changed_files(&events).is_empty());
}

#[test]
fn a_burst_is_one_answer_in_file_order() {
    let events = [named("idle.toml"), named("compositor.toml"), named("desktop.toml"), named("compositor.toml")];
    assert_eq!(changed_files(&events), [File::Compositor, File::Desktop, File::Idle]);
}

#[test]
fn losing_the_directory_puts_every_file_in_doubt_and_a_removed_watch_none() {
    let gone = Event { name: None, everything: true };
    assert_eq!(changed_files(&[gone]), all());
    let ignored = Event { name: None, everything: false };
    assert!(changed_files(&[ignored]).is_empty());
}

#[test]
fn the_parent_is_watched_only_while_the_directory_is_missing() {
    assert_eq!(parent_watch(true, true), ParentWatch::Drop);
    assert_eq!(parent_watch(false, false), ParentWatch::Add);
    assert_eq!(parent_watch(true, false), ParentWatch::Keep);
    assert_eq!(parent_watch(false, true), ParentWatch::Keep);
}

#[test]
fn a_burst_is_answered_only_once_the_directories_go_quiet() {
    assert_eq!(wait_step(Polled::Started, false), WaitStep::Block);
    assert_eq!(wait_step(Polled::Started, true), WaitStep::Settle, "what was pending is not waited for again");
    assert_eq!(wait_step(Polled::Woke, true), WaitStep::Settle);
    assert_eq!(wait_step(Polled::MoreArrived, true), WaitStep::Settle);
    assert_eq!(wait_step(Polled::WentQuiet, true), WaitStep::Answer);
}
