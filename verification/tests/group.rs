use std::collections::BTreeSet;

use wlrix_settings_daemon::schema::{group_of, groups, lookup, lookup_group};

#[test]
fn every_member_is_a_real_setting() {
    for group in groups() {
        for member in group.members {
            assert!(lookup(member).is_some(), "{}: no setting called {member}", group.key);
        }
    }
}

#[test]
fn a_group_and_its_members_agree_about_the_type() {
    for group in groups() {
        for setting in group.settings() {
            assert_eq!(
                setting.kind.name(),
                group.kind.name(),
                "{} is {} but {} is {}",
                group.key,
                group.kind.name(),
                setting.key,
                setting.kind.name()
            );
        }
    }
}

#[test]
fn a_group_key_is_not_also_a_setting() {
    for group in groups() {
        assert!(lookup(group.key).is_none(), "{} is both a group and a setting", group.key);
    }
}

#[test]
fn no_key_belongs_to_two_groups() {
    let mut seen = BTreeSet::new();
    for group in groups() {
        for member in group.members {
            assert!(seen.insert(*member), "{member} is in more than one group");
        }
    }
}

#[test]
fn a_group_names_no_key_twice() {
    for group in groups() {
        let unique: BTreeSet<_> = group.members.iter().collect();
        assert_eq!(unique.len(), group.members.len(), "{} lists a member twice", group.key);
    }
}

#[test]
fn the_scheme_reaches_everything_that_draws() {
    let group = lookup_group("appearance.palette").expect("the scheme is a group");
    for expected in [
        "compositor.appearance.palette",
        "desktop.appearance.palette",
        "screenshot.appearance.palette",
        "tray.appearance.palette",
    ] {
        assert!(group.members.contains(&expected), "{expected} is missing");
    }
    assert_eq!(group_of("tray.appearance.palette").map(|g| g.key), Some(group.key));
    assert_eq!(group_of("compositor.keyboard.layout").map(|g| g.key), None);
}
