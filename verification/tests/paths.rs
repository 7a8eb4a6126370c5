use wlrix_settings_daemon::paths::{all, file_named, is_known_file, File, Roots};

#[test]
fn a_namespace_is_the_files_stem() {
    for file in all() {
        assert_eq!(file.file_name(), format!("{}.toml", file.namespace()));
        assert_eq!(File::from_namespace(file.namespace()), Some(file));
    }
}

#[test]
fn an_unknown_namespace_names_no_file() {
    for name in ["greeter", "", "compositor.toml", "Compositor"] {
        assert_eq!(File::from_namespace(name), None, "{name:?}");
    }
}

#[test]
fn only_our_own_files_are_interesting() {
    assert!(is_known_file("compositor.toml"));
    assert!(is_known_file("session.toml"));
    for name in [
        ".compositor.toml.swp",
        ".compositor.toml.tmp",
        "compositor.toml~",
        "autostart.toml",
        "outputs.toml",
    ] {
        assert!(!is_known_file(name), "{name:?}");
    }
}

#[test]
fn a_file_name_names_its_file() {
    assert_eq!(file_named("idle.toml"), Some(File::Idle));
    assert_eq!(file_named("tray.toml"), Some(File::Tray));
    assert_eq!(file_named("idle"), None);
    assert_eq!(file_named(".idle.toml.tmp"), None);
}

#[test]
fn the_real_roots_are_the_ones_every_component_reads() {
    // Whatever the environment holds, the daemon writes where every component reads.
    for (xdg, home) in [
        (Some("/home/a/.config"), Some("/home/a")),
        (None, Some("/home/a")),
        (Some(""), Some("/home/a")),
        (None, None),
    ] {
        let roots = Roots::from_environment(xdg, home);
        assert_eq!(roots.system_path(File::Compositor), "/etc/wlrix/compositor.toml");
        assert!(roots.user_path(File::Compositor).is_none_or(|path| path
            .ends_with(".config/wlrix/compositor.toml")
            || path.ends_with("wlrix/compositor.toml")));
    }
}

#[test]
fn the_user_directory_comes_from_xdg_config_home_else_home() {
    let roots = Roots::from_environment(Some("/home/a/.cfg"), Some("/home/a"));
    assert_eq!(roots.user_dir(), Some("/home/a/.cfg/wlrix"));
    assert_eq!(roots.config_home().as_deref(), Some("/home/a/.cfg"));
    let roots = Roots::from_environment(Some(""), Some("/home/a"));
    assert_eq!(roots.user_dir(), Some("/home/a/.config/wlrix"));
    let roots = Roots::from_environment(None, Some("/home/a"));
    assert_eq!(
        roots.user_path(File::Compositor).as_deref(),
        Some("/home/a/.config/wlrix/compositor.toml")
    );
    assert_eq!(roots.system_path(File::Compositor), "/etc/wlrix/compositor.toml");
    let roots = Roots::from_environment(None, None);
    assert_eq!(roots.user_dir(), None);
    assert_eq!(roots.user_path(File::Idle), None);
    assert_eq!(roots.system_dir(), "/etc/wlrix");
}

#[test]
fn the_user_file_wins_and_the_system_file_is_the_fallback() {
    let roots = Roots::new(Some("/u/wlrix".into()), "/s/wlrix".into());
    assert_eq!(
        roots.effective_path_given(File::Idle, true, true).as_deref(),
        Some("/u/wlrix/idle.toml")
    );
    assert_eq!(
        roots.effective_path_given(File::Idle, false, true).as_deref(),
        Some("/s/wlrix/idle.toml")
    );
    assert_eq!(roots.effective_path_given(File::Idle, false, false), None);
    assert!(roots.is_user_file_given(File::Idle, true, false));
    assert!(!roots.is_user_file_given(File::Idle, false, true));
    let nowhere = Roots::new(None, "/s/wlrix".into());
    assert_eq!(
        nowhere.effective_path_given(File::Idle, true, true).as_deref(),
        Some("/s/wlrix/idle.toml")
    );
}
