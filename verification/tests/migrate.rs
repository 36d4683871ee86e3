use stellarshot::migrate::{config_root, migrates, version_dir, OLD_APP_ID};

#[test]
fn settings_live_under_cosmic_by_app_id_and_version() {
    assert_eq!(
        version_dir("/home/alex/.config", "io.example.New", 1),
        "/home/alex/.config/cosmic/io.example.New/v1"
    );
    assert_eq!(
        version_dir("/tmp/root/", OLD_APP_ID, 12),
        "/tmp/root/cosmic/com.github.cosmic-utils.Stellarshot/v12"
    );
}

#[test]
fn the_config_root_prefers_an_absolute_xdg_config_home() {
    assert_eq!(
        config_root(Some("/xdg"), Some("/home/alex")),
        Some("/xdg".to_string())
    );
    assert_eq!(
        config_root(Some("relative"), Some("/home/alex")),
        Some("/home/alex/.config".to_string()),
        "a relative XDG_CONFIG_HOME is ignored"
    );
    assert_eq!(config_root(None, Some("/home/alex")), Some("/home/alex/.config".to_string()));
    assert_eq!(config_root(None, None), None);
}

#[test]
fn old_settings_are_copied_only_once_and_never_over_new_ones() {
    assert!(migrates(true, false));
    assert!(!migrates(true, true), "newer settings are never overwritten");
    assert!(!migrates(false, false), "no old settings is a no-op");
}
