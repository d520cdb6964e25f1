use hyprfresh::config::Config;
use hyprfresh::config::GeneralConfig;
use hyprfresh::config::MonitorConfig;
use hyprfresh::config::MonitorOverride;
use hyprfresh::config::default_fps;
use hyprfresh::config::default_idle_timeout;
use hyprfresh::config::default_poll_interval;
use hyprfresh::config::default_screensaver;
use hyprfresh::config::default_true;

#[test]
fn session_idle_defaults_to_idle_timeout() {
    // A configuration with nothing set takes every default.
    let config = Config::default();
    assert!(config.general.session_idle);
    assert_eq!(config.general.session_idle_timeout, None);
    // Effective timeout should match idle_timeout (300s default)
    assert_eq!(config.general.effective_session_idle_timeout(), 300);
}

#[test]
fn session_idle_explicit_config() {
    let config = Config {
        general: GeneralConfig {
            session_idle: false,
            session_idle_timeout: Some(900),
            ..GeneralConfig::default()
        },
        ..Config::default()
    };
    assert!(!config.general.session_idle);
    assert_eq!(config.general.session_idle_timeout, Some(900));
    assert_eq!(config.general.effective_session_idle_timeout(), 900);
}

#[test]
fn session_idle_inherits_idle_timeout() {
    let config = Config {
        general: GeneralConfig {
            idle_timeout: 60,
            session_idle: true,
            ..GeneralConfig::default()
        },
        ..Config::default()
    };
    assert!(config.general.session_idle);
    assert_eq!(config.general.session_idle_timeout, None);
    // Should inherit idle_timeout
    assert_eq!(config.general.effective_session_idle_timeout(), 60);
}

#[test]
fn session_idle_explicit_overrides_idle_timeout() {
    let config = Config {
        general: GeneralConfig {
            idle_timeout: 60,
            session_idle: true,
            session_idle_timeout: Some(120),
            ..GeneralConfig::default()
        },
        ..Config::default()
    };
    assert!(config.general.session_idle);
    assert_eq!(config.general.effective_session_idle_timeout(), 120);
}

#[test]
fn default_values_are_exact() {
    assert_eq!(default_idle_timeout(), 300);
    assert_eq!(default_poll_interval(), 500);
    assert_eq!(default_screensaver(), "matrix");
    assert_eq!(default_fps(), 30);
    assert!(default_true());
}

#[test]
fn override_lookup_honors_first_match_and_defaults() {
    let config = Config {
        monitors: vec![
            MonitorOverride {
                name: "DP-1".to_string(),
                config: MonitorConfig {
                    idle_timeout: Some(60),
                    screensaver: Some("blank".to_string()),
                    disabled: false,
                },
            },
            MonitorOverride {
                name: "DP-2".to_string(),
                config: MonitorConfig { idle_timeout: None, screensaver: None, disabled: true },
            },
        ],
        ..Config::default()
    };

    assert_eq!(config.timeout_for(&"DP-1".to_string()), 60);
    assert_eq!(config.screensaver_for(&"DP-1".to_string()), "blank");
    assert!(!config.disabled_for(&"DP-1".to_string()));

    // DP-2 overrides only the disabled flag; the rest fall back to globals.
    assert_eq!(config.timeout_for(&"DP-2".to_string()), 300);
    assert_eq!(config.screensaver_for(&"DP-2".to_string()), "matrix");
    assert!(config.disabled_for(&"DP-2".to_string()));

    // An unlisted monitor takes all the globals.
    assert_eq!(config.timeout_for(&"HDMI-A-1".to_string()), 300);
    assert_eq!(config.screensaver_for(&"HDMI-A-1".to_string()), "matrix");
    assert!(!config.disabled_for(&"HDMI-A-1".to_string()));
}
