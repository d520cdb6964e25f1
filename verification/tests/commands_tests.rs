use hyprfresh::commands::OverlaySet;
use hyprfresh::commands::RendererCommand;
use hyprfresh::commands::SessionIdleConfig;

fn outputs() -> Vec<String> {
    vec!["DP-1".to_string(), "DP-2".to_string()]
}

#[test]
fn renderer_command_variants() {
    let cmds = vec![
        RendererCommand::Start {
            monitor: "DP-1".into(),
            screensaver: "matrix".into(),
        },
        RendererCommand::StartAll {
            screensaver: "matrix".into(),
        },
        RendererCommand::Stop {
            monitor: "DP-1".into(),
        },
        RendererCommand::StopAll,
        RendererCommand::MonitorRemoved {
            monitor: "DP-1".into(),
        },
        RendererCommand::Shutdown,
    ];
    assert_eq!(cmds.len(), 6);
}

#[test]
fn session_idle_config_defaults() {
    let config = SessionIdleConfig {
        enabled: true,
        timeout_secs: 600,
        screensaver: "matrix".to_string(),
    };
    assert!(config.enabled);
    assert_eq!(config.timeout_secs, 600);
    assert_eq!(config.screensaver, "matrix");
}

#[test]
fn session_idle_config_disabled() {
    let config = SessionIdleConfig {
        enabled: false,
        timeout_secs: 0,
        screensaver: "blank".to_string(),
    };
    assert!(!config.enabled);
}

#[test]
fn start_all_command_clone() {
    let cmd = RendererCommand::StartAll {
        screensaver: "starfield".into(),
    };
    let cloned = cmd.clone();
    match cloned {
        RendererCommand::StartAll { screensaver } => {
            assert_eq!(screensaver, "starfield");
        }
        _ => panic!("Expected StartAll"),
    }
}

#[test]
fn stop_on_inactive_monitor_changes_nothing() {
    let outs = outputs();
    let mut set = OverlaySet::new();
    set.apply_command(
        &RendererCommand::Start { monitor: "DP-1".to_string(), screensaver: "matrix".to_string() },
        &outs,
    );
    let before_active = set.active.clone();
    let before_exit = set.exit;

    // DP-2 has no overlay: stopping it is a no-op.
    set.apply_command(&RendererCommand::Stop { monitor: "DP-2".to_string() }, &outs);
    assert_eq!(set.active, before_active);
    assert_eq!(set.exit, before_exit);

    // Removing an already-removed monitor is a no-op too, even repeated.
    set.apply_command(&RendererCommand::MonitorRemoved { monitor: "DP-2".to_string() }, &outs);
    set.apply_command(&RendererCommand::MonitorRemoved { monitor: "DP-2".to_string() }, &outs);
    assert_eq!(set.active, before_active);
    assert_eq!(set.exit, before_exit);
}

#[test]
fn start_then_stop_in_order_nets_to_stopped() {
    let outs = outputs();
    let mut set = OverlaySet::new();
    let batch = vec![
        RendererCommand::Start { monitor: "DP-1".to_string(), screensaver: "matrix".to_string() },
        RendererCommand::Stop { monitor: "DP-1".to_string() },
    ];
    set.apply_commands(&batch, &outs);
    assert!(!set.is_active(&"DP-1".to_string()));
    assert!(set.active.is_empty());
}

#[test]
fn start_for_unknown_output_is_ignored() {
    let outs = outputs();
    let mut set = OverlaySet::new();
    set.apply_command(
        &RendererCommand::Start {
            monitor: "HDMI-A-9".to_string(),
            screensaver: "matrix".to_string(),
        },
        &outs,
    );
    assert!(set.active.is_empty());
}

#[test]
fn start_all_covers_every_known_output_once() {
    let outs = outputs();
    let mut set = OverlaySet::new();
    set.apply_command(
        &RendererCommand::Start { monitor: "DP-2".to_string(), screensaver: "blank".to_string() },
        &outs,
    );
    set.apply_command(
        &RendererCommand::StartAll { screensaver: "matrix".to_string() },
        &outs,
    );
    let mut active = set.active.clone();
    active.sort();
    assert_eq!(active, vec!["DP-1".to_string(), "DP-2".to_string()]);
}

#[test]
fn shutdown_clears_overlays_and_sets_exit() {
    let outs = outputs();
    let mut set = OverlaySet::new();
    set.apply_command(
        &RendererCommand::StartAll { screensaver: "matrix".to_string() },
        &outs,
    );
    set.apply_command(&RendererCommand::Shutdown, &outs);
    assert!(set.active.is_empty());
    assert!(set.exit);
}

#[test]
fn stop_all_clears_overlays_without_exit() {
    let outs = outputs();
    let mut set = OverlaySet::new();
    set.apply_command(
        &RendererCommand::StartAll { screensaver: "matrix".to_string() },
        &outs,
    );
    set.apply_command(&RendererCommand::StopAll, &outs);
    assert!(set.active.is_empty());
    assert!(!set.exit);
}
