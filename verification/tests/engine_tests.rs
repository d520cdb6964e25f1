use hyprfresh::commands::RendererCommand;
use hyprfresh::config::Config;
use hyprfresh::config::GeneralConfig;
use hyprfresh::config::MonitorConfig;
use hyprfresh::config::MonitorOverride;
use hyprfresh::config::ScreensaverConfig;
use hyprfresh::engine::IdleEngine;
use hyprfresh::engine::MonitorIdleState;
use hyprfresh::engine::TickSnapshot;
use hyprfresh::geometry::CursorPos;
use hyprfresh::geometry::MonitorInfo;

fn monitor(name: &str, x: i32) -> MonitorInfo {
    MonitorInfo {
        id: 0,
        name: name.to_string(),
        x,
        y: 0,
        width: 1920,
        height: 1080,
        transform: 0,
        active_workspace_id: 1,
        focused: false,
    }
}

fn config_with(disabled: &[&str]) -> Config {
    Config {
        general: GeneralConfig {
            idle_timeout: 300,
            poll_interval: 500,
            session_idle: true,
            session_idle_timeout: None,
        },
        monitors: disabled
            .iter()
            .map(|name| MonitorOverride {
                name: name.to_string(),
                config: MonitorConfig { idle_timeout: None, screensaver: None, disabled: true },
            })
            .collect(),
        screensaver: ScreensaverConfig { name: "matrix".to_string(), fps: 30 },
    }
}

fn three_monitors() -> Vec<MonitorInfo> {
    vec![monitor("A", 0), monitor("B", 1920), monitor("C", 3840)]
}

fn snapshot(cursor_x: i32, session_idle: bool, now: u64) -> TickSnapshot {
    TickSnapshot {
        cursor: CursorPos { x: cursor_x, y: 500 },
        monitors: three_monitors(),
        session_idle,
        now,
    }
}

fn entry_of<'a>(engine: &'a IdleEngine, name: &str) -> &'a MonitorIdleState {
    engine.monitors.iter().find(|e| e.name == name).expect("entry missing")
}

/// Session-idle rising edge with the cursor sitting on an already-covered
/// monitor A, B idle, C disabled: exactly one Start, and it is for B.
#[test]
fn rising_edge_starts_only_enabled_inactive_monitors() {
    let cfg = config_with(&["C"]);
    let mut engine = IdleEngine::new();
    engine.monitors = vec![
        MonitorIdleState { name: "A".to_string(), last_cursor_seen: 0, screensaver_active: true },
        MonitorIdleState { name: "B".to_string(), last_cursor_seen: 0, screensaver_active: false },
        MonitorIdleState { name: "C".to_string(), last_cursor_seen: 0, screensaver_active: false },
    ];
    engine.session_was_idle = false;

    // Cursor on A, session just went idle.
    let cmds = engine.poll_tick(&cfg, Some(snapshot(100, true, 1000)));

    assert_eq!(cmds.len(), 1);
    match &cmds[0] {
        RendererCommand::Start { monitor, screensaver } => {
            assert_eq!(monitor, "B");
            assert_eq!(screensaver, "matrix");
        }
        other => panic!("Expected Start for B, got {:?}", other),
    }
    assert!(entry_of(&engine, "A").screensaver_active);
    assert!(entry_of(&engine, "B").screensaver_active);
    assert!(!entry_of(&engine, "C").screensaver_active);
}

/// The rising edge deliberately covers the cursor's own monitor too when it
/// has no screensaver yet: session-wide idle is authoritative for all
/// enabled monitors.
#[test]
fn rising_edge_covers_cursor_monitor_when_inactive() {
    let cfg = config_with(&["C"]);
    let mut engine = IdleEngine::new();

    // First tick tracks the three monitors, session not yet idle.
    let cmds = engine.poll_tick(&cfg, Some(snapshot(100, false, 1000)));
    assert!(cmds.is_empty());

    // Session goes idle: A and B start, C stays disabled.
    let cmds = engine.poll_tick(&cfg, Some(snapshot(100, true, 2000)));
    let started: Vec<&str> = cmds
        .iter()
        .map(|c| match c {
            RendererCommand::Start { monitor, .. } => monitor.as_str(),
            other => panic!("Expected only Start commands, got {:?}", other),
        })
        .collect();
    assert_eq!(started, vec!["A", "B"]);
}

/// Session-idle falling edge with the cursor resolved to monitor A: exactly
/// one Stop, for A; the state of B and C is untouched.
#[test]
fn falling_edge_stops_only_cursor_monitor() {
    let cfg = config_with(&["C"]);
    let mut engine = IdleEngine::new();
    engine.monitors = vec![
        MonitorIdleState { name: "A".to_string(), last_cursor_seen: 900, screensaver_active: true },
        MonitorIdleState { name: "B".to_string(), last_cursor_seen: 900, screensaver_active: true },
        MonitorIdleState { name: "C".to_string(), last_cursor_seen: 900, screensaver_active: false },
    ];
    engine.session_was_idle = true;

    let cmds = engine.poll_tick(&cfg, Some(snapshot(100, false, 1000)));

    assert_eq!(cmds.len(), 1);
    match &cmds[0] {
        RendererCommand::Stop { monitor } => assert_eq!(monitor, "A"),
        other => panic!("Expected Stop for A, got {:?}", other),
    }
    assert!(!entry_of(&engine, "A").screensaver_active);
    assert_eq!(entry_of(&engine, "A").last_cursor_seen, 1000);
    assert!(entry_of(&engine, "B").screensaver_active);
    assert_eq!(entry_of(&engine, "B").last_cursor_seen, 900);
    assert!(!entry_of(&engine, "C").screensaver_active);
    assert_eq!(entry_of(&engine, "C").last_cursor_seen, 900);
}

/// Falling edge with no cursor monitor: one blanket StopAll, every tracked
/// monitor marked inactive and refreshed.
#[test]
fn falling_edge_without_cursor_monitor_stops_all() {
    let cfg = config_with(&[]);
    let mut engine = IdleEngine::new();
    engine.monitors = vec![
        MonitorIdleState { name: "A".to_string(), last_cursor_seen: 0, screensaver_active: true },
        MonitorIdleState { name: "B".to_string(), last_cursor_seen: 0, screensaver_active: true },
    ];
    engine.session_was_idle = true;

    // Cursor far off every monitor.
    let snap = TickSnapshot {
        cursor: CursorPos { x: 100_000, y: 100_000 },
        monitors: vec![monitor("A", 0), monitor("B", 1920)],
        session_idle: false,
        now: 5000,
    };
    let cmds = engine.poll_tick(&cfg, Some(snap));

    assert_eq!(cmds.len(), 1);
    assert!(matches!(cmds[0], RendererCommand::StopAll));
    assert!(!entry_of(&engine, "A").screensaver_active);
    assert!(!entry_of(&engine, "B").screensaver_active);
    assert_eq!(entry_of(&engine, "A").last_cursor_seen, 5000);
}

/// Per-monitor timeout: B untouched by the cursor for the whole timeout
/// while the session stays awake and the cursor sits on A gets exactly one
/// Start, never repeated while it stays idle.
#[test]
fn per_monitor_timeout_starts_exactly_once() {
    let cfg = config_with(&[]);
    let mut engine = IdleEngine::new();

    // First tick at t=0 begins tracking; nothing has timed out.
    let cmds = engine.poll_tick(&cfg, Some(snapshot(100, false, 0)));
    assert!(cmds.is_empty());

    // 300 s later (the timeout, equality triggers): B starts, A is the
    // cursor monitor and is skipped.
    let cmds = engine.poll_tick(&cfg, Some(snapshot(100, false, 300_000)));
    let starts: Vec<&str> = cmds
        .iter()
        .filter_map(|c| match c {
            RendererCommand::Start { monitor, .. } => Some(monitor.as_str()),
            _ => None,
        })
        .collect();
    assert_eq!(starts, vec!["B", "C"]);
    assert_eq!(cmds.len(), 2);

    // Further ticks with the cursor still on A: no repeated Start.
    let cmds = engine.poll_tick(&cfg, Some(snapshot(100, false, 301_000)));
    assert!(cmds.is_empty());
    let cmds = engine.poll_tick(&cfg, Some(snapshot(100, false, 600_000)));
    assert!(cmds.is_empty());
}

/// Cursor movement on a covered monitor always wins: the screensaver stops
/// and the presence timestamp refreshes.
#[test]
fn cursor_movement_stops_screensaver() {
    let cfg = config_with(&[]);
    let mut engine = IdleEngine::new();
    engine.monitors = vec![
        MonitorIdleState { name: "A".to_string(), last_cursor_seen: 0, screensaver_active: true },
        MonitorIdleState { name: "B".to_string(), last_cursor_seen: 0, screensaver_active: true },
    ];
    engine.last_cursor_pos = Some(CursorPos { x: 90, y: 500 });
    engine.session_was_idle = false;

    let snap = TickSnapshot {
        cursor: CursorPos { x: 100, y: 500 },
        monitors: vec![monitor("A", 0), monitor("B", 1920)],
        session_idle: false,
        now: 1000,
    };
    let cmds = engine.poll_tick(&cfg, Some(snap));

    assert_eq!(cmds.len(), 1);
    match &cmds[0] {
        RendererCommand::Stop { monitor } => assert_eq!(monitor, "A"),
        other => panic!("Expected Stop for A, got {:?}", other),
    }
    assert!(!entry_of(&engine, "A").screensaver_active);
    assert_eq!(entry_of(&engine, "A").last_cursor_seen, 1000);
    assert!(entry_of(&engine, "B").screensaver_active);
}

/// A monitor that disappears while covered produces a MonitorRemoved
/// command and its entry is dropped; one that was idle disappears silently.
#[test]
fn disconnected_monitor_is_cleaned_up() {
    let cfg = config_with(&[]);
    let mut engine = IdleEngine::new();
    engine.monitors = vec![
        MonitorIdleState { name: "A".to_string(), last_cursor_seen: 0, screensaver_active: false },
        MonitorIdleState { name: "B".to_string(), last_cursor_seen: 0, screensaver_active: true },
        MonitorIdleState { name: "C".to_string(), last_cursor_seen: 0, screensaver_active: false },
    ];

    let snap = TickSnapshot {
        cursor: CursorPos { x: 100, y: 500 },
        monitors: vec![monitor("A", 0)],
        session_idle: false,
        now: 1000,
    };
    let cmds = engine.poll_tick(&cfg, Some(snap));

    assert_eq!(cmds.len(), 1);
    match &cmds[0] {
        RendererCommand::MonitorRemoved { monitor } => assert_eq!(monitor, "B"),
        other => panic!("Expected MonitorRemoved for B, got {:?}", other),
    }
    assert_eq!(engine.monitors.len(), 1);
    assert_eq!(engine.monitors[0].name, "A");
}

/// A skipped tick (transport failure) leaves all per-monitor state
/// byte-for-byte unchanged and emits nothing.
#[test]
fn skipped_tick_changes_nothing() {
    let cfg = config_with(&["C"]);
    let mut engine = IdleEngine::new();
    engine.monitors = vec![
        MonitorIdleState { name: "A".to_string(), last_cursor_seen: 17, screensaver_active: true },
        MonitorIdleState { name: "B".to_string(), last_cursor_seen: 23, screensaver_active: false },
    ];
    engine.last_cursor_pos = Some(CursorPos { x: 5, y: 7 });
    engine.session_was_idle = true;

    let cmds = engine.poll_tick(&cfg, None);

    assert!(cmds.is_empty());
    assert_eq!(engine.monitors.len(), 2);
    assert_eq!(engine.monitors[0].name, "A");
    assert_eq!(engine.monitors[0].last_cursor_seen, 17);
    assert!(engine.monitors[0].screensaver_active);
    assert_eq!(engine.monitors[1].name, "B");
    assert_eq!(engine.monitors[1].last_cursor_seen, 23);
    assert!(!engine.monitors[1].screensaver_active);
    assert_eq!(engine.last_cursor_pos, Some(CursorPos { x: 5, y: 7 }));
    assert!(engine.session_was_idle);
}

/// All monitors disappearing at once drops every entry; only the covered
/// ones produce removal commands.
#[test]
fn empty_enumeration_drops_all_entries() {
    let cfg = config_with(&[]);
    let mut engine = IdleEngine::new();
    engine.monitors = vec![
        MonitorIdleState { name: "A".to_string(), last_cursor_seen: 0, screensaver_active: true },
        MonitorIdleState { name: "B".to_string(), last_cursor_seen: 0, screensaver_active: false },
    ];

    let snap = TickSnapshot {
        cursor: CursorPos { x: 0, y: 0 },
        monitors: Vec::new(),
        session_idle: false,
        now: 100,
    };
    let cmds = engine.poll_tick(&cfg, Some(snap));

    assert_eq!(cmds.len(), 1);
    assert!(matches!(&cmds[0], RendererCommand::MonitorRemoved { monitor } if monitor == "A"));
    assert!(engine.monitors.is_empty());
}

/// Duplicate names in one enumeration collapse to a single tracked entry.
#[test]
fn duplicate_monitor_names_are_tracked_once() {
    let cfg = config_with(&[]);
    let mut engine = IdleEngine::new();

    let snap = TickSnapshot {
        cursor: CursorPos { x: 100, y: 500 },
        monitors: vec![monitor("A", 0), monitor("A", 0), monitor("B", 1920)],
        session_idle: false,
        now: 0,
    };
    let cmds = engine.poll_tick(&cfg, Some(snap));
    assert!(cmds.is_empty());

    let names: Vec<&str> = engine.monitors.iter().map(|e| e.name.as_str()).collect();
    assert_eq!(names, vec!["A", "B"]);
}

/// The largest possible timeout never fires and never overflows the
/// elapsed-time comparison.
#[test]
fn maximal_timeout_never_fires() {
    let mut cfg = config_with(&[]);
    cfg.general.idle_timeout = u64::MAX;

    let mut engine = IdleEngine::new();
    let cmds = engine.poll_tick(&cfg, Some(snapshot(100, false, 0)));
    assert!(cmds.is_empty());
    let cmds = engine.poll_tick(&cfg, Some(snapshot(100, false, u64::MAX)));
    assert!(cmds.is_empty());
}

/// A zero timeout fires immediately: equality triggers, not strict excess.
#[test]
fn zero_timeout_fires_at_once_on_non_cursor_monitors() {
    let mut cfg = config_with(&[]);
    cfg.general.idle_timeout = 0;

    let mut engine = IdleEngine::new();
    let cmds = engine.poll_tick(&cfg, Some(snapshot(100, false, 5)));
    let starts: Vec<&str> = cmds
        .iter()
        .filter_map(|c| match c {
            RendererCommand::Start { monitor, .. } => Some(monitor.as_str()),
            _ => None,
        })
        .collect();
    assert_eq!(starts, vec!["B", "C"]);
}

/// Per-monitor overrides take precedence for both timeout and screensaver
/// name at the moment a start is decided.
#[test]
fn per_monitor_override_timeout_and_screensaver() {
    let mut cfg = config_with(&[]);
    cfg.monitors.push(MonitorOverride {
        name: "B".to_string(),
        config: MonitorConfig {
            idle_timeout: Some(10),
            screensaver: Some("starfield".to_string()),
            disabled: false,
        },
    });

    let mut engine = IdleEngine::new();
    let cmds = engine.poll_tick(&cfg, Some(snapshot(100, false, 0)));
    assert!(cmds.is_empty());

    // Ten seconds: only B's override timeout has elapsed.
    let cmds = engine.poll_tick(&cfg, Some(snapshot(100, false, 10_000)));
    assert_eq!(cmds.len(), 1);
    match &cmds[0] {
        RendererCommand::Start { monitor, screensaver } => {
            assert_eq!(monitor, "B");
            assert_eq!(screensaver, "starfield");
        }
        other => panic!("Expected Start for B, got {:?}", other),
    }
}
