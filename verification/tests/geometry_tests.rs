use hyprfresh::geometry::CursorPos;
use hyprfresh::geometry::MonitorInfo;
use hyprfresh::geometry::cursor_on_monitor;

fn monitor(
    id: i32,
    name: &str,
    x: i32,
    y: i32,
    width: u32,
    height: u32,
    transform: u32,
    active_workspace_id: i32,
    focused: bool,
) -> MonitorInfo {
    MonitorInfo {
        id,
        name: name.to_string(),
        x,
        y,
        width,
        height,
        transform,
        active_workspace_id,
        focused,
    }
}

#[test]
fn cursor_on_monitor_hit() {
    let monitors = vec![
        monitor(0, "DP-1", 0, 0, 1920, 1080, 0, 1, true),
        monitor(1, "DP-2", 1920, 0, 2560, 1440, 0, 2, false),
    ];

    let cursor = CursorPos { x: 100, y: 500 };
    assert_eq!(cursor_on_monitor(&cursor, &monitors), Some("DP-1".to_string()));

    let cursor = CursorPos { x: 2000, y: 700 };
    assert_eq!(cursor_on_monitor(&cursor, &monitors), Some("DP-2".to_string()));
}

#[test]
fn cursor_on_monitor_miss() {
    let monitors = vec![monitor(0, "DP-1", 0, 0, 1920, 1080, 0, 1, true)];

    let cursor = CursorPos { x: 5000, y: 5000 };
    assert_eq!(cursor_on_monitor(&cursor, &monitors), None);
}

#[test]
fn cursor_on_monitor_boundary() {
    let monitors = vec![monitor(0, "DP-1", 0, 0, 1920, 1080, 0, 1, true)];

    // Exactly at origin -- should be on monitor
    let cursor = CursorPos { x: 0, y: 0 };
    assert_eq!(cursor_on_monitor(&cursor, &monitors), Some("DP-1".to_string()));

    // At max edge -- should NOT be on monitor (exclusive upper bound)
    let cursor = CursorPos { x: 1920, y: 0 };
    assert_eq!(cursor_on_monitor(&cursor, &monitors), None);
}

#[test]
fn cursor_on_rotated_monitor() {
    // DP-3 portrait (transform=1, 2560x1440 -> 1440x2560) at x=-1440;
    // DP-2 landscape (transform=0, 2560x1440) at x=0.
    // After the transform swap, DP-3 spans x=-1440..0 and DP-2 spans x=0..2560.
    let monitors = vec![
        monitor(1, "DP-3", -1440, 0, 1440, 2560, 1, 6, false),
        monitor(0, "DP-2", 0, 0, 2560, 1440, 0, 4, true),
    ];

    let cursor = CursorPos { x: 720, y: 670 };
    assert_eq!(cursor_on_monitor(&cursor, &monitors), Some("DP-2".to_string()));

    let cursor = CursorPos { x: -500, y: 670 };
    assert_eq!(cursor_on_monitor(&cursor, &monitors), Some("DP-3".to_string()));

    // At the boundary between monitors, x=0 is DP-2, not DP-3
    let cursor = CursorPos { x: 0, y: 500 };
    assert_eq!(cursor_on_monitor(&cursor, &monitors), Some("DP-2".to_string()));

    // At DP-3's right edge, x=-1 is still DP-3
    let cursor = CursorPos { x: -1, y: 500 };
    assert_eq!(cursor_on_monitor(&cursor, &monitors), Some("DP-3".to_string()));
}

#[test]
fn overlapping_monitors_first_listed_wins() {
    let monitors = vec![
        monitor(0, "first", 0, 0, 1000, 1000, 0, 1, true),
        monitor(1, "second", 0, 0, 1000, 1000, 0, 2, false),
    ];

    let cursor = CursorPos { x: 500, y: 500 };
    assert_eq!(cursor_on_monitor(&cursor, &monitors), Some("first".to_string()));
}

#[test]
fn cursor_on_monitor_boundary_vertical() {
    let monitors = vec![monitor(0, "DP-1", 0, 0, 1920, 1080, 0, 1, true)];

    // Last row inside; first row past the bottom edge is outside.
    let cursor = CursorPos { x: 0, y: 1079 };
    assert_eq!(cursor_on_monitor(&cursor, &monitors), Some("DP-1".to_string()));
    let cursor = CursorPos { x: 0, y: 1080 };
    assert_eq!(cursor_on_monitor(&cursor, &monitors), None);
}

#[test]
fn empty_monitor_list_resolves_to_none() {
    let monitors: Vec<MonitorInfo> = Vec::new();
    let cursor = CursorPos { x: 0, y: 0 };
    assert_eq!(cursor_on_monitor(&cursor, &monitors), None);
}
