use hyprfresh::geometry::CursorPos;
use hyprfresh::protocol::ParseError;
use hyprfresh::protocol::event_socket_path;
use hyprfresh::protocol::monitor_from_fields;
use hyprfresh::protocol::parse_cursor_response;
use hyprfresh::protocol::parse_monitors_response;
use hyprfresh::protocol::query_request;
use hyprfresh::protocol::socket_path;

#[test]
fn socket_paths_are_derived_from_identifiers() {
    assert_eq!(
        socket_path("/run/user/1000", "abc123"),
        "/run/user/1000/hypr/abc123/.socket.sock"
    );
    assert_eq!(
        event_socket_path("/run/user/1000", "abc123"),
        "/run/user/1000/hypr/abc123/.socket2.sock"
    );
}

#[test]
fn query_requests_ask_for_json() {
    assert_eq!(query_request("cursorpos"), "j/cursorpos");
    assert_eq!(query_request("monitors"), "j/monitors");
}

#[test]
fn cursor_response_parses_coordinates() {
    let cursor = parse_cursor_response("{\"x\": 1234, \"y\": -56}").unwrap();
    assert_eq!(cursor, CursorPos { x: 1234, y: -56 });
}

#[test]
fn cursor_response_defaults_missing_fields() {
    let cursor = parse_cursor_response("{\"x\": 7}").unwrap();
    assert_eq!(cursor, CursorPos { x: 7, y: 0 });
    let cursor = parse_cursor_response("{}").unwrap();
    assert_eq!(cursor, CursorPos { x: 0, y: 0 });
}

#[test]
fn malformed_cursor_response_is_a_recoverable_error() {
    assert_eq!(parse_cursor_response("not json at all"), Err(ParseError::Json));
    assert_eq!(parse_cursor_response(""), Err(ParseError::Json));
}

#[test]
fn monitors_response_parses_and_swaps_rotated_dimensions() {
    let body = "[
        {\"id\": 0, \"name\": \"DP-2\", \"x\": 0, \"y\": 0, \"width\": 2560,
         \"height\": 1440, \"transform\": 0,
         \"activeWorkspace\": {\"id\": 4}, \"focused\": true},
        {\"id\": 1, \"name\": \"DP-3\", \"x\": -1440, \"y\": 0, \"width\": 2560,
         \"height\": 1440, \"transform\": 1,
         \"activeWorkspace\": {\"id\": 6}, \"focused\": false}
    ]";
    let monitors = parse_monitors_response(body).unwrap();
    assert_eq!(monitors.len(), 2);

    assert_eq!(monitors[0].name, "DP-2");
    assert_eq!(monitors[0].width, 2560);
    assert_eq!(monitors[0].height, 1440);
    assert_eq!(monitors[0].active_workspace_id, 4);
    assert!(monitors[0].focused);

    // Transform 1 is a 90-degree rotation: width and height swap.
    assert_eq!(monitors[1].name, "DP-3");
    assert_eq!(monitors[1].width, 1440);
    assert_eq!(monitors[1].height, 2560);
    assert_eq!(monitors[1].x, -1440);
    assert!(!monitors[1].focused);
}

#[test]
fn monitors_response_defaults_missing_fields() {
    let monitors = parse_monitors_response("[{}]").unwrap();
    assert_eq!(monitors.len(), 1);
    assert_eq!(monitors[0].id, -1);
    assert_eq!(monitors[0].name, "unknown");
    assert_eq!(monitors[0].x, 0);
    assert_eq!(monitors[0].width, 0);
    assert_eq!(monitors[0].active_workspace_id, 0);
    assert!(!monitors[0].focused);
}

#[test]
fn non_array_monitors_response_is_a_shape_error() {
    assert!(matches!(
        parse_monitors_response("{\"name\": \"DP-1\"}"),
        Err(ParseError::Shape)
    ));
    assert!(matches!(parse_monitors_response("garbage"), Err(ParseError::Json)));
}

#[test]
fn monitor_from_fields_swaps_only_odd_transforms() {
    let m = monitor_from_fields(3, "DP-1".to_string(), 10, 20, 2560, 1440, 3, 7, true);
    assert_eq!(m.width, 1440);
    assert_eq!(m.height, 2560);
    assert_eq!(m.transform, 3);

    let m = monitor_from_fields(3, "DP-1".to_string(), 10, 20, 2560, 1440, 2, 7, true);
    assert_eq!(m.width, 2560);
    assert_eq!(m.height, 1440);
}
