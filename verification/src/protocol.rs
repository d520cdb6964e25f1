//! The compositor query protocol: socket paths, request framing, and
//! response parsing.
//!
//! The caller owns the sockets; this module computes what to write and
//! interprets what was read.  Socket paths are pure functions of the two
//! environment identifiers, so they are testable without touching the
//! process environment.  Responses are JSON; parsing goes through
//! serde_json behind trusted wrappers, and everything after the parse —
//! defaulting missing fields and the rotation swap — is verified.

use crate::geometry::CursorPos;
use crate::geometry::MonitorInfo;
use crate::geometry::rect_contains;
use vstd::prelude::*;
use vstd::string::StringExecFns;

verus! {

/// The query/dispatch socket path under the runtime directory:
/// `<runtime-dir>/hypr/<instance-signature>/.socket.sock`.
pub fn socket_path(runtime_dir: &str, instance_sig: &str) -> (r: String)
    ensures
        r@ == runtime_dir@ + "/hypr/"@ + instance_sig@ + "/.socket.sock"@,
{
    runtime_dir.to_owned().concat("/hypr/").concat(instance_sig).concat("/.socket.sock")
}

/// The event socket path, a sibling of the query socket:
/// `<runtime-dir>/hypr/<instance-signature>/.socket2.sock`.
pub fn event_socket_path(runtime_dir: &str, instance_sig: &str) -> (r: String)
    ensures
        r@ == runtime_dir@ + "/hypr/"@ + instance_sig@ + "/.socket2.sock"@,
{
    runtime_dir.to_owned().concat("/hypr/").concat(instance_sig).concat("/.socket2.sock")
}

/// A query request line: the command prefixed with `j/` to ask the
/// compositor for JSON output.
pub fn query_request(command: &str) -> (r: String)
    ensures
        r@ == "j/"@ + command@,
{
    "j/".to_owned().concat(command)
}

/// Why a response could not be interpreted.  Both cases are recoverable:
/// the caller logs and skips the tick.
#[derive(Debug, Clone, Copy, PartialEq, Eq, Structural)]
pub enum ParseError {
    /// The response was not valid JSON.
    Json,
    /// The response was valid JSON but not of the expected shape.
    Shape,
}

/// The raw fields of one monitor record as the JSON document carries them,
/// before any defaulting: absent or mistyped members are `None`.
#[derive(Debug, Clone)]
pub struct MonitorRecord {
    pub id: Option<i64>,
    pub name: Option<String>,
    pub x: Option<i64>,
    pub y: Option<i64>,
    pub width: Option<u64>,
    pub height: Option<u64>,
    pub transform: Option<u64>,
    pub active_workspace_id: Option<i64>,
    pub focused: Option<bool>,
}

/// What a cursor-position reply denotes: nothing when the text is not
/// valid JSON, else the integer values of its `x` and `y` members, each
/// absent when missing or not an integer.  The reply is a function of the
/// text alone; serde_json computes it below.
pub uninterp spec fn cursor_raw_of(s: Seq<char>) -> Option<(Option<i64>, Option<i64>)>;

/// What a monitor-enumeration reply denotes: `None` when the text is not
/// valid JSON, `Some(None)` when it is JSON but not an array, else one raw
/// record per array element, in order.  A function of the text alone;
/// serde_json computes it below.
pub uninterp spec fn monitor_records_of(s: Seq<char>) -> Option<Option<Seq<MonitorRecord>>>;

/// Relies on serde_json::from_str, Value::get and Value::as_i64: reads the
/// integer `x`/`y` members of a JSON document, yielding exactly the value
/// named `cursor_raw_of`.
#[verifier::external_body]
fn cursor_raw(s: &str) -> (r: Option<(Option<i64>, Option<i64>)>)
    ensures
        r == cursor_raw_of(s@),
{
    serde_json::from_str::<serde_json::Value>(s).ok().map(
        |v| (v.get("x").and_then(|f| f.as_i64()), v.get("y").and_then(|f| f.as_i64())),
    )
}

/// Relies on serde_json::from_str, Value::as_array, the Value index
/// operator (absent members and non-objects index to Null, never panic)
/// and the Value::as_* readers: turns a JSON array of objects into raw
/// records of plain fields, yielding exactly the value named
/// `monitor_records_of`.
#[verifier::external_body]
fn monitors_raw(s: &str) -> (r: Option<Option<Vec<MonitorRecord>>>)
    ensures
        match r {
            None => monitor_records_of(s@) is None,
            Some(None) => monitor_records_of(s@) == Some(None::<Seq<MonitorRecord>>),
            Some(Some(v)) => monitor_records_of(s@) == Some(Some(v@)),
        },
{
    let v: serde_json::Value = match serde_json::from_str(s) { Ok(v) => v, Err(_) => return None };
    let a = match v.as_array() { Some(a) => a, None => return Some(None) };
    Some(Some(a.iter().map(|m| MonitorRecord {
        id: m["id"].as_i64(),
        name: m["name"].as_str().map(str::to_owned),
        x: m["x"].as_i64(),
        y: m["y"].as_i64(),
        width: m["width"].as_u64(),
        height: m["height"].as_u64(),
        transform: m["transform"].as_u64(),
        active_workspace_id: m["activeWorkspace"]["id"].as_i64(),
        focused: m["focused"].as_bool(),
    }).collect()))
}

/// The field's value, or the default where the document had none.
pub open spec fn or_i64(f: Option<i64>, default: i64) -> i64 {
    match f {
        Some(v) => v,
        None => default,
    }
}

/// The field's value, or the default where the document had none.
pub open spec fn or_u64(f: Option<u64>, default: u64) -> u64 {
    match f {
        Some(v) => v,
        None => default,
    }
}

/// The field's value, or the default where the document had none.
pub open spec fn or_bool(f: Option<bool>, default: bool) -> bool {
    match f {
        Some(v) => v,
        None => default,
    }
}

fn i64_or(f: Option<i64>, default: i64) -> (r: i64)
    ensures
        r == or_i64(f, default),
{
    match f {
        Some(v) => v,
        None => default,
    }
}

fn u64_or(f: Option<u64>, default: u64) -> (r: u64)
    ensures
        r == or_u64(f, default),
{
    match f {
        Some(v) => v,
        None => default,
    }
}

fn bool_or(f: Option<bool>, default: bool) -> (r: bool)
    ensures
        r == or_bool(f, default),
{
    match f {
        Some(v) => v,
        None => default,
    }
}

/// The monitor a raw enumeration record denotes.  Odd transforms are the
/// 90-and-270-degree rotations, so raw width and height are swapped;
/// oversized raw values are truncated to the field widths.
pub open spec fn spec_monitor_from_fields(
    id: i64,
    name: String,
    x: i64,
    y: i64,
    width: u64,
    height: u64,
    transform: u64,
    workspace_id: i64,
    focused: bool,
) -> MonitorInfo {
    MonitorInfo {
        id: id as i32,
        name: name,
        x: x as i32,
        y: y as i32,
        width: if transform % 2 == 1 {
            height as u32
        } else {
            width as u32
        },
        height: if transform % 2 == 1 {
            width as u32
        } else {
            height as u32
        },
        transform: transform as u32,
        active_workspace_id: workspace_id as i32,
        focused: focused,
    }
}

/// Build a `MonitorInfo` from the plain fields of one enumeration record,
/// swapping width and height for rotated (odd) transforms so that every
/// consumer sees post-rotation geometry.
pub fn monitor_from_fields(
    id: i64,
    name: String,
    x: i64,
    y: i64,
    width: u64,
    height: u64,
    transform: u64,
    workspace_id: i64,
    focused: bool,
) -> (m: MonitorInfo)
    ensures
        m == spec_monitor_from_fields(
            id,
            name,
            x,
            y,
            width,
            height,
            transform,
            workspace_id,
            focused,
        ),
{
    let rotated = transform % 2 == 1;
    let w: u64 = if rotated {
        height
    } else {
        width
    };
    let h: u64 = if rotated {
        width
    } else {
        height
    };
    MonitorInfo {
        id: #[verifier::truncate] (id as i32),
        name: name,
        x: #[verifier::truncate] (x as i32),
        y: #[verifier::truncate] (y as i32),
        width: #[verifier::truncate] (w as u32),
        height: #[verifier::truncate] (h as u32),
        transform: #[verifier::truncate] (transform as u32),
        active_workspace_id: #[verifier::truncate] (workspace_id as i32),
        focused: focused,
    }
}

/// Rotation law: a monitor reported with an odd (rotated) transform tests
/// points exactly as an unrotated monitor with physically swapped raw
/// dimensions would.
pub proof fn lemma_rotation_swap(
    id: i64,
    name: String,
    x: i64,
    y: i64,
    width: u64,
    height: u64,
    rotated_transform: u64,
    plain_transform: u64,
    workspace_id: i64,
    focused: bool,
    px: int,
    py: int,
)
    requires
        rotated_transform % 2 == 1,
        plain_transform % 2 == 0,
    ensures
        rect_contains(
            spec_monitor_from_fields(
                id,
                name,
                x,
                y,
                width,
                height,
                rotated_transform,
                workspace_id,
                focused,
            ),
            px,
            py,
        ) == rect_contains(
            spec_monitor_from_fields(
                id,
                name,
                x,
                y,
                height,
                width,
                plain_transform,
                workspace_id,
                focused,
            ),
            px,
            py,
        ),
{
}

/// Interpret a cursor-position response: exactly when the reply is valid
/// JSON, the result is the `x`/`y` members read as integers, zero where a
/// member is missing or mistyped, truncated to the field width; any other
/// reply is the recoverable `Json` error.
pub fn parse_cursor_response(s: &str) -> (r: Result<CursorPos, ParseError>)
    ensures
        match cursor_raw_of(s@) {
            None => r == Err::<CursorPos, ParseError>(ParseError::Json),
            Some(fields) => (r matches Ok(c) && c.x == or_i64(fields.0, 0i64) as i32 && c.y == or_i64(
                fields.1,
                0i64,
            ) as i32),
        },
{
    match cursor_raw(s) {
        None => Err(ParseError::Json),
        Some((x, y)) => Ok(
            CursorPos {
                x: #[verifier::truncate] (i64_or(x, 0) as i32),
                y: #[verifier::truncate] (i64_or(y, 0) as i32),
            },
        ),
    }
}

/// The built monitor is the raw record after defaulting: id -1, name
/// "unknown", coordinates and dimensions 0, workspace 0, not focused where
/// the document had nothing, and width/height swapped for odd transforms.
pub open spec fn monitor_matches_record(m: MonitorInfo, rec: MonitorRecord) -> bool {
    let w = or_u64(rec.width, 0u64);
    let h = or_u64(rec.height, 0u64);
    let t = or_u64(rec.transform, 0u64);
    &&& m.id == or_i64(rec.id, -1i64) as i32
    &&& (match rec.name {
        Some(n) => m.name == n,
        None => m.name@ == "unknown"@,
    })
    &&& m.x == or_i64(rec.x, 0i64) as i32
    &&& m.y == or_i64(rec.y, 0i64) as i32
    &&& m.width == (if t % 2 == 1 {
        h
    } else {
        w
    }) as u32
    &&& m.height == (if t % 2 == 1 {
        w
    } else {
        h
    }) as u32
    &&& m.transform == t as u32
    &&& m.active_workspace_id == or_i64(rec.active_workspace_id, 0i64) as i32
    &&& m.focused == or_bool(rec.focused, false)
}

/// Interpret a monitor-enumeration response: exactly when the reply is a
/// JSON array, the result is one `MonitorInfo` per element, in order, each
/// the defaulted image of its raw record with the rotation swap applied
/// (`monitor_matches_record`).  A reply that is not JSON is the `Json`
/// error; valid JSON that is not an array is the `Shape` error.  Both are
/// recoverable: the caller logs and skips the tick.
pub fn parse_monitors_response(s: &str) -> (r: Result<Vec<MonitorInfo>, ParseError>)
    ensures
        match monitor_records_of(s@) {
            None => r == Err::<Vec<MonitorInfo>, ParseError>(ParseError::Json),
            Some(None) => r == Err::<Vec<MonitorInfo>, ParseError>(ParseError::Shape),
            Some(Some(records)) => (r matches Ok(ms) && ms@.len() == records.len() && (forall|
                i: int,
            |
                0 <= i < records.len() ==> monitor_matches_record(
                    #[trigger] ms@[i],
                    records[i],
                ))),
        },
{
    let records = match monitors_raw(s) {
        None => {
            return Err(ParseError::Json);
        },
        Some(None) => {
            return Err(ParseError::Shape);
        },
        Some(Some(records)) => records,
    };
    let mut monitors: Vec<MonitorInfo> = Vec::new();
    let mut i: usize = 0;
    while i < records.len()
        invariant
            0 <= i <= records@.len(),
            monitors@.len() == i,
            forall|j: int|
                0 <= j < i ==> monitor_matches_record(#[trigger] monitors@[j], records@[j]),
        decreases records@.len() - i,
    {
        let rec = &records[i];
        let name: String = match &rec.name {
            Some(n) => n.clone(),
            None => "unknown".to_owned(),
        };
        let m = monitor_from_fields(
            i64_or(rec.id, -1),
            name,
            i64_or(rec.x, 0),
            i64_or(rec.y, 0),
            u64_or(rec.width, 0),
            u64_or(rec.height, 0),
            u64_or(rec.transform, 0),
            i64_or(rec.active_workspace_id, 0),
            bool_or(rec.focused, false),
        );
        monitors.push(m);
        i = i + 1;
    }
    Ok(monitors)
}

} // verus!
