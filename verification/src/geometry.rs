//! Geometry resolution: which monitor owns a point.
//!
//! Monitors are rectangles in compositor-global coordinates, already in
//! post-rotation orientation.  A point belongs to a rectangle under the
//! half-open rule on both axes, and the first matching monitor in input
//! order wins.

use vstd::prelude::*;

verus! {

/// Information about a connected monitor.  `width` and `height` are in the
/// post-rotation orientation: for 90-or-270-degree transforms the raw values
/// have already been swapped by the time a `MonitorInfo` exists.
#[derive(Debug, Clone)]
pub struct MonitorInfo {
    pub id: i32,
    pub name: String,
    pub x: i32,
    pub y: i32,
    pub width: u32,
    pub height: u32,
    pub transform: u32,
    pub active_workspace_id: i32,
    pub focused: bool,
}

/// Cursor position in compositor-global coordinates.
#[derive(Debug, Clone, Copy, PartialEq, Eq, Structural)]
pub struct CursorPos {
    pub x: i32,
    pub y: i32,
}

/// Half-open containment on both axes: `x` in `[m.x, m.x + m.width)` and
/// `y` in `[m.y, m.y + m.height)`.
pub open spec fn rect_contains(m: MonitorInfo, x: int, y: int) -> bool {
    &&& m.x <= x < m.x as int + m.width as int
    &&& m.y <= y < m.y as int + m.height as int
}

/// The owner of `cursor` among `monitors[i..]`: the first monitor whose
/// rectangle contains the point, if any.
pub open spec fn owner_from(cursor: CursorPos, monitors: Seq<MonitorInfo>, i: int) -> Option<String>
    decreases monitors.len() - i,
{
    if i < 0 || i >= monitors.len() {
        None
    } else if rect_contains(monitors[i], cursor.x as int, cursor.y as int) {
        Some(monitors[i].name)
    } else {
        owner_from(cursor, monitors, i + 1)
    }
}

/// The monitor owning `cursor`: first match in input order, `None` when no
/// rectangle contains the point.
pub open spec fn spec_cursor_on_monitor(cursor: CursorPos, monitors: Seq<MonitorInfo>) -> Option<String> {
    owner_from(cursor, monitors, 0)
}

/// Determine which monitor the cursor is currently on: the first monitor in
/// `monitors` whose rectangle contains the point, under the half-open rule.
pub fn cursor_on_monitor(cursor: &CursorPos, monitors: &[MonitorInfo]) -> (r: Option<String>)
    ensures
        r == spec_cursor_on_monitor(*cursor, monitors@),
{
    let cx: i64 = cursor.x as i64;
    let cy: i64 = cursor.y as i64;
    let mut i: usize = 0;
    while i < monitors.len()
        invariant
            0 <= i <= monitors@.len(),
            cx == cursor.x as i64,
            cy == cursor.y as i64,
            owner_from(*cursor, monitors@, 0) == owner_from(*cursor, monitors@, i as int),
        decreases monitors@.len() - i,
    {
        let m = &monitors[i];
        if m.x as i64 <= cx && cx < m.x as i64 + m.width as i64 && m.y as i64 <= cy && cy < m.y as i64 + m.height as i64 {
            return Some(m.name.clone());
        }
        i = i + 1;
    }
    None
}

/// Two monitors are disjoint when no point lies in both rectangles.
pub open spec fn rects_disjoint(a: MonitorInfo, b: MonitorInfo) -> bool {
    forall|x: int, y: int| !(rect_contains(a, x, y) && rect_contains(b, x, y))
}

/// A monitor list is non-overlapping when its rectangles are pairwise disjoint.
pub open spec fn pairwise_disjoint(monitors: Seq<MonitorInfo>) -> bool {
    forall|i: int, j: int|
        0 <= i < monitors.len() && 0 <= j < monitors.len() && i != j ==> rects_disjoint(
            monitors[i],
            monitors[j],
        )
}

proof fn lemma_owner_from_hit(cursor: CursorPos, monitors: Seq<MonitorInfo>, i: int, k: int)
    requires
        0 <= i <= k < monitors.len(),
        rect_contains(monitors[k], cursor.x as int, cursor.y as int),
        pairwise_disjoint(monitors),
    ensures
        owner_from(cursor, monitors, i) == Some(monitors[k].name),
    decreases k - i,
{
    if i == k {
    } else {
        assert(rects_disjoint(monitors[i], monitors[k]));
        assert(!rect_contains(monitors[i], cursor.x as int, cursor.y as int));
        lemma_owner_from_hit(cursor, monitors, i + 1, k);
    }
}

/// Containment law: on a non-overlapping monitor list, the resolver returns
/// exactly the (unique) monitor containing the point.
pub proof fn lemma_resolver_unique(cursor: CursorPos, monitors: Seq<MonitorInfo>, k: int)
    requires
        pairwise_disjoint(monitors),
        0 <= k < monitors.len(),
        rect_contains(monitors[k], cursor.x as int, cursor.y as int),
    ensures
        spec_cursor_on_monitor(cursor, monitors) == Some(monitors[k].name),
{
    lemma_owner_from_hit(cursor, monitors, 0, k);
}

/// Boundary law: for a monitor with positive dimensions, the point exactly
/// at `(m.x, m.y)` is inside, while the points at `(m.x + m.width, m.y)`
/// and `(m.x, m.y + m.height)` are outside — half-open on both axes.
pub proof fn lemma_boundary(m: MonitorInfo)
    requires
        m.width > 0,
        m.height > 0,
    ensures
        rect_contains(m, m.x as int, m.y as int),
        !rect_contains(m, m.x as int + m.width as int, m.y as int),
        !rect_contains(m, m.x as int, m.y as int + m.height as int),
{
}

} // verus!
