//! The idle reconciliation engine.
//!
//! Once per poll tick the engine receives a snapshot — cursor position,
//! monitor list, session-idle flag, current time — and merges it with its
//! per-monitor state, emitting one command per state transition.  The six
//! steps of a tick run in order, and later steps observe the updates of
//! earlier ones:
//!
//! 1. resolve the cursor's monitor;
//! 2. reconcile the tracked monitor set with the connected set, emitting
//!    `MonitorRemoved` for active monitors that disappeared;
//! 3. refresh cursor presence on the cursor's monitor, stopping its
//!    screensaver if the cursor moved — movement wins over idle state;
//! 4. on the session-idle rising edge, start every enabled, inactive
//!    monitor;
//! 5. on the falling edge, stop only the cursor's monitor, or everything
//!    when no monitor owns the cursor;
//! 6. outside session idle, start monitors whose cursor-free time meets
//!    their effective timeout.
//!
//! The whole tick is a pure function of the old state and the snapshot;
//! a tick that is skipped (transport failure) changes nothing at all.

use crate::commands::RendererCommand;
use crate::config::Config;
use crate::geometry::CursorPos;
use crate::geometry::MonitorInfo;
use crate::geometry::cursor_on_monitor;
use crate::geometry::spec_cursor_on_monitor;
use vstd::prelude::*;

verus! {

/// Per-monitor idle state, owned exclusively by the engine.
#[derive(Debug, Clone)]
pub struct MonitorIdleState {
    /// The monitor's stable name.
    pub name: String,
    /// Last time the cursor was seen on this monitor, in milliseconds on
    /// the caller's monotonic clock.
    pub last_cursor_seen: u64,
    /// Whether the screensaver is currently showing on this monitor.
    pub screensaver_active: bool,
}

/// Everything one successful poll learned: the inputs of one tick.
#[derive(Debug)]
pub struct TickSnapshot {
    /// Cursor position in compositor-global coordinates.
    pub cursor: CursorPos,
    /// The connected monitors, freshly enumerated.
    pub monitors: Vec<MonitorInfo>,
    /// The session-wide idle flag, read once for this tick.
    pub session_idle: bool,
    /// The current time in milliseconds on a monotonic clock.
    pub now: u64,
}

/// Whether some entry of `entries` is for the monitor named `name`.
pub open spec fn has_entry(entries: Seq<MonitorIdleState>, name: Seq<char>) -> bool {
    exists|i: int| 0 <= i < entries.len() && entries[i].name@ == name
}

/// Whether some monitor in `mons` is named `name`.
pub open spec fn mons_have_name(mons: Seq<MonitorInfo>, name: Seq<char>) -> bool {
    exists|i: int| 0 <= i < mons.len() && mons[i].name@ == name
}

/// Entries after adding a fresh, inactive entry for every monitor among the
/// first `i` of `mons` that is not yet tracked.
pub open spec fn added_prefix(
    entries: Seq<MonitorIdleState>,
    mons: Seq<MonitorInfo>,
    now: u64,
    i: int,
) -> Seq<MonitorIdleState>
    decreases i,
{
    if i <= 0 {
        entries
    } else {
        let e = added_prefix(entries, mons, now, i - 1);
        if has_entry(e, mons[i - 1].name@) {
            e
        } else {
            e.push(
                MonitorIdleState {
                    name: mons[i - 1].name,
                    last_cursor_seen: now,
                    screensaver_active: false,
                },
            )
        }
    }
}

/// Entries and commands after dropping, among the first `i` entries, those
/// whose monitor is no longer connected; a dropped entry with an active
/// screensaver yields a `MonitorRemoved` command.
pub open spec fn retained_prefix(
    entries: Seq<MonitorIdleState>,
    mons: Seq<MonitorInfo>,
    i: int,
) -> (Seq<MonitorIdleState>, Seq<RendererCommand>)
    decreases i,
{
    if i <= 0 {
        (Seq::empty(), Seq::empty())
    } else {
        let r = retained_prefix(entries, mons, i - 1);
        let e = entries[i - 1];
        if mons_have_name(mons, e.name@) {
            (r.0.push(e), r.1)
        } else if e.screensaver_active {
            (r.0, r.1.push(RendererCommand::MonitorRemoved { monitor: e.name }))
        } else {
            r
        }
    }
}

fn entries_have_name(entries: &Vec<MonitorIdleState>, name: &String) -> (r: bool)
    ensures
        r == has_entry(entries@, name@),
{
    let mut i: usize = 0;
    while i < entries.len()
        invariant
            0 <= i <= entries@.len(),
            forall|j: int| 0 <= j < i ==> entries@[j].name@ != name@,
        decreases entries@.len() - i,
    {
        if entries[i].name == *name {
            return true;
        }
        i = i + 1;
    }
    false
}

fn monitors_have_name(mons: &Vec<MonitorInfo>, name: &String) -> (r: bool)
    ensures
        r == mons_have_name(mons@, name@),
{
    let mut i: usize = 0;
    while i < mons.len()
        invariant
            0 <= i <= mons@.len(),
            forall|j: int| 0 <= j < i ==> mons@[j].name@ != name@,
        decreases mons@.len() - i,
    {
        if mons[i].name == *name {
            return true;
        }
        i = i + 1;
    }
    false
}

/// Step 2a: create an inactive entry for every newly seen monitor.
fn step_add_new(entries: &mut Vec<MonitorIdleState>, mons: &Vec<MonitorInfo>, now: u64)
    ensures
        final(entries)@ == added_prefix(old(entries)@, mons@, now, mons@.len() as int),
{
    let mut i: usize = 0;
    while i < mons.len()
        invariant
            0 <= i <= mons@.len(),
            entries@ == added_prefix(old(entries)@, mons@, now, i as int),
        decreases mons@.len() - i,
    {
        if !entries_have_name(entries, &mons[i].name) {
            entries.push(
                MonitorIdleState {
                    name: mons[i].name.clone(),
                    last_cursor_seen: now,
                    screensaver_active: false,
                },
            );
        }
        i = i + 1;
    }
}

/// Step 2b: drop entries of disconnected monitors, emitting `MonitorRemoved`
/// for each one that still had an active screensaver.
fn step_retain_connected(
    entries: &mut Vec<MonitorIdleState>,
    mons: &Vec<MonitorInfo>,
    cmds: &mut Vec<RendererCommand>,
)
    ensures
        final(entries)@ == retained_prefix(old(entries)@, mons@, old(entries)@.len() as int).0,
        final(cmds)@ == old(cmds)@ + retained_prefix(
            old(entries)@,
            mons@,
            old(entries)@.len() as int,
        ).1,
{
    let mut out: Vec<MonitorIdleState> = Vec::new();
    let mut i: usize = 0;
    while i < entries.len()
        invariant
            0 <= i <= entries@.len(),
            out@ == retained_prefix(entries@, mons@, i as int).0,
            cmds@ == old(cmds)@ + retained_prefix(entries@, mons@, i as int).1,
        decreases entries@.len() - i,
    {
        if monitors_have_name(mons, &entries[i].name) {
            let e = MonitorIdleState {
                name: entries[i].name.clone(),
                last_cursor_seen: entries[i].last_cursor_seen,
                screensaver_active: entries[i].screensaver_active,
            };
            out.push(e);
        } else if entries[i].screensaver_active {
            cmds.push(RendererCommand::MonitorRemoved { monitor: entries[i].name.clone() });
        }
        i = i + 1;
    }
    *entries = out;
}

/// Whether the cursor's monitor is the one named `name`.
pub open spec fn cur_is(current: Option<String>, name: Seq<char>) -> bool {
    match current {
        Some(c) => c@ == name,
        None => false,
    }
}

/// Milliseconds elapsed between `last` and `now` on a monotonic clock; a
/// clock that appears to run backwards counts as no elapsed time.
pub open spec fn elapsed_ms(now: u64, last: u64) -> int {
    if now >= last {
        now - last
    } else {
        0
    }
}

/// Step 3 entries, first `i` of them: the entry of the cursor's monitor has
/// its presence refreshed, and its screensaver cleared when the cursor
/// moved; every other entry is untouched.
pub open spec fn cursor_refresh_prefix(
    entries: Seq<MonitorIdleState>,
    name: Seq<char>,
    moved: bool,
    now: u64,
    i: int,
) -> Seq<MonitorIdleState>
    decreases i,
{
    if i <= 0 {
        Seq::empty()
    } else {
        let r = cursor_refresh_prefix(entries, name, moved, now, i - 1);
        let e = entries[i - 1];
        if e.name@ == name {
            r.push(
                MonitorIdleState {
                    name: e.name,
                    last_cursor_seen: now,
                    screensaver_active: e.screensaver_active && !moved,
                },
            )
        } else {
            r.push(e)
        }
    }
}

/// Step 3 commands, over the first `i` entries: one `Stop` for the cursor's
/// monitor when the cursor moved while its screensaver was active —
/// movement always wins over idle state.
pub open spec fn cursor_stop_prefix(
    entries: Seq<MonitorIdleState>,
    name: Seq<char>,
    moved: bool,
    i: int,
) -> Seq<RendererCommand>
    decreases i,
{
    if i <= 0 {
        Seq::empty()
    } else {
        let c = cursor_stop_prefix(entries, name, moved, i - 1);
        let e = entries[i - 1];
        if e.name@ == name && moved && e.screensaver_active {
            c.push(RendererCommand::Stop { monitor: e.name })
        } else {
            c
        }
    }
}

/// Step 3: cursor presence.  No cursor monitor means no change.
pub open spec fn cursor_step(
    entries: Seq<MonitorIdleState>,
    current: Option<String>,
    moved: bool,
    now: u64,
) -> (Seq<MonitorIdleState>, Seq<RendererCommand>) {
    match current {
        None => (entries, Seq::empty()),
        Some(n) => (
            cursor_refresh_prefix(entries, n@, moved, now, entries.len() as int),
            cursor_stop_prefix(entries, n@, moved, entries.len() as int),
        ),
    }
}

fn step_cursor(
    entries: &mut Vec<MonitorIdleState>,
    current: &Option<String>,
    moved: bool,
    now: u64,
    cmds: &mut Vec<RendererCommand>,
)
    ensures
        final(entries)@ == cursor_step(old(entries)@, *current, moved, now).0,
        final(cmds)@ == old(cmds)@ + cursor_step(old(entries)@, *current, moved, now).1,
{
    match current {
        None => {
            proof {
                assert(cmds@ =~= cmds@ + Seq::<RendererCommand>::empty());
            }
        },
        Some(name) => {
            let mut out: Vec<MonitorIdleState> = Vec::new();
            let mut i: usize = 0;
            while i < entries.len()
                invariant
                    0 <= i <= entries@.len(),
                    out@ == cursor_refresh_prefix(entries@, name@, moved, now, i as int),
                    cmds@ == old(cmds)@ + cursor_stop_prefix(entries@, name@, moved, i as int),
                decreases entries@.len() - i,
            {
                if entries[i].name == *name {
                    if moved && entries[i].screensaver_active {
                        cmds.push(RendererCommand::Stop { monitor: entries[i].name.clone() });
                    }
                    out.push(
                        MonitorIdleState {
                            name: entries[i].name.clone(),
                            last_cursor_seen: now,
                            screensaver_active: entries[i].screensaver_active && !moved,
                        },
                    );
                } else {
                    out.push(
                        MonitorIdleState {
                            name: entries[i].name.clone(),
                            last_cursor_seen: entries[i].last_cursor_seen,
                            screensaver_active: entries[i].screensaver_active,
                        },
                    );
                }
                i = i + 1;
            }
            *entries = out;
        },
    }
}

/// Step 4, first `i` entries (session-idle rising edge): start every monitor
/// that is not disabled and not already active; the screensaver name is the
/// per-monitor override when configured, else the global default.
pub open spec fn rising_prefix(entries: Seq<MonitorIdleState>, cfg: Config, i: int) -> (
    Seq<MonitorIdleState>,
    Seq<RendererCommand>,
)
    decreases i,
{
    if i <= 0 {
        (Seq::empty(), Seq::empty())
    } else {
        let r = rising_prefix(entries, cfg, i - 1);
        let e = entries[i - 1];
        if !e.screensaver_active && !cfg.spec_disabled(e.name@) {
            (
                r.0.push(
                    MonitorIdleState {
                        name: e.name,
                        last_cursor_seen: e.last_cursor_seen,
                        screensaver_active: true,
                    },
                ),
                r.1.push(
                    RendererCommand::Start {
                        monitor: e.name,
                        screensaver: cfg.spec_screensaver(e.name@),
                    },
                ),
            )
        } else {
            (r.0.push(e), r.1)
        }
    }
}

fn step_rising(
    entries: &mut Vec<MonitorIdleState>,
    cfg: &Config,
    cmds: &mut Vec<RendererCommand>,
)
    ensures
        final(entries)@ == rising_prefix(old(entries)@, *cfg, old(entries)@.len() as int).0,
        final(cmds)@ == old(cmds)@ + rising_prefix(
            old(entries)@,
            *cfg,
            old(entries)@.len() as int,
        ).1,
{
    let mut out: Vec<MonitorIdleState> = Vec::new();
    let mut i: usize = 0;
    while i < entries.len()
        invariant
            0 <= i <= entries@.len(),
            out@ == rising_prefix(entries@, *cfg, i as int).0,
            cmds@ == old(cmds)@ + rising_prefix(entries@, *cfg, i as int).1,
        decreases entries@.len() - i,
    {
        if !entries[i].screensaver_active && !cfg.disabled_for(&entries[i].name) {
            cmds.push(
                RendererCommand::Start {
                    monitor: entries[i].name.clone(),
                    screensaver: cfg.screensaver_for(&entries[i].name),
                },
            );
            out.push(
                MonitorIdleState {
                    name: entries[i].name.clone(),
                    last_cursor_seen: entries[i].last_cursor_seen,
                    screensaver_active: true,
                },
            );
        } else {
            out.push(
                MonitorIdleState {
                    name: entries[i].name.clone(),
                    last_cursor_seen: entries[i].last_cursor_seen,
                    screensaver_active: entries[i].screensaver_active,
                },
            );
        }
        i = i + 1;
    }
    *entries = out;
}

/// Step 5 entries when the cursor resolved to `name` (first `i` of them):
/// only that monitor is woken and refreshed.
pub open spec fn falling_some_prefix(
    entries: Seq<MonitorIdleState>,
    name: Seq<char>,
    now: u64,
    i: int,
) -> Seq<MonitorIdleState>
    decreases i,
{
    if i <= 0 {
        Seq::empty()
    } else {
        let r = falling_some_prefix(entries, name, now, i - 1);
        let e = entries[i - 1];
        if e.name@ == name {
            r.push(
                MonitorIdleState { name: e.name, last_cursor_seen: now, screensaver_active: false },
            )
        } else {
            r.push(e)
        }
    }
}

/// Step 5 entries when no monitor owns the cursor (first `i` of them):
/// every monitor is marked inactive and refreshed.
pub open spec fn falling_all_prefix(entries: Seq<MonitorIdleState>, now: u64, i: int) -> Seq<
    MonitorIdleState,
>
    decreases i,
{
    if i <= 0 {
        Seq::empty()
    } else {
        let r = falling_all_prefix(entries, now, i - 1);
        let e = entries[i - 1];
        r.push(MonitorIdleState { name: e.name, last_cursor_seen: now, screensaver_active: false })
    }
}

/// Step 5 (session-idle falling edge): waking is scoped to where the user
/// demonstrably is.  With a cursor monitor, stop exactly that one; without
/// one, stop everything.
pub open spec fn falling_step(
    entries: Seq<MonitorIdleState>,
    current: Option<String>,
    now: u64,
) -> (Seq<MonitorIdleState>, Seq<RendererCommand>) {
    match current {
        Some(n) => (
            falling_some_prefix(entries, n@, now, entries.len() as int),
            seq![RendererCommand::Stop { monitor: n }],
        ),
        None => (
            falling_all_prefix(entries, now, entries.len() as int),
            seq![RendererCommand::StopAll],
        ),
    }
}

fn step_falling(
    entries: &mut Vec<MonitorIdleState>,
    current: &Option<String>,
    now: u64,
    cmds: &mut Vec<RendererCommand>,
)
    ensures
        final(entries)@ == falling_step(old(entries)@, *current, now).0,
        final(cmds)@ == old(cmds)@ + falling_step(old(entries)@, *current, now).1,
{
    let mut out: Vec<MonitorIdleState> = Vec::new();
    match current {
        Some(name) => {
            let mut i: usize = 0;
            while i < entries.len()
                invariant
                    0 <= i <= entries@.len(),
                    out@ == falling_some_prefix(entries@, name@, now, i as int),
                decreases entries@.len() - i,
            {
                if entries[i].name == *name {
                    out.push(
                        MonitorIdleState {
                            name: entries[i].name.clone(),
                            last_cursor_seen: now,
                            screensaver_active: false,
                        },
                    );
                } else {
                    out.push(
                        MonitorIdleState {
                            name: entries[i].name.clone(),
                            last_cursor_seen: entries[i].last_cursor_seen,
                            screensaver_active: entries[i].screensaver_active,
                        },
                    );
                }
                i = i + 1;
            }
            cmds.push(RendererCommand::Stop { monitor: name.clone() });
        },
        None => {
            let mut i: usize = 0;
            while i < entries.len()
                invariant
                    0 <= i <= entries@.len(),
                    out@ == falling_all_prefix(entries@, now, i as int),
                decreases entries@.len() - i,
            {
                out.push(
                    MonitorIdleState {
                        name: entries[i].name.clone(),
                        last_cursor_seen: now,
                        screensaver_active: false,
                    },
                );
                i = i + 1;
            }
            cmds.push(RendererCommand::StopAll);
        },
    }
    *entries = out;
}

/// Whether step 6 starts this monitor: not already active, not disabled,
/// not the cursor's monitor, and cursor-free for at least its effective
/// timeout — equality triggers, not strict excess.
pub open spec fn timeout_fires(
    e: MonitorIdleState,
    cfg: Config,
    current: Option<String>,
    now: u64,
) -> bool {
    &&& !e.screensaver_active
    &&& !cfg.spec_disabled(e.name@)
    &&& !cur_is(current, e.name@)
    &&& elapsed_ms(now, e.last_cursor_seen) >= cfg.spec_timeout(e.name@) as int * 1000
}

/// Step 6, first `i` entries (per-monitor timeout pass, session not idle):
/// start each monitor whose cursor-free time meets its effective timeout.
pub open spec fn timeout_prefix(
    entries: Seq<MonitorIdleState>,
    cfg: Config,
    current: Option<String>,
    now: u64,
    i: int,
) -> (Seq<MonitorIdleState>, Seq<RendererCommand>)
    decreases i,
{
    if i <= 0 {
        (Seq::empty(), Seq::empty())
    } else {
        let r = timeout_prefix(entries, cfg, current, now, i - 1);
        let e = entries[i - 1];
        if timeout_fires(e, cfg, current, now) {
            (
                r.0.push(
                    MonitorIdleState {
                        name: e.name,
                        last_cursor_seen: e.last_cursor_seen,
                        screensaver_active: true,
                    },
                ),
                r.1.push(
                    RendererCommand::Start {
                        monitor: e.name,
                        screensaver: cfg.spec_screensaver(e.name@),
                    },
                ),
            )
        } else {
            (r.0.push(e), r.1)
        }
    }
}

fn step_timeout(
    entries: &mut Vec<MonitorIdleState>,
    cfg: &Config,
    current: &Option<String>,
    now: u64,
    cmds: &mut Vec<RendererCommand>,
)
    ensures
        final(entries)@ == timeout_prefix(
            old(entries)@,
            *cfg,
            *current,
            now,
            old(entries)@.len() as int,
        ).0,
        final(cmds)@ == old(cmds)@ + timeout_prefix(
            old(entries)@,
            *cfg,
            *current,
            now,
            old(entries)@.len() as int,
        ).1,
{
    let mut out: Vec<MonitorIdleState> = Vec::new();
    let mut i: usize = 0;
    while i < entries.len()
        invariant
            0 <= i <= entries@.len(),
            out@ == timeout_prefix(entries@, *cfg, *current, now, i as int).0,
            cmds@ == old(cmds)@ + timeout_prefix(entries@, *cfg, *current, now, i as int).1,
        decreases entries@.len() - i,
    {
        let is_current = match current {
            Some(c) => entries[i].name == *c,
            None => false,
        };
        let active = entries[i].screensaver_active;
        let disabled = cfg.disabled_for(&entries[i].name);
        let fires = if active || disabled || is_current {
            false
        } else {
            let diff: u64 = if now >= entries[i].last_cursor_seen {
                now - entries[i].last_cursor_seen
            } else {
                0
            };
            let timeout_secs = cfg.timeout_for(&entries[i].name);
            diff as u128 >= timeout_secs as u128 * 1000
        };
        if fires {
            cmds.push(
                RendererCommand::Start {
                    monitor: entries[i].name.clone(),
                    screensaver: cfg.screensaver_for(&entries[i].name),
                },
            );
            out.push(
                MonitorIdleState {
                    name: entries[i].name.clone(),
                    last_cursor_seen: entries[i].last_cursor_seen,
                    screensaver_active: true,
                },
            );
        } else {
            out.push(
                MonitorIdleState {
                    name: entries[i].name.clone(),
                    last_cursor_seen: entries[i].last_cursor_seen,
                    screensaver_active: entries[i].screensaver_active,
                },
            );
        }
        i = i + 1;
    }
    *entries = out;
}

/// The idle reconciliation engine: all per-monitor idle state, the previous
/// raw cursor position, and the session-idle flag as of the last tick.
#[derive(Debug)]
pub struct IdleEngine {
    /// One entry per tracked monitor; after each tick the tracked set
    /// equals the connected set of that tick's snapshot.
    pub monitors: Vec<MonitorIdleState>,
    /// The raw cursor coordinates of the previous tick, used to detect
    /// movement; `None` before the first tick.
    pub last_cursor_pos: Option<CursorPos>,
    /// The session-idle flag as snapshotted by the previous tick.
    pub session_was_idle: bool,
}

/// Whether the cursor moved since the previous tick, compared on raw
/// coordinates.  Before the first tick nothing counts as movement.
pub open spec fn spec_moved(last: Option<CursorPos>, cursor: CursorPos) -> bool {
    match last {
        Some(l) => cursor != l,
        None => false,
    }
}

/// One whole tick as a pure function: the new entry list and the emitted
/// commands, in order — removals, the movement stop, rising-edge starts,
/// the falling-edge stop, timeout starts.
pub open spec fn spec_tick(eng: IdleEngine, cfg: Config, snap: TickSnapshot) -> (
    Seq<MonitorIdleState>,
    Seq<RendererCommand>,
) {
    let moved = spec_moved(eng.last_cursor_pos, snap.cursor);
    let current = spec_cursor_on_monitor(snap.cursor, snap.monitors@);
    let e1 = added_prefix(eng.monitors@, snap.monitors@, snap.now, snap.monitors@.len() as int);
    let r2 = retained_prefix(e1, snap.monitors@, e1.len() as int);
    let r3 = cursor_step(r2.0, current, moved, snap.now);
    let rising = snap.session_idle && !eng.session_was_idle;
    let falling = !snap.session_idle && eng.session_was_idle;
    let r4 = if rising {
        rising_prefix(r3.0, cfg, r3.0.len() as int)
    } else {
        (r3.0, Seq::<RendererCommand>::empty())
    };
    let r5 = if falling {
        falling_step(r4.0, current, snap.now)
    } else {
        (r4.0, Seq::<RendererCommand>::empty())
    };
    let r6 = if !snap.session_idle {
        timeout_prefix(r5.0, cfg, current, snap.now, r5.0.len() as int)
    } else {
        (r5.0, Seq::<RendererCommand>::empty())
    };
    (r6.0, r2.1 + r3.1 + r4.1 + r5.1 + r6.1)
}

impl IdleEngine {
    /// An engine that tracks nothing yet.
    pub fn new() -> (r: Self)
        ensures
            r.monitors@.len() == 0,
            r.last_cursor_pos is None,
            !r.session_was_idle,
    {
        IdleEngine { monitors: Vec::new(), last_cursor_pos: None, session_was_idle: false }
    }

    /// Run one tick over a successful snapshot.  The new state and the
    /// command stream are exactly `spec_tick` of the old state and the
    /// snapshot.
    pub fn tick(&mut self, cfg: &Config, snap: &TickSnapshot) -> (cmds: Vec<RendererCommand>)
        ensures
            final(self).monitors@ == spec_tick(*old(self), *cfg, *snap).0,
            cmds@ == spec_tick(*old(self), *cfg, *snap).1,
            final(self).last_cursor_pos == Some(snap.cursor),
            final(self).session_was_idle == snap.session_idle,
    {
        let moved = match &self.last_cursor_pos {
            Some(l) => snap.cursor.x != l.x || snap.cursor.y != l.y,
            None => false,
        };
        let current = cursor_on_monitor(&snap.cursor, snap.monitors.as_slice());
        let mut cmds: Vec<RendererCommand> = Vec::new();
        step_add_new(&mut self.monitors, &snap.monitors, snap.now);
        step_retain_connected(&mut self.monitors, &snap.monitors, &mut cmds);
        step_cursor(&mut self.monitors, &current, moved, snap.now, &mut cmds);
        let rising = snap.session_idle && !self.session_was_idle;
        let falling = !snap.session_idle && self.session_was_idle;
        if rising {
            step_rising(&mut self.monitors, cfg, &mut cmds);
        }
        if falling {
            step_falling(&mut self.monitors, &current, snap.now, &mut cmds);
        }
        if !snap.session_idle {
            step_timeout(&mut self.monitors, cfg, &current, snap.now, &mut cmds);
        }
        self.session_was_idle = snap.session_idle;
        self.last_cursor_pos = Some(snap.cursor);
        proof {
            assert(cmds@ =~= spec_tick(*old(self), *cfg, *snap).1);
        }
        cmds
    }

    /// Run one poll iteration.  A tick whose snapshot could not be read
    /// (any transport or parse failure) is skipped whole: the engine state
    /// is left exactly as it was and no command is emitted, so a skipped
    /// tick is always safe.
    pub fn poll_tick(&mut self, cfg: &Config, snapshot: Option<TickSnapshot>) -> (cmds: Vec<
        RendererCommand,
    >)
        ensures
            match snapshot {
                None => {
                    &&& final(self).monitors@ == old(self).monitors@
                    &&& final(self).last_cursor_pos == old(self).last_cursor_pos
                    &&& final(self).session_was_idle == old(self).session_was_idle
                    &&& cmds@.len() == 0
                },
                Some(snap) => {
                    &&& final(self).monitors@ == spec_tick(*old(self), *cfg, snap).0
                    &&& cmds@ == spec_tick(*old(self), *cfg, snap).1
                    &&& final(self).last_cursor_pos == Some(snap.cursor)
                    &&& final(self).session_was_idle == snap.session_idle
                },
            },
    {
        match snapshot {
            None => Vec::new(),
            Some(snap) => self.tick(cfg, &snap),
        }
    }
}

/// Entry names are pairwise distinct.  The engine establishes this from an
/// empty state and every tick preserves it (`lemma_tick_preserves_wf`).
pub open spec fn wf_entries(entries: Seq<MonitorIdleState>) -> bool {
    forall|i: int, j: int|
        0 <= i < j < entries.len() ==> entries[i].name@ != entries[j].name@
}

/// Every entry for the monitor named `name` has an active screensaver.
pub open spec fn all_active(entries: Seq<MonitorIdleState>, name: Seq<char>) -> bool {
    forall|i: int|
        0 <= i < entries.len() && entries[i].name@ == name ==> entries[i].screensaver_active
}

/// The command starts a screensaver on the monitor named `name`.
pub open spec fn is_start_for(c: RendererCommand, name: Seq<char>) -> bool {
    c matches RendererCommand::Start { monitor, screensaver } && monitor@ == name
}

/// The command stops the screensaver on the monitor named `name`.
pub open spec fn is_stop_for(c: RendererCommand, name: Seq<char>) -> bool {
    c matches RendererCommand::Stop { monitor } && monitor@ == name
}

proof fn lemma_added_names(
    e: Seq<MonitorIdleState>,
    mons: Seq<MonitorInfo>,
    now: u64,
    i: int,
    n: Seq<char>,
)
    requires
        0 <= i <= mons.len(),
    ensures
        has_entry(added_prefix(e, mons, now, i), n) <==> (has_entry(e, n) || (exists|j: int|
            0 <= j < i && mons[j].name@ == n)),
    decreases i,
{
    if i > 0 {
        lemma_added_names(e, mons, now, i - 1, n);
        let acc = added_prefix(e, mons, now, i - 1);
        let res = added_prefix(e, mons, now, i);
        if has_entry(acc, mons[i - 1].name@) {
            if mons[i - 1].name@ == n {
                assert(has_entry(res, n));
                assert(0 <= i - 1 < i && mons[i - 1].name@ == n);
            }
        } else {
            let fresh = MonitorIdleState {
                name: mons[i - 1].name,
                last_cursor_seen: now,
                screensaver_active: false,
            };
            assert(res == acc.push(fresh));
            assert(res[res.len() - 1] == fresh);
            if has_entry(res, n) {
                let k = choose|k: int| 0 <= k < res.len() && res[k].name@ == n;
                if k < acc.len() {
                    assert(acc[k].name@ == n);
                }
            }
            if has_entry(acc, n) {
                let k = choose|k: int| 0 <= k < acc.len() && acc[k].name@ == n;
                assert(res[k].name@ == n);
            }
            if mons[i - 1].name@ == n {
                assert(res[res.len() - 1].name@ == n);
            }
        }
    }
}

proof fn lemma_added_wf(e: Seq<MonitorIdleState>, mons: Seq<MonitorInfo>, now: u64, i: int)
    requires
        0 <= i <= mons.len(),
        wf_entries(e),
    ensures
        wf_entries(added_prefix(e, mons, now, i)),
    decreases i,
{
    if i > 0 {
        lemma_added_wf(e, mons, now, i - 1);
        let acc = added_prefix(e, mons, now, i - 1);
        let res = added_prefix(e, mons, now, i);
        if !has_entry(acc, mons[i - 1].name@) {
            assert forall|a: int, b: int| 0 <= a < b < res.len() implies res[a].name@
                != res[b].name@ by {
                if b < acc.len() {
                } else {
                    assert(res[b].name@ == mons[i - 1].name@);
                    assert(!(exists|k: int| 0 <= k < acc.len() && acc[k].name@ == mons[i
                        - 1].name@));
                    assert(res[a] == acc[a]);
                }
            }
        }
    }
}

proof fn lemma_added_active(
    e: Seq<MonitorIdleState>,
    mons: Seq<MonitorInfo>,
    now: u64,
    i: int,
    m: Seq<char>,
)
    requires
        0 <= i <= mons.len(),
        has_entry(e, m),
        all_active(e, m),
    ensures
        has_entry(added_prefix(e, mons, now, i), m),
        all_active(added_prefix(e, mons, now, i), m),
    decreases i,
{
    if i == 0 {
    } else {
        lemma_added_active(e, mons, now, i - 1, m);
        let acc = added_prefix(e, mons, now, i - 1);
        let res = added_prefix(e, mons, now, i);
        if !has_entry(acc, mons[i - 1].name@) {
            assert(mons[i - 1].name@ != m);
            let k = choose|k: int| 0 <= k < acc.len() && acc[k].name@ == m;
            assert(res[k].name@ == m);
            assert forall|j: int| 0 <= j < res.len() && res[j].name@ == m implies res[j].screensaver_active by {
                if j < acc.len() {
                    assert(acc[j].name@ == m);
                }
            }
        }
    }
}

proof fn lemma_retained(e: Seq<MonitorIdleState>, mons: Seq<MonitorInfo>, i: int, n: Seq<char>)
    requires
        0 <= i <= e.len(),
    ensures
        has_entry(retained_prefix(e, mons, i).0, n) <==> ((exists|j: int|
            0 <= j < i && e[j].name@ == n) && mons_have_name(mons, n)),
        forall|k: int|
            0 <= k < retained_prefix(e, mons, i).1.len() ==> #[trigger] retained_prefix(
                e,
                mons,
                i,
            ).1[k] is MonitorRemoved,
        forall|k: int|
            0 <= k < retained_prefix(e, mons, i).1.len() ==> (#[trigger] retained_prefix(
                e,
                mons,
                i,
            ).1[k] matches RendererCommand::MonitorRemoved { monitor } ==> !mons_have_name(
                mons,
                monitor@,
            )),
    decreases i,
{
    if i > 0 {
        lemma_retained(e, mons, i - 1, n);
        let r = retained_prefix(e, mons, i - 1);
        let res = retained_prefix(e, mons, i);
        let x = e[i - 1];
        if mons_have_name(mons, x.name@) {
            assert(res.0 == r.0.push(x));
            if has_entry(res.0, n) {
                let k = choose|k: int| 0 <= k < res.0.len() && res.0[k].name@ == n;
                if k < r.0.len() {
                    assert(r.0[k].name@ == n);
                } else {
                    assert(x.name@ == n);
                }
            }
            if has_entry(r.0, n) {
                let k = choose|k: int| 0 <= k < r.0.len() && r.0[k].name@ == n;
                assert(res.0[k].name@ == n);
            }
            if x.name@ == n {
                assert(res.0[res.0.len() - 1].name@ == n);
            }
        }
    }
}

proof fn lemma_retained_wf(e: Seq<MonitorIdleState>, mons: Seq<MonitorInfo>, i: int)
    requires
        0 <= i <= e.len(),
        wf_entries(e),
    ensures
        wf_entries(retained_prefix(e, mons, i).0),
    decreases i,
{
    if i > 0 {
        lemma_retained_wf(e, mons, i - 1);
        let r = retained_prefix(e, mons, i - 1);
        let res = retained_prefix(e, mons, i);
        let x = e[i - 1];
        if mons_have_name(mons, x.name@) {
            lemma_retained(e, mons, i - 1, x.name@);
            assert(!has_entry(r.0, x.name@)) by {
                if has_entry(r.0, x.name@) {
                    let j = choose|j: int| 0 <= j < i - 1 && e[j].name@ == x.name@;
                    assert(e[j].name@ == e[i - 1].name@);
                }
            }
            assert forall|a: int, b: int| 0 <= a < b < res.0.len() implies res.0[a].name@
                != res.0[b].name@ by {
                if b < r.0.len() {
                } else {
                    assert(res.0[b] == x);
                    assert(res.0[a] == r.0[a]);
                    assert(!(exists|k: int| 0 <= k < r.0.len() && r.0[k].name@ == x.name@));
                }
            }
        }
    }
}

proof fn lemma_retained_active(
    e: Seq<MonitorIdleState>,
    mons: Seq<MonitorInfo>,
    i: int,
    m: Seq<char>,
)
    requires
        0 <= i <= e.len(),
        all_active(e, m),
        mons_have_name(mons, m),
    ensures
        all_active(retained_prefix(e, mons, i).0, m),
        forall|k: int|
            0 <= k < retained_prefix(e, mons, i).1.len() ==> !is_stop_for(
                #[trigger] retained_prefix(e, mons, i).1[k],
                m,
            ) && !is_start_for(retained_prefix(e, mons, i).1[k], m),
    decreases i,
{
    if i > 0 {
        lemma_retained_active(e, mons, i - 1, m);
        let r = retained_prefix(e, mons, i - 1);
        let res = retained_prefix(e, mons, i);
        let x = e[i - 1];
        if mons_have_name(mons, x.name@) {
            assert forall|j: int|
                0 <= j < res.0.len() && res.0[j].name@ == m implies res.0[j].screensaver_active by {
                if j < r.0.len() {
                } else {
                    assert(res.0[j] == x);
                    assert(x.name@ == e[i - 1].name@);
                }
            }
        }
    }
}

proof fn lemma_cursor_refresh_pointwise(
    e: Seq<MonitorIdleState>,
    name: Seq<char>,
    moved: bool,
    now: u64,
    i: int,
)
    requires
        0 <= i <= e.len(),
    ensures
        cursor_refresh_prefix(e, name, moved, now, i).len() == i,
        forall|j: int|
            0 <= j < i ==> #[trigger] cursor_refresh_prefix(e, name, moved, now, i)[j] == (if e[j].name@
                == name {
                MonitorIdleState {
                    name: e[j].name,
                    last_cursor_seen: now,
                    screensaver_active: e[j].screensaver_active && !moved,
                }
            } else {
                e[j]
            }),
    decreases i,
{
    if i > 0 {
        lemma_cursor_refresh_pointwise(e, name, moved, now, i - 1);
    }
}

proof fn lemma_cursor_stops(e: Seq<MonitorIdleState>, name: Seq<char>, moved: bool, i: int)
    requires
        0 <= i <= e.len(),
    ensures
        forall|k: int|
            0 <= k < cursor_stop_prefix(e, name, moved, i).len() ==> (#[trigger] cursor_stop_prefix(
                e,
                name,
                moved,
                i,
            )[k] matches RendererCommand::Stop { monitor } && monitor@ == name && moved),
    decreases i,
{
    if i > 0 {
        lemma_cursor_stops(e, name, moved, i - 1);
    }
}

proof fn lemma_rising_pointwise(e: Seq<MonitorIdleState>, cfg: Config, i: int)
    requires
        0 <= i <= e.len(),
    ensures
        rising_prefix(e, cfg, i).0.len() == i,
        forall|j: int|
            0 <= j < i ==> #[trigger] rising_prefix(e, cfg, i).0[j] == (if !e[j].screensaver_active
                && !cfg.spec_disabled(e[j].name@) {
                MonitorIdleState {
                    name: e[j].name,
                    last_cursor_seen: e[j].last_cursor_seen,
                    screensaver_active: true,
                }
            } else {
                e[j]
            }),
        forall|k: int|
            0 <= k < rising_prefix(e, cfg, i).1.len() ==> (#[trigger] rising_prefix(
                e,
                cfg,
                i,
            ).1[k] matches RendererCommand::Start { monitor, screensaver } && !cfg.spec_disabled(
                monitor@,
            ) && (exists|j: int| 0 <= j < i && e[j].name@ == monitor@)),
    decreases i,
{
    if i > 0 {
        lemma_rising_pointwise(e, cfg, i - 1);
        let r = rising_prefix(e, cfg, i - 1);
        let res = rising_prefix(e, cfg, i);
        if !e[i - 1].screensaver_active && !cfg.spec_disabled(e[i - 1].name@) {
            assert forall|k: int|
                0 <= k < res.1.len() implies (#[trigger] res.1[k] matches RendererCommand::Start {
                    monitor,
                    screensaver,
                } && !cfg.spec_disabled(monitor@) && (exists|j: int|
                    0 <= j < i && e[j].name@ == monitor@)) by {
                if k < r.1.len() {
                    assert(res.1[k] == r.1[k]);
                } else {
                    assert(0 <= i - 1 < i && e[i - 1].name@ == e[i - 1].name@);
                }
            }
        }
    }
}

proof fn lemma_falling_some_pointwise(e: Seq<MonitorIdleState>, name: Seq<char>, now: u64, i: int)
    requires
        0 <= i <= e.len(),
    ensures
        falling_some_prefix(e, name, now, i).len() == i,
        forall|j: int|
            0 <= j < i ==> #[trigger] falling_some_prefix(e, name, now, i)[j] == (if e[j].name@
                == name {
                MonitorIdleState {
                    name: e[j].name,
                    last_cursor_seen: now,
                    screensaver_active: false,
                }
            } else {
                e[j]
            }),
    decreases i,
{
    if i > 0 {
        lemma_falling_some_pointwise(e, name, now, i - 1);
    }
}

proof fn lemma_falling_all_pointwise(e: Seq<MonitorIdleState>, now: u64, i: int)
    requires
        0 <= i <= e.len(),
    ensures
        falling_all_prefix(e, now, i).len() == i,
        forall|j: int|
            0 <= j < i ==> #[trigger] falling_all_prefix(e, now, i)[j] == (MonitorIdleState {
                name: e[j].name,
                last_cursor_seen: now,
                screensaver_active: false,
            }),
    decreases i,
{
    if i > 0 {
        lemma_falling_all_pointwise(e, now, i - 1);
    }
}

proof fn lemma_timeout_pointwise(
    e: Seq<MonitorIdleState>,
    cfg: Config,
    current: Option<String>,
    now: u64,
    i: int,
)
    requires
        0 <= i <= e.len(),
    ensures
        timeout_prefix(e, cfg, current, now, i).0.len() == i,
        forall|j: int|
            0 <= j < i ==> #[trigger] timeout_prefix(e, cfg, current, now, i).0[j] == (if
            timeout_fires(e[j], cfg, current, now) {
                MonitorIdleState {
                    name: e[j].name,
                    last_cursor_seen: e[j].last_cursor_seen,
                    screensaver_active: true,
                }
            } else {
                e[j]
            }),
        forall|k: int|
            0 <= k < timeout_prefix(e, cfg, current, now, i).1.len() ==> (
            #[trigger] timeout_prefix(e, cfg, current, now, i).1[k] matches RendererCommand::Start {
                monitor,
                screensaver,
            } && (exists|j: int|
                0 <= j < i && e[j].name@ == monitor@ && timeout_fires(e[j], cfg, current, now))),
    decreases i,
{
    if i > 0 {
        lemma_timeout_pointwise(e, cfg, current, now, i - 1);
        let r = timeout_prefix(e, cfg, current, now, i - 1);
        let res = timeout_prefix(e, cfg, current, now, i);
        if timeout_fires(e[i - 1], cfg, current, now) {
            assert forall|k: int|
                0 <= k < res.1.len() implies (#[trigger] res.1[k] matches RendererCommand::Start {
                    monitor,
                    screensaver,
                } && (exists|j: int|
                    0 <= j < i && e[j].name@ == monitor@ && timeout_fires(
                        e[j],
                        cfg,
                        current,
                        now,
                    ))) by {
                if k < r.1.len() {
                    assert(res.1[k] == r.1[k]);
                } else {
                    assert(0 <= i - 1 < i && e[i - 1].name@ == e[i - 1].name@ && timeout_fires(
                        e[i - 1],
                        cfg,
                        current,
                        now,
                    ));
                }
            }
        }
    }
}

proof fn lemma_has_entry_equiv(x: Seq<MonitorIdleState>, y: Seq<MonitorIdleState>, n: Seq<char>)
    requires
        x.len() == y.len(),
        forall|j: int| 0 <= j < x.len() ==> x[j].name@ == y[j].name@,
    ensures
        has_entry(x, n) <==> has_entry(y, n),
{
    if has_entry(x, n) {
        let k = choose|k: int| 0 <= k < x.len() && x[k].name@ == n;
        assert(y[k].name@ == n);
    }
    if has_entry(y, n) {
        let k = choose|k: int| 0 <= k < y.len() && y[k].name@ == n;
        assert(x[k].name@ == n);
    }
}

proof fn lemma_wf_from_pointwise(x: Seq<MonitorIdleState>, y: Seq<MonitorIdleState>)
    requires
        x.len() == y.len(),
        forall|j: int| 0 <= j < x.len() ==> x[j].name@ == y[j].name@,
        wf_entries(x),
    ensures
        wf_entries(y),
{
    assert forall|a: int, b: int| 0 <= a < b < y.len() implies y[a].name@ != y[b].name@ by {
        assert(x[a].name@ != x[b].name@);
    }
}

/// The names inside the tick, step by step, are pointwise preserved from
/// step 3 on; this bundles the facts the public laws need.
proof fn lemma_tick_steps(eng: IdleEngine, cfg: Config, snap: TickSnapshot, n: Seq<char>)
    ensures
        ({
            let moved = spec_moved(eng.last_cursor_pos, snap.cursor);
            let current = spec_cursor_on_monitor(snap.cursor, snap.monitors@);
            let e1 = added_prefix(
                eng.monitors@,
                snap.monitors@,
                snap.now,
                snap.monitors@.len() as int,
            );
            let r2 = retained_prefix(e1, snap.monitors@, e1.len() as int);
            let r3 = cursor_step(r2.0, current, moved, snap.now);
            let rising = snap.session_idle && !eng.session_was_idle;
            let falling = !snap.session_idle && eng.session_was_idle;
            let r4 = if rising {
                rising_prefix(r3.0, cfg, r3.0.len() as int)
            } else {
                (r3.0, Seq::<RendererCommand>::empty())
            };
            let r5 = if falling {
                falling_step(r4.0, current, snap.now)
            } else {
                (r4.0, Seq::<RendererCommand>::empty())
            };
            let r6 = if !snap.session_idle {
                timeout_prefix(r5.0, cfg, current, snap.now, r5.0.len() as int)
            } else {
                (r5.0, Seq::<RendererCommand>::empty())
            };
            &&& (has_entry(e1, n) <==> has_entry(eng.monitors@, n) || mons_have_name(
                snap.monitors@,
                n,
            ))
            &&& (has_entry(r2.0, n) <==> has_entry(e1, n) && mons_have_name(snap.monitors@, n))
            &&& (has_entry(r3.0, n) <==> has_entry(r2.0, n))
            &&& (has_entry(r4.0, n) <==> has_entry(r3.0, n))
            &&& (has_entry(r5.0, n) <==> has_entry(r4.0, n))
            &&& (has_entry(r6.0, n) <==> has_entry(r5.0, n))
            &&& spec_tick(eng, cfg, snap).0 == r6.0
        }),
{
    let moved = spec_moved(eng.last_cursor_pos, snap.cursor);
    let current = spec_cursor_on_monitor(snap.cursor, snap.monitors@);
    let e0 = eng.monitors@;
    let mons = snap.monitors@;
    lemma_added_names(e0, mons, snap.now, mons.len() as int, n);
    let e1 = added_prefix(e0, mons, snap.now, mons.len() as int);
    lemma_retained(e1, mons, e1.len() as int, n);
    let r2 = retained_prefix(e1, mons, e1.len() as int);
    assert((exists|j: int| 0 <= j < e1.len() && e1[j].name@ == n) <==> has_entry(e1, n));
    let r3 = cursor_step(r2.0, current, moved, snap.now);
    match current {
        None => {},
        Some(c) => {
            lemma_cursor_refresh_pointwise(r2.0, c@, moved, snap.now, r2.0.len() as int);
            lemma_has_entry_equiv(r2.0, r3.0, n);
        },
    }
    let rising = snap.session_idle && !eng.session_was_idle;
    let falling = !snap.session_idle && eng.session_was_idle;
    let r4 = if rising {
        rising_prefix(r3.0, cfg, r3.0.len() as int)
    } else {
        (r3.0, Seq::<RendererCommand>::empty())
    };
    if rising {
        lemma_rising_pointwise(r3.0, cfg, r3.0.len() as int);
        lemma_has_entry_equiv(r3.0, r4.0, n);
    }
    let r5 = if falling {
        falling_step(r4.0, current, snap.now)
    } else {
        (r4.0, Seq::<RendererCommand>::empty())
    };
    if falling {
        match current {
            Some(c) => {
                lemma_falling_some_pointwise(r4.0, c@, snap.now, r4.0.len() as int);
                lemma_has_entry_equiv(r4.0, r5.0, n);
            },
            None => {
                lemma_falling_all_pointwise(r4.0, snap.now, r4.0.len() as int);
                lemma_has_entry_equiv(r4.0, r5.0, n);
            },
        }
    }
    let r6 = if !snap.session_idle {
        timeout_prefix(r5.0, cfg, current, snap.now, r5.0.len() as int)
    } else {
        (r5.0, Seq::<RendererCommand>::empty())
    };
    if !snap.session_idle {
        lemma_timeout_pointwise(r5.0, cfg, current, snap.now, r5.0.len() as int);
        lemma_has_entry_equiv(r5.0, r6.0, n);
    }
}

/// Set reconciliation law: after a tick, the tracked monitor set is exactly
/// the connected set of that tick's snapshot — a name is tracked if and
/// only if the snapshot enumerated a monitor with that name.
pub proof fn lemma_tick_tracks_connected(
    eng: IdleEngine,
    cfg: Config,
    snap: TickSnapshot,
    n: Seq<char>,
)
    ensures
        has_entry(spec_tick(eng, cfg, snap).0, n) <==> mons_have_name(snap.monitors@, n),
{
    lemma_tick_steps(eng, cfg, snap, n);
}

/// Distinct entry names are preserved: a tick never introduces a second
/// entry for a monitor name it already tracks.
pub proof fn lemma_tick_preserves_wf(eng: IdleEngine, cfg: Config, snap: TickSnapshot)
    requires
        wf_entries(eng.monitors@),
    ensures
        wf_entries(spec_tick(eng, cfg, snap).0),
{
    let moved = spec_moved(eng.last_cursor_pos, snap.cursor);
    let current = spec_cursor_on_monitor(snap.cursor, snap.monitors@);
    let e0 = eng.monitors@;
    let mons = snap.monitors@;
    lemma_added_wf(e0, mons, snap.now, mons.len() as int);
    let e1 = added_prefix(e0, mons, snap.now, mons.len() as int);
    lemma_retained_wf(e1, mons, e1.len() as int);
    let r2 = retained_prefix(e1, mons, e1.len() as int);
    let r3 = cursor_step(r2.0, current, moved, snap.now);
    match current {
        None => {},
        Some(c) => {
            lemma_cursor_refresh_pointwise(r2.0, c@, moved, snap.now, r2.0.len() as int);
            lemma_wf_from_pointwise(r2.0, r3.0);
        },
    }
    let rising = snap.session_idle && !eng.session_was_idle;
    let falling = !snap.session_idle && eng.session_was_idle;
    let r4 = if rising {
        rising_prefix(r3.0, cfg, r3.0.len() as int)
    } else {
        (r3.0, Seq::<RendererCommand>::empty())
    };
    if rising {
        lemma_rising_pointwise(r3.0, cfg, r3.0.len() as int);
        lemma_wf_from_pointwise(r3.0, r4.0);
    }
    let r5 = if falling {
        falling_step(r4.0, current, snap.now)
    } else {
        (r4.0, Seq::<RendererCommand>::empty())
    };
    if falling {
        match current {
            Some(c) => {
                lemma_falling_some_pointwise(r4.0, c@, snap.now, r4.0.len() as int);
                lemma_wf_from_pointwise(r4.0, r5.0);
            },
            None => {
                lemma_falling_all_pointwise(r4.0, snap.now, r4.0.len() as int);
                lemma_wf_from_pointwise(r4.0, r5.0);
            },
        }
    }
    let r6 = if !snap.session_idle {
        timeout_prefix(r5.0, cfg, current, snap.now, r5.0.len() as int)
    } else {
        (r5.0, Seq::<RendererCommand>::empty())
    };
    if !snap.session_idle {
        lemma_timeout_pointwise(r5.0, cfg, current, snap.now, r5.0.len() as int);
        lemma_wf_from_pointwise(r5.0, r6.0);
    }
}

/// Start commands take effect: when a tick emits `Start` for a monitor,
/// that monitor ends the tick tracked and with its screensaver active.  With
/// `lemma_active_monitor_not_restarted` this gives the single-start law: a
/// started monitor is not started again while it stays idle.
pub proof fn lemma_started_monitor_stays_active(
    eng: IdleEngine,
    cfg: Config,
    snap: TickSnapshot,
    m: Seq<char>,
    k: int,
)
    requires
        wf_entries(eng.monitors@),
        0 <= k < spec_tick(eng, cfg, snap).1.len(),
        is_start_for(spec_tick(eng, cfg, snap).1[k], m),
    ensures
        has_entry(spec_tick(eng, cfg, snap).0, m),
        all_active(spec_tick(eng, cfg, snap).0, m),
{
    let moved = spec_moved(eng.last_cursor_pos, snap.cursor);
    let current = spec_cursor_on_monitor(snap.cursor, snap.monitors@);
    let e0 = eng.monitors@;
    let mons = snap.monitors@;
    let e1 = added_prefix(e0, mons, snap.now, mons.len() as int);
    let r2 = retained_prefix(e1, mons, e1.len() as int);
    let r3 = cursor_step(r2.0, current, moved, snap.now);
    let rising = snap.session_idle && !eng.session_was_idle;
    let falling = !snap.session_idle && eng.session_was_idle;
    let r4 = if rising {
        rising_prefix(r3.0, cfg, r3.0.len() as int)
    } else {
        (r3.0, Seq::<RendererCommand>::empty())
    };
    let r5 = if falling {
        falling_step(r4.0, current, snap.now)
    } else {
        (r4.0, Seq::<RendererCommand>::empty())
    };
    let r6 = if !snap.session_idle {
        timeout_prefix(r5.0, cfg, current, snap.now, r5.0.len() as int)
    } else {
        (r5.0, Seq::<RendererCommand>::empty())
    };
    let cmds = r2.1 + r3.1 + r4.1 + r5.1 + r6.1;
    assert(spec_tick(eng, cfg, snap).1 == cmds);
    lemma_tick_preserves_wf(eng, cfg, snap);
    lemma_tick_steps(eng, cfg, snap, m);
    lemma_retained(e1, mons, e1.len() as int, m);
    match current {
        None => {},
        Some(c) => {
            lemma_cursor_stops(r2.0, c@, moved, r2.0.len() as int);
            lemma_cursor_refresh_pointwise(r2.0, c@, moved, snap.now, r2.0.len() as int);
        },
    }
    if snap.session_idle {
        // Only the rising-edge step can emit a Start here.
        assert(r5.1.len() == 0 && r6.1.len() == 0);
        assert(rising) by {
            if !rising {
                assert(r4.1.len() == 0);
                if k < r2.1.len() {
                    assert(cmds[k] is MonitorRemoved);
                } else {
                    assert(cmds[k] == r3.1[k - r2.1.len()]);
                    assert(cmds[k] is Stop);
                }
            }
        }
        lemma_rising_pointwise(r3.0, cfg, r3.0.len() as int);
        let kk = k - r2.1.len() - r3.1.len();
        assert(0 <= kk < r4.1.len() && cmds[k] == r4.1[kk]) by {
            if k < r2.1.len() {
                assert(cmds[k] is MonitorRemoved);
            } else if k < r2.1.len() + r3.1.len() {
                assert(cmds[k] == r3.1[k - r2.1.len()]);
                assert(cmds[k] is Stop);
            }
        }
        assert(!cfg.spec_disabled(m));
        assert(spec_tick(eng, cfg, snap).0 == r4.0);
        assert forall|l: int|
            0 <= l < r4.0.len() && r4.0[l].name@ == m implies r4.0[l].screensaver_active by {
            assert(r3.0[l].name@ == m);
        }
    } else {
        // Only the timeout step can emit a Start here.
        assert(r4.1.len() == 0);
        lemma_timeout_pointwise(r5.0, cfg, current, snap.now, r5.0.len() as int);
        let kk = k - r2.1.len() - r3.1.len() - r4.1.len() - r5.1.len();
        assert(0 <= kk < r6.1.len() && cmds[k] == r6.1[kk]) by {
            if k < r2.1.len() {
                assert(cmds[k] is MonitorRemoved);
            } else if k < r2.1.len() + r3.1.len() {
                assert(cmds[k] == r3.1[k - r2.1.len()]);
                assert(cmds[k] is Stop);
            } else if k < r2.1.len() + r3.1.len() + r4.1.len() + r5.1.len() {
                assert(cmds[k] == r5.1[k - r2.1.len() - r3.1.len() - r4.1.len()]);
                if falling {
                    match current {
                        Some(c) => assert(cmds[k] is Stop),
                        None => assert(cmds[k] is StopAll),
                    }
                }
            }
        }
        let j = choose|j: int|
            0 <= j < r5.0.len() && r5.0[j].name@ == m && timeout_fires(r5.0[j], cfg, current, snap.now);
        assert(r6.0[j].screensaver_active && r6.0[j].name@ == m);
        assert(spec_tick(eng, cfg, snap).0 == r6.0);
        assert forall|l: int|
            0 <= l < r6.0.len() && r6.0[l].name@ == m implies r6.0[l].screensaver_active by {
            if l != j {
                assert(r6.0[l].name@ != r6.0[j].name@);
            }
        }
    }
}

/// Single-start law: while the session is not idle and was not idle, a
/// tracked, connected monitor whose screensaver is active — and onto which
/// the cursor did not just move — is left exactly alone: no `Start`, no
/// `Stop`, no `StopAll`, no `MonitorRemoved` concerns it, and it stays
/// tracked and active.
pub proof fn lemma_active_monitor_not_restarted(
    eng: IdleEngine,
    cfg: Config,
    snap: TickSnapshot,
    m: Seq<char>,
)
    requires
        has_entry(eng.monitors@, m),
        all_active(eng.monitors@, m),
        mons_have_name(snap.monitors@, m),
        !snap.session_idle,
        !eng.session_was_idle,
        !(cur_is(spec_cursor_on_monitor(snap.cursor, snap.monitors@), m) && spec_moved(
            eng.last_cursor_pos,
            snap.cursor,
        )),
    ensures
        has_entry(spec_tick(eng, cfg, snap).0, m),
        all_active(spec_tick(eng, cfg, snap).0, m),
        forall|k: int|
            0 <= k < spec_tick(eng, cfg, snap).1.len() ==> {
                let c = #[trigger] spec_tick(eng, cfg, snap).1[k];
                &&& !is_start_for(c, m)
                &&& !is_stop_for(c, m)
                &&& !(c is StopAll)
                &&& !(c matches RendererCommand::MonitorRemoved { monitor } && monitor@ == m)
            },
{
    let moved = spec_moved(eng.last_cursor_pos, snap.cursor);
    let current = spec_cursor_on_monitor(snap.cursor, snap.monitors@);
    let e0 = eng.monitors@;
    let mons = snap.monitors@;
    let e1 = added_prefix(e0, mons, snap.now, mons.len() as int);
    let r2 = retained_prefix(e1, mons, e1.len() as int);
    let r3 = cursor_step(r2.0, current, moved, snap.now);
    let r6 = timeout_prefix(r3.0, cfg, current, snap.now, r3.0.len() as int);
    let cmds = r2.1 + r3.1 + Seq::<RendererCommand>::empty() + Seq::<RendererCommand>::empty()
        + r6.1;
    assert(spec_tick(eng, cfg, snap).0 == r6.0);
    assert(spec_tick(eng, cfg, snap).1 == cmds);
    lemma_added_active(e0, mons, snap.now, mons.len() as int, m);
    lemma_retained(e1, mons, e1.len() as int, m);
    lemma_retained_active(e1, mons, e1.len() as int, m);
    assert(has_entry(r2.0, m));
    // Step 3: the cursor monitor either is not m, or the cursor did not
    // move; either way every entry for m stays active.
    match current {
        None => {},
        Some(c) => {
            lemma_cursor_refresh_pointwise(r2.0, c@, moved, snap.now, r2.0.len() as int);
            lemma_cursor_stops(r2.0, c@, moved, r2.0.len() as int);
            lemma_has_entry_equiv(r2.0, r3.0, m);
        },
    }
    assert(all_active(r3.0, m)) by {
        match current {
            None => {},
            Some(c) => {
                assert forall|l: int|
                    0 <= l < r3.0.len() && r3.0[l].name@ == m implies r3.0[l].screensaver_active by {
                    assert(r2.0[l].name@ == m);
                    if c@ == m {
                        assert(!moved);
                    }
                }
            },
        }
    }
    assert(has_entry(r3.0, m));
    // Step 6: an active entry never fires, so every entry for m is copied
    // unchanged and no Start for m is emitted.
    lemma_timeout_pointwise(r3.0, cfg, current, snap.now, r3.0.len() as int);
    lemma_has_entry_equiv(r3.0, r6.0, m);
    assert(all_active(r6.0, m)) by {
        assert forall|l: int|
            0 <= l < r6.0.len() && r6.0[l].name@ == m implies r6.0[l].screensaver_active by {
            assert(r3.0[l].name@ == m);
        }
    }
    assert forall|k: int| 0 <= k < cmds.len() implies {
        let c = #[trigger] cmds[k];
        &&& !is_start_for(c, m)
        &&& !is_stop_for(c, m)
        &&& !(c is StopAll)
        &&& !(c matches RendererCommand::MonitorRemoved { monitor } && monitor@ == m)
    } by {
        if k < r2.1.len() {
            assert(cmds[k] == r2.1[k]);
        } else if k < r2.1.len() + r3.1.len() {
            assert(cmds[k] == r3.1[k - r2.1.len()]);
            match current {
                None => {},
                Some(c) => {
                    if c@ == m {
                        assert(!moved);
                    }
                },
            }
        } else {
            assert(cmds[k] == r6.1[k - r2.1.len() - r3.1.len()]);
            let kk = k - r2.1.len() - r3.1.len();
            assert(r6.1[kk] matches RendererCommand::Start { monitor, screensaver } && (exists|
                j: int,
            | 0 <= j < r3.0.len() && r3.0[j].name@ == monitor@ && timeout_fires(r3.0[j], cfg, current, snap.now)));
            if is_start_for(r6.1[kk], m) {
                let j = choose|j: int|
                    0 <= j < r3.0.len() && r3.0[j].name@ == m && timeout_fires(r3.0[j], cfg, current, snap.now);
                assert(r3.0[j].screensaver_active);
            }
        }
    }
}

} // verus!
