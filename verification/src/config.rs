//! Configuration surface consumed by the engine.
//!
//! The engine reads a global poll interval, a global per-monitor idle
//! timeout, a session-wide idle flag and timeout, a default screensaver
//! name, and a per-monitor override table.  Loading and parsing the
//! on-disk form is the caller's business; the library only holds the
//! resulting plain values, immutable for the life of one engine.

use vstd::prelude::*;

verus! {

/// General daemon settings.
#[derive(Debug, Clone)]
pub struct GeneralConfig {
    /// Per-monitor idle timeout in seconds.
    pub idle_timeout: u64,
    /// How often the cursor position is polled, in milliseconds.
    pub poll_interval: u64,
    /// Whether session-wide idle handling is enabled.
    pub session_idle: bool,
    /// Session-wide idle timeout in seconds; inherits `idle_timeout` when unset.
    pub session_idle_timeout: Option<u64>,
}

/// Per-monitor overrides.
#[derive(Debug, Clone)]
pub struct MonitorConfig {
    /// Override idle timeout for this monitor, in seconds.
    pub idle_timeout: Option<u64>,
    /// Override screensaver for this monitor.
    pub screensaver: Option<String>,
    /// Disable the screensaver on this monitor.
    pub disabled: bool,
}

/// One entry of the per-monitor override table, keyed by monitor name.
#[derive(Debug, Clone)]
pub struct MonitorOverride {
    pub name: String,
    pub config: MonitorConfig,
}

/// Screensaver selection settings.  Rendering-only knobs (opacity,
/// per-screensaver options) belong to the presentation layer, not here.
#[derive(Debug, Clone)]
pub struct ScreensaverConfig {
    /// Which screensaver to use by default.
    pub name: String,
    /// Target frames per second for the animation.
    pub fps: u32,
}

/// Top-level configuration.
#[derive(Debug, Clone)]
pub struct Config {
    pub general: GeneralConfig,
    pub monitors: Vec<MonitorOverride>,
    pub screensaver: ScreensaverConfig,
}

pub fn default_idle_timeout() -> (r: u64)
    ensures
        r == 300,
{
    300
}

pub fn default_poll_interval() -> (r: u64)
    ensures
        r == 500,
{
    500
}

pub fn default_screensaver() -> (r: String)
    ensures
        r@ == "matrix"@,
{
    "matrix".to_owned()
}

pub fn default_fps() -> (r: u32)
    ensures
        r == 30,
{
    30
}

pub fn default_true() -> (r: bool)
    ensures
        r,
{
    true
}

impl GeneralConfig {
    /// Effective session idle timeout: the explicit value when configured,
    /// otherwise falling back to the per-monitor `idle_timeout`.
    pub fn effective_session_idle_timeout(&self) -> (r: u64)
        ensures
            r == self.spec_effective_session_idle_timeout(),
    {
        match self.session_idle_timeout {
            Some(t) => t,
            None => self.idle_timeout,
        }
    }

    pub open spec fn spec_effective_session_idle_timeout(&self) -> u64 {
        match self.session_idle_timeout {
            Some(t) => t,
            None => self.idle_timeout,
        }
    }
}

impl Default for GeneralConfig {
    fn default() -> (r: Self)
        ensures
            r.idle_timeout == 300,
            r.poll_interval == 500,
            r.session_idle == true,
            r.session_idle_timeout is None,
    {
        GeneralConfig {
            idle_timeout: default_idle_timeout(),
            poll_interval: default_poll_interval(),
            session_idle: default_true(),
            session_idle_timeout: None,
        }
    }
}

impl Default for ScreensaverConfig {
    fn default() -> (r: Self)
        ensures
            r.name@ == "matrix"@,
            r.fps == 30,
    {
        ScreensaverConfig { name: default_screensaver(), fps: default_fps() }
    }
}

impl Default for Config {
    fn default() -> (r: Self)
        ensures
            r.general.idle_timeout == 300,
            r.general.poll_interval == 500,
            r.general.session_idle == true,
            r.general.session_idle_timeout is None,
            r.monitors@.len() == 0,
            r.wf(),
            r.screensaver.name@ == "matrix"@,
            r.screensaver.fps == 30,
    {
        Config {
            general: Default::default(),
            monitors: Vec::new(),
            screensaver: Default::default(),
        }
    }
}

/// The first override entry for `name` among `overrides[i..]`, if any.
pub open spec fn override_from(overrides: Seq<MonitorOverride>, name: Seq<char>, i: int) -> Option<
    MonitorConfig,
>
    decreases overrides.len() - i,
{
    if i < 0 || i >= overrides.len() {
        None
    } else if overrides[i].name@ == name {
        Some(overrides[i].config)
    } else {
        override_from(overrides, name, i + 1)
    }
}

impl Config {
    /// Well-formedness of the override table: monitor names are pairwise
    /// distinct, as keys of a map.  An empty configuration has it, and a
    /// loader that fills the table from a map keyed by name preserves it;
    /// the first-match lookups below are deterministic either way.
    pub open spec fn wf(&self) -> bool {
        forall|i: int, j: int|
            0 <= i < j < self.monitors@.len() ==> self.monitors@[i].name@
                != self.monitors@[j].name@
    }

    /// The override entry for a monitor name: first match in table order.
    pub open spec fn spec_override_for(&self, name: Seq<char>) -> Option<MonitorConfig> {
        override_from(self.monitors@, name, 0)
    }

    /// Whether the screensaver is disabled on this monitor.
    pub open spec fn spec_disabled(&self, name: Seq<char>) -> bool {
        match self.spec_override_for(name) {
            Some(c) => c.disabled,
            None => false,
        }
    }

    /// Effective idle timeout for this monitor, in seconds: the per-monitor
    /// override when configured, otherwise the global value.
    pub open spec fn spec_timeout(&self, name: Seq<char>) -> u64 {
        match self.spec_override_for(name) {
            Some(c) => match c.idle_timeout {
                Some(t) => t,
                None => self.general.idle_timeout,
            },
            None => self.general.idle_timeout,
        }
    }

    /// Effective screensaver name for this monitor: the per-monitor override
    /// when configured, otherwise the global default.
    pub open spec fn spec_screensaver(&self, name: Seq<char>) -> String {
        match self.spec_override_for(name) {
            Some(c) => match c.screensaver {
                Some(s) => s,
                None => self.screensaver.name,
            },
            None => self.screensaver.name,
        }
    }

    /// The session-wide idle configuration handed to the presentation
    /// layer: enabled as configured, the effective session timeout (the
    /// explicit value or the per-monitor timeout), and the default
    /// screensaver name.
    pub fn session_idle_config(&self) -> (r: crate::commands::SessionIdleConfig)
        ensures
            r.enabled == self.general.session_idle,
            r.timeout_secs == self.general.spec_effective_session_idle_timeout(),
            r.screensaver == self.screensaver.name,
    {
        crate::commands::SessionIdleConfig {
            enabled: self.general.session_idle,
            timeout_secs: self.general.effective_session_idle_timeout(),
            screensaver: self.screensaver.name.clone(),
        }
    }

    fn find_override(&self, name: &String) -> (r: Option<&MonitorConfig>)
        ensures
            match r {
                Some(c) => self.spec_override_for(name@) == Some(*c),
                None => self.spec_override_for(name@) is None,
            },
    {
        let mut i: usize = 0;
        while i < self.monitors.len()
            invariant
                0 <= i <= self.monitors@.len(),
                override_from(self.monitors@, name@, 0) == override_from(
                    self.monitors@,
                    name@,
                    i as int,
                ),
            decreases self.monitors@.len() - i,
        {
            if self.monitors[i].name == *name {
                return Some(&self.monitors[i].config);
            }
            i = i + 1;
        }
        None
    }

    /// Whether the screensaver is disabled on this monitor.
    pub fn disabled_for(&self, name: &String) -> (r: bool)
        ensures
            r == self.spec_disabled(name@),
    {
        match self.find_override(name) {
            Some(c) => c.disabled,
            None => false,
        }
    }

    /// Effective idle timeout for this monitor, in seconds.
    pub fn timeout_for(&self, name: &String) -> (r: u64)
        ensures
            r == self.spec_timeout(name@),
    {
        match self.find_override(name) {
            Some(c) => match &c.idle_timeout {
                Some(t) => *t,
                None => self.general.idle_timeout,
            },
            None => self.general.idle_timeout,
        }
    }

    /// Effective screensaver name for this monitor: per-monitor override if
    /// configured, else the global default.  Computed fresh at every decision
    /// point so configuration changes need no invalidation step.
    pub fn screensaver_for(&self, name: &String) -> (r: String)
        ensures
            r == self.spec_screensaver(name@),
    {
        match self.find_override(name) {
            Some(c) => match &c.screensaver {
                Some(s) => s.clone(),
                None => self.screensaver.name.clone(),
            },
            None => self.screensaver.name.clone(),
        }
    }
}

} // verus!
