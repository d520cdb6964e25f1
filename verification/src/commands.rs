//! The command vocabulary crossing from the engine to the presentation
//! layer, and a verified model of how a consumer applies it.
//!
//! Commands are plain values; once emitted they belong to the channel and
//! its consumer.  The consumer must drain commands strictly in arrival
//! order: `Start` followed by `Stop` for the same monitor has to net to
//! "stopped", never the reverse.  `OverlaySet` models the consumer-side
//! bookkeeping (which monitor currently shows an overlay) and proves that
//! ordering law together with the idempotence of `Stop` and
//! `MonitorRemoved`.

use vstd::prelude::*;

verus! {

/// Commands sent from the engine to the presentation layer.
#[derive(Debug, Clone)]
pub enum RendererCommand {
    /// Start a screensaver on a specific monitor.
    Start { monitor: String, screensaver: String },
    /// Start screensavers on all monitors (session-wide idle).
    StartAll { screensaver: String },
    /// Stop the screensaver on a specific monitor.
    Stop { monitor: String },
    /// Stop all screensavers (session-wide wake).
    StopAll,
    /// A monitor was disconnected; release its resources.
    MonitorRemoved { monitor: String },
    /// Shut the consumer down.
    Shutdown,
}

/// Session-wide idle configuration handed to the presentation layer.
#[derive(Debug, Clone)]
pub struct SessionIdleConfig {
    /// Whether session-wide idle is enabled.
    pub enabled: bool,
    /// Session idle timeout in seconds.
    pub timeout_secs: u64,
    /// Default screensaver name for session-wide idle.
    pub screensaver: String,
}

/// Whether some element of `s` has view `name`.
pub open spec fn contains_name(s: Seq<String>, name: Seq<char>) -> bool {
    exists|i: int| 0 <= i < s.len() && s[i]@ == name
}

/// The first `i` elements of `s` with every element named `name` dropped.
pub open spec fn removed_prefix(s: Seq<String>, name: Seq<char>, i: int) -> Seq<String>
    decreases i,
{
    if i <= 0 {
        Seq::empty()
    } else {
        let r = removed_prefix(s, name, i - 1);
        if s[i - 1]@ == name {
            r
        } else {
            r.push(s[i - 1])
        }
    }
}

/// `s` with every element named `name` dropped.
pub open spec fn remove_name(s: Seq<String>, name: Seq<char>) -> Seq<String> {
    removed_prefix(s, name, s.len() as int)
}

/// The overlays after starting on every output of `outputs[..i]` that is not
/// already running.
pub open spec fn start_all_prefix(active: Seq<String>, outputs: Seq<String>, i: int) -> Seq<String>
    decreases i,
{
    if i <= 0 {
        active
    } else {
        let a = start_all_prefix(active, outputs, i - 1);
        if contains_name(a, outputs[i - 1]@) {
            a
        } else {
            a.push(outputs[i - 1])
        }
    }
}

/// The overlay bookkeeping after applying one command.  `outputs` is the
/// set of outputs the consumer knows; a `Start` for an unknown output is a
/// safe no-op, as is a `Start` for an already-running overlay.
pub open spec fn apply_active(active: Seq<String>, cmd: RendererCommand, outputs: Seq<String>) -> Seq<
    String,
> {
    match cmd {
        RendererCommand::Start { monitor, screensaver } => {
            if contains_name(active, monitor@) {
                active
            } else if contains_name(outputs, monitor@) {
                active.push(monitor)
            } else {
                active
            }
        },
        RendererCommand::StartAll { screensaver } => start_all_prefix(
            active,
            outputs,
            outputs.len() as int,
        ),
        RendererCommand::Stop { monitor } => remove_name(active, monitor@),
        RendererCommand::StopAll => Seq::empty(),
        RendererCommand::MonitorRemoved { monitor } => remove_name(active, monitor@),
        RendererCommand::Shutdown => Seq::empty(),
    }
}

/// The overlays after applying `cmds[..i]` in order.
pub open spec fn apply_all_prefix(
    active: Seq<String>,
    cmds: Seq<RendererCommand>,
    outputs: Seq<String>,
    i: int,
) -> Seq<String>
    decreases i,
{
    if i <= 0 {
        active
    } else {
        apply_active(apply_all_prefix(active, cmds, outputs, i - 1), cmds[i - 1], outputs)
    }
}

/// Whether `cmds[..i]` contains a `Shutdown`.
pub open spec fn any_shutdown(cmds: Seq<RendererCommand>, i: int) -> bool {
    exists|j: int| 0 <= j < i && cmds[j] is Shutdown
}

/// Consumer-side model: which monitors currently show an overlay, and
/// whether a `Shutdown` has been consumed.  The real presentation layer
/// holds a surface per entry of `active`; this type carries exactly the
/// decision state that the command stream acts on.
#[derive(Debug)]
pub struct OverlaySet {
    /// Names of monitors with a running overlay, in start order.
    pub active: Vec<String>,
    /// Set once a `Shutdown` command has been applied.
    pub exit: bool,
}

fn vec_contains_name(v: &Vec<String>, name: &String) -> (r: bool)
    ensures
        r == contains_name(v@, name@),
{
    let mut i: usize = 0;
    while i < v.len()
        invariant
            0 <= i <= v@.len(),
            forall|j: int| 0 <= j < i ==> v@[j]@ != name@,
        decreases v@.len() - i,
    {
        if v[i] == *name {
            return true;
        }
        i = i + 1;
    }
    false
}

fn remove_name_exec(v: &mut Vec<String>, name: &String)
    ensures
        final(v)@ == remove_name(old(v)@, name@),
{
    let mut out: Vec<String> = Vec::new();
    let mut i: usize = 0;
    while i < v.len()
        invariant
            0 <= i <= v@.len(),
            out@ == removed_prefix(v@, name@, i as int),
        decreases v@.len() - i,
    {
        if !(v[i] == *name) {
            let e = v[i].clone();
            out.push(e);
        }
        i = i + 1;
    }
    *v = out;
}

impl OverlaySet {
    /// A consumer that has started nothing yet.
    pub fn new() -> (r: Self)
        ensures
            r.active@.len() == 0,
            !r.exit,
    {
        OverlaySet { active: Vec::new(), exit: false }
    }

    /// Whether an overlay is currently running on `name`.
    pub fn is_active(&self, name: &String) -> (r: bool)
        ensures
            r == contains_name(self.active@, name@),
    {
        vec_contains_name(&self.active, name)
    }

    /// Apply one command against the known `outputs`.  The new state is a
    /// pure function of the old state and the command; a `Start` for a
    /// running or unknown monitor and a `Stop`/`MonitorRemoved` for a
    /// stopped monitor leave the state exactly as it was.
    pub fn apply_command(&mut self, cmd: &RendererCommand, outputs: &Vec<String>)
        ensures
            final(self).active@ == apply_active(old(self).active@, *cmd, outputs@),
            final(self).exit == (old(self).exit || *cmd is Shutdown),
    {
        match cmd {
            RendererCommand::Start { monitor, screensaver } => {
                if !vec_contains_name(&self.active, monitor) && vec_contains_name(
                    outputs,
                    monitor,
                ) {
                    self.active.push(monitor.clone());
                }
            },
            RendererCommand::StartAll { screensaver } => {
                let mut i: usize = 0;
                while i < outputs.len()
                    invariant
                        0 <= i <= outputs@.len(),
                        self.active@ == start_all_prefix(
                            old(self).active@,
                            outputs@,
                            i as int,
                        ),
                        self.exit == old(self).exit,
                    decreases outputs@.len() - i,
                {
                    if !vec_contains_name(&self.active, &outputs[i]) {
                        self.active.push(outputs[i].clone());
                    }
                    i = i + 1;
                }
            },
            RendererCommand::Stop { monitor } => {
                remove_name_exec(&mut self.active, monitor);
            },
            RendererCommand::StopAll => {
                self.active = Vec::new();
            },
            RendererCommand::MonitorRemoved { monitor } => {
                remove_name_exec(&mut self.active, monitor);
            },
            RendererCommand::Shutdown => {
                self.active = Vec::new();
                self.exit = true;
            },
        }
    }

    /// Apply a batch of commands strictly in arrival order.
    pub fn apply_commands(&mut self, cmds: &Vec<RendererCommand>, outputs: &Vec<String>)
        ensures
            final(self).active@ == apply_all_prefix(
                old(self).active@,
                cmds@,
                outputs@,
                cmds@.len() as int,
            ),
            final(self).exit == (old(self).exit || any_shutdown(cmds@, cmds@.len() as int)),
    {
        let mut i: usize = 0;
        while i < cmds.len()
            invariant
                0 <= i <= cmds@.len(),
                self.active@ == apply_all_prefix(old(self).active@, cmds@, outputs@, i as int),
                self.exit == (old(self).exit || any_shutdown(cmds@, i as int)),
            decreases cmds@.len() - i,
        {
            let shut = self.exit;
            self.apply_command(&cmds[i], outputs);
            proof {
                let ii = i as int;
                if shut {
                    if any_shutdown(cmds@, ii) {
                        let j = choose|j: int| 0 <= j < ii && cmds@[j] is Shutdown;
                        assert(0 <= j < ii + 1 && cmds@[j] is Shutdown);
                        assert(any_shutdown(cmds@, ii + 1));
                    }
                } else {
                    if self.exit {
                        assert(cmds@[ii] is Shutdown);
                        assert(any_shutdown(cmds@, ii + 1));
                    } else {
                        assert(!any_shutdown(cmds@, ii + 1)) by {
                            assert(!(cmds@[ii] is Shutdown));
                            assert(!any_shutdown(cmds@, ii));
                        }
                    }
                }
            }
            i = i + 1;
        }
    }
}

proof fn lemma_removed_prefix_of_absent(s: Seq<String>, name: Seq<char>, i: int)
    requires
        0 <= i <= s.len(),
        !contains_name(s, name),
    ensures
        removed_prefix(s, name, i) =~= s.take(i),
    decreases i,
{
    if i > 0 {
        lemma_removed_prefix_of_absent(s, name, i - 1);
        assert(s[i - 1]@ != name) by {
            assert(!(exists|j: int| 0 <= j < s.len() && s[j]@ == name));
        }
    }
}

/// Idempotence of `Stop`: stopping a monitor that is not running changes
/// nothing at all in the consumer state.
pub proof fn lemma_stop_idempotent(active: Seq<String>, monitor: String, outputs: Seq<String>)
    requires
        !contains_name(active, monitor@),
    ensures
        apply_active(active, RendererCommand::Stop { monitor }, outputs) == active,
{
    lemma_removed_prefix_of_absent(active, monitor@, active.len() as int);
    assert(active.take(active.len() as int) =~= active);
}

/// Idempotence of `MonitorRemoved`: removing a monitor whose overlay is
/// already gone changes nothing at all in the consumer state.
pub proof fn lemma_monitor_removed_idempotent(
    active: Seq<String>,
    monitor: String,
    outputs: Seq<String>,
)
    requires
        !contains_name(active, monitor@),
    ensures
        apply_active(active, RendererCommand::MonitorRemoved { monitor }, outputs) == active,
{
    lemma_removed_prefix_of_absent(active, monitor@, active.len() as int);
    assert(active.take(active.len() as int) =~= active);
}

proof fn lemma_removed_prefix_absent(s: Seq<String>, name: Seq<char>, i: int)
    ensures
        !contains_name(removed_prefix(s, name, i), name),
    decreases i,
{
    if i > 0 {
        lemma_removed_prefix_absent(s, name, i - 1);
        let r = removed_prefix(s, name, i - 1);
        if s[i - 1]@ != name {
            assert forall|j: int|
                0 <= j < r.push(s[i - 1]).len() implies (#[trigger] r.push(s[i - 1])[j])@
                != name by {
                if j < r.len() {
                    assert(!(exists|k: int| 0 <= k < r.len() && r[k]@ == name));
                }
            }
        }
    }
}

/// Ordering law: `Start{m}` followed by `Stop{m}`, applied in arrival
/// order, nets to "no overlay on m" whatever state the consumer was in.
pub proof fn lemma_start_then_stop(
    active: Seq<String>,
    monitor: String,
    screensaver: String,
    outputs: Seq<String>,
)
    ensures
        !contains_name(
            apply_active(
                apply_active(
                    active,
                    RendererCommand::Start { monitor, screensaver },
                    outputs,
                ),
                RendererCommand::Stop { monitor },
                outputs,
            ),
            monitor@,
        ),
{
    let mid = apply_active(active, RendererCommand::Start { monitor, screensaver }, outputs);
    lemma_removed_prefix_absent(mid, monitor@, mid.len() as int);
}

} // verus!
