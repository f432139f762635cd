//! Watch-serve loop state machine: file-system change events trigger
//! pipeline runs, bursts of events arriving while a run is in flight are
//! coalesced into a single follow-up run, and the current report is replaced
//! atomically on each completion and served read-only in between.

use vstd::prelude::*;

verus! {

/// The fully rendered document of one completed run.
#[derive(Debug, PartialEq, Eq)]
pub struct Report {
    pub html: String,
}

/// Where the loop stands: not yet watching, watching with no run in flight,
/// or running with at most one coalesced re-run pending.
#[derive(Clone, Copy, Debug, PartialEq, Eq, Structural)]
pub enum LoopState {
    Idle,
    Watching,
    Running { pending: bool },
}

/// What the surrounding program must do after feeding the machine an event.
#[derive(Clone, Copy, Debug, PartialEq, Eq, Structural)]
pub enum LoopAction {
    /// Keep waiting for the next event.
    Stay,
    /// Start one pipeline run now.
    StartRun,
}

/// The transition taken on a file-system change event.
pub open spec fn spec_on_file_changed(s: LoopState) -> (LoopState, LoopAction) {
    match s {
        LoopState::Idle => (LoopState::Idle, LoopAction::Stay),
        LoopState::Watching => (LoopState::Running { pending: false }, LoopAction::StartRun),
        LoopState::Running { pending: _ } => (
            LoopState::Running { pending: true },
            LoopAction::Stay,
        ),
    }
}

/// The transition taken when a pipeline run completes: back to watching, or
/// straight into the one coalesced follow-up run.
pub open spec fn spec_on_run_finished(s: LoopState) -> (LoopState, LoopAction) {
    match s {
        LoopState::Running { pending: true } => (
            LoopState::Running { pending: false },
            LoopAction::StartRun,
        ),
        _ => (LoopState::Watching, LoopAction::Stay),
    }
}

/// The state after `n` change events from `s`.
pub open spec fn after_changes(s: LoopState, n: nat) -> LoopState
    decreases n,
{
    if n == 0 {
        s
    } else {
        spec_on_file_changed(after_changes(s, (n - 1) as nat)).0
    }
}

/// How many runs `n` change events from `s` start.
pub open spec fn runs_started_by_changes(s: LoopState, n: nat) -> nat
    decreases n,
{
    if n == 0 {
        0
    } else {
        runs_started_by_changes(s, (n - 1) as nat) + if spec_on_file_changed(
            after_changes(s, (n - 1) as nat),
        ).1 is StartRun {
            1nat
        } else {
            0nat
        }
    }
}

/// Coalescing: any number of change events arriving while a run is in flight
/// start no run themselves, and the completion of the in-flight run then
/// starts exactly one follow-up run.
pub proof fn lemma_changes_coalesce(p: bool, n: nat)
    requires
        n >= 1,
    ensures
        after_changes(LoopState::Running { pending: p }, n) == (LoopState::Running {
            pending: true,
        }),
        runs_started_by_changes(LoopState::Running { pending: p }, n) == 0,
        spec_on_run_finished(after_changes(LoopState::Running { pending: p }, n)).1
            == LoopAction::StartRun,
    decreases n,
{
    let s = LoopState::Running { pending: p };
    if n == 1 {
        assert(after_changes(s, 0) == s);
        assert(runs_started_by_changes(s, 0) == 0);
    } else {
        lemma_changes_coalesce(p, (n - 1) as nat);
    }
}

/// The watch-serve loop: the machine state plus the current published report.
pub struct WatchServe {
    pub state: LoopState,
    pub current: Option<Report>,
}

impl WatchServe {
    /// Before startup: no watch active, no report published yet.
    pub fn new() -> (r: WatchServe)
        ensures
            r.state == LoopState::Idle,
            r.current is None,
    {
        WatchServe { state: LoopState::Idle, current: None }
    }

    /// Startup: the watch target was validated and the subscription is live.
    pub fn on_watch_started(&mut self)
        requires
            old(self).state == LoopState::Idle,
        ensures
            final(self).state == LoopState::Watching,
            final(self).current == old(self).current,
    {
        self.state = LoopState::Watching;
    }

    /// A file-system change event under the watched tree.
    pub fn on_file_changed(&mut self) -> (a: LoopAction)
        requires
            old(self).state != LoopState::Idle,
        ensures
            (final(self).state, a) == spec_on_file_changed(old(self).state),
            final(self).current == old(self).current,
    {
        match self.state {
            LoopState::Watching => {
                self.state = LoopState::Running { pending: false };
                LoopAction::StartRun
            },
            _ => {
                self.state = LoopState::Running { pending: true };
                LoopAction::Stay
            },
        }
    }

    /// A pipeline run completed: publish its report atomically, and start the
    /// one coalesced follow-up run if changes arrived meanwhile.
    pub fn on_run_finished(&mut self, report: Report) -> (a: LoopAction)
        requires
            old(self).state matches LoopState::Running { .. },
        ensures
            (final(self).state, a) == spec_on_run_finished(old(self).state),
            final(self).current == Some(report),
    {
        self.current = Some(report);
        match self.state {
            LoopState::Running { pending: true } => {
                self.state = LoopState::Running { pending: false };
                LoopAction::StartRun
            },
            _ => {
                self.state = LoopState::Watching;
                LoopAction::Stay
            },
        }
    }

    /// The page served on demand: the current report, always the output of a
    /// fully completed run, or a placeholder before the first run completes.
    pub fn serve_html(&self) -> (r: String)
        ensures
            match self.current {
                Some(rep) => r@ == rep.html@,
                None => r@ == placeholder_page(),
            },
    {
        match &self.current {
            Some(rep) => rep.html.clone(),
            None => {
                let s = String::from_str("<html><body>no report yet</body></html>\n");
                proof {
                    reveal_strlit("<html><body>no report yet</body></html>\n");
                }
                s
            },
        }
    }
}

/// The page served before any run has completed.
pub open spec fn placeholder_page() -> Seq<char> {
    "<html><body>no report yet</body></html>\n"@
}

} // verus!
