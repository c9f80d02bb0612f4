use crate::state::{ServiceState, valid_path, path_end, lemma_valid_path_append};
use vstd::prelude::*;

verus! {

/// Seconds a supervisor waits before it spawns a crashed or exited child again.
pub const RESTART_DELAY_SECS: u64 = 3;

/// Seconds a child is given to exit after the terminate signal before it is force-killed.
pub const TERMINATE_GRACE_SECS: u64 = 5;

/// What the supervisor is waiting for.
#[derive(Clone, Copy, Debug, PartialEq, Eq, Structural)]
pub enum Phase {
    /// No spawn cycle has begun yet.
    Idle,
    /// The binary is being resolved and spawned.
    Spawning,
    /// The child runs; shutdown signals and the child's exit are awaited.
    Running,
    /// The terminate signal was sent; the child's exit is awaited.
    Terminating,
    /// The child was force-killed; its reaping is awaited.
    Killing,
    /// The restart delay runs.
    Backoff,
    /// The session is over.
    Done,
}

/// What the driver of a supervisor reports back after performing an action.
#[derive(Clone, Copy, Debug, PartialEq, Eq, Structural)]
pub enum SupervisorEvent {
    /// The binary does not exist at its resolved path.
    BinaryMissing,
    /// The operating system refused to spawn the child.
    SpawnFailed,
    /// The child was spawned and is alive.
    Spawned,
    /// A global or per-service shutdown signal arrived while the child ran.
    ShutdownRequested,
    /// The child exited on its own; `shutdown_pending` tells whether a
    /// shutdown signal was already queued when that was noticed.
    ChildExited { success: bool, shutdown_pending: bool },
    /// The child exited within the grace period after the terminate signal.
    ExitedAfterTerminate,
    /// The grace period passed, or waiting failed, after the terminate signal.
    TerminateTimedOut,
    /// The force-killed child was reaped.
    ChildReaped,
    /// The restart delay has passed.
    RestartDelayElapsed,
}

/// What the driver must do next.
#[derive(Clone, Copy, Debug, PartialEq, Eq, Structural)]
pub enum SupervisorAction {
    /// Resolve the binary under the working directory and spawn it.
    Spawn,
    /// Wait for a shutdown signal or for the child to exit.
    AwaitChild,
    /// Send the terminate signal and wait up to the grace period.
    Terminate,
    /// Force-kill the child and reap it.
    ForceKill,
    /// Sleep for the restart delay.
    SleepBeforeRestart,
    /// End the session.
    Exit,
}

/// One decision: the states to publish, in order, and the next action.
pub struct Step {
    pub states: Vec<ServiceState>,
    pub action: SupervisorAction,
    /// Whether the recorded process id must be cleared.
    pub clear_pid: bool,
}

/// The restart policy and progress of one supervisor session.
#[derive(Clone, Copy, Debug)]
pub struct Supervisor {
    pub auto_restart: bool,
    pub restart_limit: Option<u32>,
    pub restart_count: u32,
    pub phase: Phase,
    /// The last state published for the service.
    pub last: ServiceState,
}

/// The action that a phase waits on.
pub open spec fn action_of(p: Phase) -> SupervisorAction {
    match p {
        Phase::Idle => SupervisorAction::Spawn,
        Phase::Spawning => SupervisorAction::Spawn,
        Phase::Running => SupervisorAction::AwaitChild,
        Phase::Terminating => SupervisorAction::Terminate,
        Phase::Killing => SupervisorAction::ForceKill,
        Phase::Backoff => SupervisorAction::SleepBeforeRestart,
        Phase::Done => SupervisorAction::Exit,
    }
}

/// A supervisor in phase `p` with everything else of `s`.
pub open spec fn with(s: Supervisor, p: Phase, count: u32, last: ServiceState) -> Supervisor {
    Supervisor { phase: p, restart_count: count, last, ..s }
}

/// The restart count after one more non-zero exit.
pub open spec fn bumped(count: u32) -> u32 {
    if count < u32::MAX { (count + 1) as u32 } else { count }
}

/// Whether the restart budget is spent at `count`.
pub open spec fn budget_spent(limit: Option<u32>, count: u32) -> bool {
    match limit {
        Some(l) => count >= l,
        None => false,
    }
}

/// The decision taken on the child's own exit: the new supervisor, the states
/// published and the next action.
pub open spec fn on_exit(s: Supervisor, success: bool, shutdown_pending: bool) -> (
    Supervisor,
    Seq<ServiceState>,
    SupervisorAction,
) {
    if shutdown_pending {
        (with(s, Phase::Done, s.restart_count, s.last), seq![], SupervisorAction::Exit)
    } else {
        let count = if success { 0u32 } else { bumped(s.restart_count) };
        let st = if success { ServiceState::Stopped } else { ServiceState::Crashed };
        if !s.auto_restart {
            (with(s, Phase::Done, count, st), seq![st], SupervisorAction::Exit)
        } else if budget_spent(s.restart_limit, count) {
            (
                with(s, Phase::Done, count, ServiceState::Failed),
                seq![st, ServiceState::Failed],
                SupervisorAction::Exit,
            )
        } else {
            (with(s, Phase::Backoff, count, st), seq![st], SupervisorAction::SleepBeforeRestart)
        }
    }
}

/// The transition table of a supervisor session: for a supervisor and an
/// event, the new supervisor, the states published in order, the next action,
/// and whether the process id is cleared. An event that the current phase
/// does not wait for changes nothing.
pub open spec fn transition(s: Supervisor, e: SupervisorEvent) -> (
    Supervisor,
    Seq<ServiceState>,
    SupervisorAction,
    bool,
) {
    match (s.phase, e) {
        (Phase::Spawning, SupervisorEvent::BinaryMissing)
        | (Phase::Spawning, SupervisorEvent::SpawnFailed) => (
            with(s, Phase::Done, s.restart_count, ServiceState::Failed),
            seq![ServiceState::Failed],
            SupervisorAction::Exit,
            false,
        ),
        (Phase::Spawning, SupervisorEvent::Spawned) => (
            with(s, Phase::Running, s.restart_count, ServiceState::Running),
            seq![ServiceState::Running],
            SupervisorAction::AwaitChild,
            false,
        ),
        (Phase::Running, SupervisorEvent::ShutdownRequested) => (
            with(s, Phase::Terminating, s.restart_count, ServiceState::Stopping),
            seq![ServiceState::Stopping],
            SupervisorAction::Terminate,
            false,
        ),
        (Phase::Running, SupervisorEvent::ChildExited { success, shutdown_pending }) => {
            let (n, st, a) = on_exit(s, success, shutdown_pending);
            (n, st, a, true)
        },
        (Phase::Terminating, SupervisorEvent::ExitedAfterTerminate)
        | (Phase::Killing, SupervisorEvent::ChildReaped) => (
            with(s, Phase::Done, s.restart_count, ServiceState::Stopped),
            seq![ServiceState::Stopped],
            SupervisorAction::Exit,
            true,
        ),
        (Phase::Terminating, SupervisorEvent::TerminateTimedOut) => (
            with(s, Phase::Killing, s.restart_count, s.last),
            seq![],
            SupervisorAction::ForceKill,
            false,
        ),
        (Phase::Backoff, SupervisorEvent::RestartDelayElapsed) => (
            with(s, Phase::Spawning, s.restart_count, ServiceState::Starting),
            seq![ServiceState::Starting],
            SupervisorAction::Spawn,
            false,
        ),
        _ => (s, seq![], action_of(s.phase), false),
    }
}

/// The phase and the last published state agree, as every step keeps them.
pub open spec fn consistent(s: Supervisor) -> bool {
    match s.phase {
        Phase::Idle => s.last == ServiceState::Stopped || s.last == ServiceState::Crashed
            || s.last == ServiceState::Failed,
        Phase::Spawning => s.last == ServiceState::Starting,
        Phase::Running => s.last == ServiceState::Running,
        Phase::Terminating | Phase::Killing => s.last == ServiceState::Stopping,
        Phase::Backoff => s.last == ServiceState::Stopped || s.last == ServiceState::Crashed,
        Phase::Done => true,
    }
}

/// The one input on which a step leaves the state machine: a clean exit with
/// a restart budget of zero, which publishes `Stopped` and then `Failed`.
pub open spec fn clean_exit_with_zero_budget(s: Supervisor, e: SupervisorEvent) -> bool {
    s.phase == Phase::Running && s.auto_restart && s.restart_limit == Some(0u32) && e
        == (SupervisorEvent::ChildExited { success: true, shutdown_pending: false })
}

impl Supervisor {
    /// A supervisor for a service whose state is `current`, with its restart policy.
    pub fn new(current: ServiceState, auto_restart: bool, restart_limit: Option<u32>) -> (r: Self)
        ensures
            r.auto_restart == auto_restart,
            r.restart_limit == restart_limit,
            r.restart_count == 0,
            r.phase == Phase::Idle,
            r.last == current,
    {
        Supervisor { auto_restart, restart_limit, restart_count: 0, phase: Phase::Idle, last: current }
    }

    /// Begins the first spawn cycle: publishes `Starting` and asks for a spawn.
    /// Outside the idle phase nothing changes.
    pub fn begin(&mut self) -> (r: Step)
        ensures
            old(self).phase == Phase::Idle ==> {
                &&& *final(self) == with(*old(self), Phase::Spawning, 0, ServiceState::Starting)
                &&& r.states@ == seq![ServiceState::Starting]
                &&& r.action == SupervisorAction::Spawn
            },
            old(self).phase != Phase::Idle ==> {
                &&& *final(self) == *old(self)
                &&& r.states@ == Seq::<ServiceState>::empty()
                &&& r.action == action_of(old(self).phase)
            },
            !r.clear_pid,
    {
        if self.phase == Phase::Idle {
            self.phase = Phase::Spawning;
            self.restart_count = 0;
            self.last = ServiceState::Starting;
            Step { states: vec![ServiceState::Starting], action: SupervisorAction::Spawn, clear_pid: false }
        } else {
            Step { states: Vec::new(), action: self.pending_action(), clear_pid: false }
        }
    }

    /// The action that the current phase waits on.
    pub fn pending_action(&self) -> (r: SupervisorAction)
        ensures
            r == action_of(self.phase),
    {
        match self.phase {
            Phase::Idle => SupervisorAction::Spawn,
            Phase::Spawning => SupervisorAction::Spawn,
            Phase::Running => SupervisorAction::AwaitChild,
            Phase::Terminating => SupervisorAction::Terminate,
            Phase::Killing => SupervisorAction::ForceKill,
            Phase::Backoff => SupervisorAction::SleepBeforeRestart,
            Phase::Done => SupervisorAction::Exit,
        }
    }

    fn publish(&mut self, phase: Phase, st: ServiceState, action: SupervisorAction, clear_pid: bool) -> (r: Step)
        ensures
            *final(self) == with(*old(self), phase, old(self).restart_count, st),
            r.states@ == seq![st],
            r.action == action,
            r.clear_pid == clear_pid,
    {
        self.phase = phase;
        self.last = st;
        Step { states: vec![st], action, clear_pid }
    }

    fn child_exited(&mut self, success: bool, shutdown_pending: bool) -> (r: Step)
        ensures
            (*final(self), r.states@, r.action) == on_exit(*old(self), success, shutdown_pending),
            r.clear_pid,
    {
        if shutdown_pending {
            self.phase = Phase::Done;
            return Step { states: Vec::new(), action: SupervisorAction::Exit, clear_pid: true };
        }
        let st = if success {
            self.restart_count = 0;
            ServiceState::Stopped
        } else {
            if self.restart_count < u32::MAX {
                self.restart_count = self.restart_count + 1;
            }
            ServiceState::Crashed
        };
        self.last = st;
        if !self.auto_restart {
            self.phase = Phase::Done;
            return Step { states: vec![st], action: SupervisorAction::Exit, clear_pid: true };
        }
        let spent = match self.restart_limit {
            Some(limit) => self.restart_count >= limit,
            None => false,
        };
        if spent {
            self.phase = Phase::Done;
            self.last = ServiceState::Failed;
            Step { states: vec![st, ServiceState::Failed], action: SupervisorAction::Exit, clear_pid: true }
        } else {
            self.phase = Phase::Backoff;
            Step { states: vec![st], action: SupervisorAction::SleepBeforeRestart, clear_pid: true }
        }
    }

    /// Takes the decision for one event, as the transition table gives it.
    pub fn handle(&mut self, event: SupervisorEvent) -> (r: Step)
        ensures
            (*final(self), r.states@, r.action, r.clear_pid) == transition(*old(self), event),
    {
        match (self.phase, event) {
            (Phase::Spawning, SupervisorEvent::BinaryMissing)
            | (Phase::Spawning, SupervisorEvent::SpawnFailed) => {
                self.publish(Phase::Done, ServiceState::Failed, SupervisorAction::Exit, false)
            },
            (Phase::Spawning, SupervisorEvent::Spawned) => {
                self.publish(Phase::Running, ServiceState::Running, SupervisorAction::AwaitChild, false)
            },
            (Phase::Running, SupervisorEvent::ShutdownRequested) => {
                self.publish(Phase::Terminating, ServiceState::Stopping, SupervisorAction::Terminate, false)
            },
            (Phase::Running, SupervisorEvent::ChildExited { success, shutdown_pending }) => {
                self.child_exited(success, shutdown_pending)
            },
            (Phase::Terminating, SupervisorEvent::ExitedAfterTerminate)
            | (Phase::Killing, SupervisorEvent::ChildReaped) => {
                self.publish(Phase::Done, ServiceState::Stopped, SupervisorAction::Exit, true)
            },
            (Phase::Terminating, SupervisorEvent::TerminateTimedOut) => {
                self.phase = Phase::Killing;
                Step { states: Vec::new(), action: SupervisorAction::ForceKill, clear_pid: false }
            },
            (Phase::Backoff, SupervisorEvent::RestartDelayElapsed) => {
                self.publish(Phase::Spawning, ServiceState::Starting, SupervisorAction::Spawn, false)
            },
            _ => Step { states: Vec::new(), action: self.pending_action(), clear_pid: false },
        }
    }

    /// Whether the session is over.
    pub fn is_done(&self) -> (r: bool)
        ensures
            r == (self.phase == Phase::Done),
    {
        self.phase == Phase::Done
    }
}

/// Every step of a session publishes a valid path of the lifecycle state
/// machine, starting at the last published state, and leaves phase and state
/// in agreement; the one exception is a clean exit under a restart budget of
/// zero.
pub proof fn lemma_step_follows_state_machine(s: Supervisor, e: SupervisorEvent)
    requires
        consistent(s),
        !clean_exit_with_zero_budget(s, e),
    ensures
        valid_path(s.last, transition(s, e).1),
        path_end(s.last, transition(s, e).1) == transition(s, e).0.last,
        consistent(transition(s, e).0),
{
    let t = transition(s, e);
    reveal_with_fuel(valid_path, 3);
    if t.1.len() == 2 {
        assert(t.1.drop_first() =~= seq![ServiceState::Failed]);
        assert(t.1.drop_first().drop_first() =~= Seq::<ServiceState>::empty());
    } else if t.1.len() == 1 {
        assert(t.1.drop_first() =~= Seq::<ServiceState>::empty());
    }
}

/// Beginning a session from a state that may start publishes a valid path.
pub proof fn lemma_begin_follows_state_machine(s: Supervisor)
    requires
        consistent(s),
        s.phase == Phase::Idle,
    ensures
        valid_path(s.last, seq![ServiceState::Starting]),
        consistent(with(s, Phase::Spawning, 0, ServiceState::Starting)),
{
    reveal_with_fuel(valid_path, 2);
    assert(seq![ServiceState::Starting].drop_first() =~= Seq::<ServiceState>::empty());
}

/// The supervisor and the states published after handling `events` in order.
pub open spec fn run(s: Supervisor, events: Seq<SupervisorEvent>) -> (Supervisor, Seq<ServiceState>)
    decreases events.len(),
{
    if events.len() == 0 {
        (s, Seq::empty())
    } else {
        let (m, published) = run(s, events.drop_last());
        let t = transition(m, events.last());
        (t.0, published + t.1)
    }
}

/// No event of the run is a clean exit under a restart budget of zero.
pub open spec fn avoids_zero_budget_clean_exit(s: Supervisor, events: Seq<SupervisorEvent>) -> bool
    decreases events.len(),
{
    events.len() == 0 || (avoids_zero_budget_clean_exit(s, events.drop_last())
        && !clean_exit_with_zero_budget(run(s, events.drop_last()).0, events.last()))
}

/// Over a whole session the published states form a valid path of the
/// lifecycle state machine, from the state the service was in, and end in the
/// state the supervisor last published.
pub proof fn lemma_session_follows_state_machine(s: Supervisor, events: Seq<SupervisorEvent>)
    requires
        consistent(s),
        avoids_zero_budget_clean_exit(s, events),
    ensures
        valid_path(s.last, run(s, events).1),
        path_end(s.last, run(s, events).1) == run(s, events).0.last,
        consistent(run(s, events).0),
    decreases events.len(),
{
    if events.len() == 0 {
    } else {
        let prev = events.drop_last();
        lemma_session_follows_state_machine(s, prev);
        let (m, published) = run(s, prev);
        lemma_step_follows_state_machine(m, events.last());
        let t = transition(m, events.last());
        lemma_valid_path_append(s.last, published, t.1);
    }
}

} // verus!
