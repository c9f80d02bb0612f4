use vstd::prelude::*;

verus! {

/// The lifecycle state of a supervised service.
#[derive(Clone, Copy, Debug, PartialEq, Eq, Structural)]
pub enum ServiceState {
    Starting,
    Running,
    Stopping,
    Stopped,
    Crashed,
    Failed,
}

/// The edges of the lifecycle state machine.
pub open spec fn valid_transition(from: ServiceState, to: ServiceState) -> bool {
    match (from, to) {
        (ServiceState::Stopped, ServiceState::Starting) => true,
        (ServiceState::Crashed, ServiceState::Starting) => true,
        (ServiceState::Failed, ServiceState::Starting) => true,
        (ServiceState::Starting, ServiceState::Running) => true,
        (ServiceState::Starting, ServiceState::Failed) => true,
        (ServiceState::Running, ServiceState::Stopping) => true,
        (ServiceState::Stopping, ServiceState::Stopped) => true,
        (ServiceState::Running, ServiceState::Stopped) => true,
        (ServiceState::Running, ServiceState::Crashed) => true,
        (ServiceState::Crashed, ServiceState::Failed) => true,
        _ => false,
    }
}

/// `path` read from `from` onwards follows only edges of the state machine.
pub open spec fn valid_path(from: ServiceState, path: Seq<ServiceState>) -> bool
    decreases path.len(),
{
    if path.len() == 0 {
        true
    } else {
        valid_transition(from, path[0]) && valid_path(path[0], path.drop_first())
    }
}

/// The state a path ends in.
pub open spec fn path_end(from: ServiceState, path: Seq<ServiceState>) -> ServiceState {
    if path.len() == 0 {
        from
    } else {
        path.last()
    }
}

/// Whether a supervisor session has ended for good in this state.
pub open spec fn is_terminal_spec(s: ServiceState) -> bool {
    s == ServiceState::Stopped || s == ServiceState::Failed
}

impl ServiceState {
    /// Whether moving from `self` to `next` is an edge of the state machine.
    pub fn can_transition_to(&self, next: ServiceState) -> (r: bool)
        ensures
            r == valid_transition(*self, next),
    {
        match (*self, next) {
            (ServiceState::Stopped, ServiceState::Starting) => true,
            (ServiceState::Crashed, ServiceState::Starting) => true,
            (ServiceState::Failed, ServiceState::Starting) => true,
            (ServiceState::Starting, ServiceState::Running) => true,
            (ServiceState::Starting, ServiceState::Failed) => true,
            (ServiceState::Running, ServiceState::Stopping) => true,
            (ServiceState::Stopping, ServiceState::Stopped) => true,
            (ServiceState::Running, ServiceState::Stopped) => true,
            (ServiceState::Running, ServiceState::Crashed) => true,
            (ServiceState::Crashed, ServiceState::Failed) => true,
            _ => false,
        }
    }

    /// Whether a supervisor session ends in this state.
    pub fn is_terminal(&self) -> (r: bool)
        ensures
            r == is_terminal_spec(*self),
    {
        match self {
            ServiceState::Stopped | ServiceState::Failed => true,
            _ => false,
        }
    }
}

/// Appending a path that starts where a valid path ends keeps it valid.
pub proof fn lemma_valid_path_append(from: ServiceState, a: Seq<ServiceState>, b: Seq<ServiceState>)
    requires
        valid_path(from, a),
        valid_path(path_end(from, a), b),
    ensures
        valid_path(from, a + b),
        path_end(from, a + b) == path_end(path_end(from, a), b),
    decreases a.len(),
{
    if a.len() == 0 {
        assert(a + b =~= b);
    } else {
        lemma_valid_path_append(a[0], a.drop_first(), b);
        assert((a + b).drop_first() =~= a.drop_first() + b);
        if a.len() > 1 {
            assert(path_end(a[0], a.drop_first()) == a.last());
        }
        if b.len() > 0 {
            assert((a + b).last() == b.last());
        } else {
            assert(a + b =~= a);
        }
    }
}

} // verus!
