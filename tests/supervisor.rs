use dockless::state::ServiceState;
use dockless::supervisor::{Phase, Step, Supervisor, SupervisorAction, SupervisorEvent};

fn follow(machine: &mut Supervisor, observed: &mut Vec<ServiceState>, step: Step) -> SupervisorAction {
    for s in step.states {
        let last = *observed.last().unwrap();
        assert!(last.can_transition_to(s), "{:?} -> {:?}", last, s);
        observed.push(s);
    }
    assert_eq!(machine.last, *observed.last().unwrap());
    step.action
}

#[test]
fn crash_loop_stops_after_budget() {
    let mut m = Supervisor::new(ServiceState::Stopped, true, Some(2));
    let mut seen = vec![ServiceState::Stopped];
    let mut spawns = 0;
    let mut action = { let s = m.begin(); follow(&mut m, &mut seen, s) };
    loop {
        let event = match action {
            SupervisorAction::Spawn => {
                spawns += 1;
                SupervisorEvent::Spawned
            }
            SupervisorAction::AwaitChild => SupervisorEvent::ChildExited { success: false, shutdown_pending: false },
            SupervisorAction::SleepBeforeRestart => SupervisorEvent::RestartDelayElapsed,
            SupervisorAction::Exit => break,
            other => panic!("unexpected {:?}", other),
        };
        let s = m.handle(event);
        action = follow(&mut m, &mut seen, s);
    }
    assert_eq!(spawns, 2);
    assert_eq!(seen.iter().filter(|s| **s == ServiceState::Crashed).count(), 2);
    assert_eq!(*seen.last().unwrap(), ServiceState::Failed);
    assert_eq!(m.restart_count, 2);
    assert!(m.is_done());
}

#[test]
fn clean_exit_resets_restart_count() {
    let mut m = Supervisor::new(ServiceState::Stopped, true, Some(2));
    let mut seen = vec![ServiceState::Stopped];
    let s = m.begin();
    follow(&mut m, &mut seen, s);
    let s = m.handle(SupervisorEvent::Spawned);
    follow(&mut m, &mut seen, s);
    let s = m.handle(SupervisorEvent::ChildExited { success: false, shutdown_pending: false });
    assert_eq!(follow(&mut m, &mut seen, s), SupervisorAction::SleepBeforeRestart);
    assert_eq!(m.restart_count, 1);
    let s = m.handle(SupervisorEvent::RestartDelayElapsed);
    follow(&mut m, &mut seen, s);
    let s = m.handle(SupervisorEvent::Spawned);
    follow(&mut m, &mut seen, s);
    let s = m.handle(SupervisorEvent::ChildExited { success: true, shutdown_pending: false });
    assert_eq!(follow(&mut m, &mut seen, s), SupervisorAction::SleepBeforeRestart);
    assert_eq!(m.restart_count, 0);
    assert_eq!(m.last, ServiceState::Stopped);
    let s = m.handle(SupervisorEvent::RestartDelayElapsed);
    follow(&mut m, &mut seen, s);
    let s = m.handle(SupervisorEvent::Spawned);
    follow(&mut m, &mut seen, s);
    let s = m.handle(SupervisorEvent::ChildExited { success: false, shutdown_pending: false });
    assert_eq!(follow(&mut m, &mut seen, s), SupervisorAction::SleepBeforeRestart);
    assert_eq!(m.restart_count, 1);
    assert_eq!(m.last, ServiceState::Crashed);
}

#[test]
fn clean_exit_first_then_crash_is_first_of_budget() {
    let mut m = Supervisor::new(ServiceState::Stopped, true, Some(2));
    m.begin();
    m.handle(SupervisorEvent::Spawned);
    let s = m.handle(SupervisorEvent::ChildExited { success: true, shutdown_pending: false });
    assert_eq!(s.states, vec![ServiceState::Stopped]);
    assert!(s.clear_pid);
    m.handle(SupervisorEvent::RestartDelayElapsed);
    m.handle(SupervisorEvent::Spawned);
    let s = m.handle(SupervisorEvent::ChildExited { success: false, shutdown_pending: false });
    assert_eq!(s.states, vec![ServiceState::Crashed]);
    assert_eq!(s.action, SupervisorAction::SleepBeforeRestart);
}

#[test]
fn graceful_stop_escalates_to_force_kill() {
    let mut m = Supervisor::new(ServiceState::Stopped, true, None);
    let mut seen = vec![ServiceState::Stopped];
    let s = m.begin();
    follow(&mut m, &mut seen, s);
    let s = m.handle(SupervisorEvent::Spawned);
    follow(&mut m, &mut seen, s);
    let s = m.handle(SupervisorEvent::ShutdownRequested);
    assert_eq!(follow(&mut m, &mut seen, s), SupervisorAction::Terminate);
    let s = m.handle(SupervisorEvent::TerminateTimedOut);
    assert!(s.states.is_empty());
    assert_eq!(follow(&mut m, &mut seen, s), SupervisorAction::ForceKill);
    assert_eq!(m.phase, Phase::Killing);
    let s = m.handle(SupervisorEvent::ChildReaped);
    assert!(s.clear_pid);
    assert_eq!(follow(&mut m, &mut seen, s), SupervisorAction::Exit);
    assert_eq!(*seen.last().unwrap(), ServiceState::Stopped);
    assert_eq!(
        seen,
        vec![
            ServiceState::Stopped,
            ServiceState::Starting,
            ServiceState::Running,
            ServiceState::Stopping,
            ServiceState::Stopped
        ]
    );
}

#[test]
fn graceful_stop_when_child_obeys() {
    let mut m = Supervisor::new(ServiceState::Crashed, true, None);
    m.begin();
    m.handle(SupervisorEvent::Spawned);
    m.handle(SupervisorEvent::ShutdownRequested);
    let s = m.handle(SupervisorEvent::ExitedAfterTerminate);
    assert_eq!(s.states, vec![ServiceState::Stopped]);
    assert_eq!(s.action, SupervisorAction::Exit);
}

#[test]
fn missing_binary_fails_session() {
    let mut m = Supervisor::new(ServiceState::Stopped, true, None);
    m.begin();
    let s = m.handle(SupervisorEvent::BinaryMissing);
    assert_eq!(s.states, vec![ServiceState::Failed]);
    assert_eq!(s.action, SupervisorAction::Exit);
    let mut m2 = Supervisor::new(ServiceState::Failed, true, None);
    m2.begin();
    let s = m2.handle(SupervisorEvent::SpawnFailed);
    assert_eq!(s.states, vec![ServiceState::Failed]);
}

#[test]
fn exit_with_shutdown_pending_ends_without_restart() {
    let mut m = Supervisor::new(ServiceState::Stopped, true, None);
    m.begin();
    m.handle(SupervisorEvent::Spawned);
    let s = m.handle(SupervisorEvent::ChildExited { success: false, shutdown_pending: true });
    assert!(s.states.is_empty());
    assert_eq!(s.action, SupervisorAction::Exit);
    assert!(s.clear_pid);
    assert_eq!(m.restart_count, 0);
}

#[test]
fn no_auto_restart_ends_after_exit() {
    let mut m = Supervisor::new(ServiceState::Stopped, false, None);
    m.begin();
    m.handle(SupervisorEvent::Spawned);
    let s = m.handle(SupervisorEvent::ChildExited { success: false, shutdown_pending: false });
    assert_eq!(s.states, vec![ServiceState::Crashed]);
    assert_eq!(s.action, SupervisorAction::Exit);
}

#[test]
fn unexpected_event_changes_nothing() {
    let mut m = Supervisor::new(ServiceState::Stopped, true, None);
    m.begin();
    let s = m.handle(SupervisorEvent::RestartDelayElapsed);
    assert!(s.states.is_empty());
    assert_eq!(s.action, SupervisorAction::Spawn);
    assert_eq!(m.phase, Phase::Spawning);
    let s = m.begin();
    assert!(s.states.is_empty());
    assert_eq!(m.pending_action(), SupervisorAction::Spawn);
}

#[test]
fn state_machine_edges() {
    assert!(ServiceState::Stopped.can_transition_to(ServiceState::Starting));
    assert!(ServiceState::Crashed.can_transition_to(ServiceState::Failed));
    assert!(ServiceState::Running.can_transition_to(ServiceState::Crashed));
    assert!(!ServiceState::Running.can_transition_to(ServiceState::Starting));
    assert!(!ServiceState::Stopped.can_transition_to(ServiceState::Failed));
    assert!(ServiceState::Stopped.is_terminal());
    assert!(ServiceState::Failed.is_terminal());
    assert!(!ServiceState::Crashed.is_terminal());
}
