use proc_supervisor::launch::LaunchError;
use proc_supervisor::registry::{default_registry, find_dependency, DependencyKind};
use proc_supervisor::supervisor::{Action, DepState, FailReason, ProcHandle, Supervisor};

fn handle(slot: u64, pid: u32) -> ProcHandle {
    ProcHandle { slot, pid }
}

/// Drives startup of the default registry: the model server is not running,
/// both launches succeed, and the readiness waits end as given.
fn start_default(model_ready: bool, backend_ready: bool) -> Supervisor {
    let reg = default_registry();
    let mut s = Supervisor::new(&reg);
    assert_eq!(s.next_action(), Action::CheckRunning(0));
    s.record_running_check(0, false);
    assert_eq!(s.next_action(), Action::Launch(0));
    assert_eq!(s.record_launch(0, Ok(handle(0, 100))), None);
    assert_eq!(s.next_action(), Action::WaitReady(0));
    s.record_readiness(0, model_ready);
    assert_eq!(s.next_action(), Action::Launch(1));
    assert_eq!(s.record_launch(1, Ok(handle(1, 200))), None);
    assert_eq!(s.next_action(), Action::WaitReady(1));
    s.record_readiness(1, backend_ready);
    assert_eq!(s.next_action(), Action::Done);
    s
}

#[test]
fn start_all_brings_both_up() {
    let s = start_default(true, true);
    assert_eq!(s.held_handles(), vec![handle(0, 100), handle(1, 200)]);
    assert!(s.is_ready(0));
    assert!(s.is_ready(1));
    assert_eq!(s.status(1), DepState::Ready);
}

#[test]
fn backend_never_ready_fails_and_is_still_stopped() {
    let mut s = start_default(true, false);
    assert_eq!(s.status(0), DepState::Ready);
    assert_eq!(s.status(1), DepState::Failed(FailReason::ReadinessTimeout));
    assert!(!s.is_ready(1));
    let r = s.stop_all();
    assert_eq!(r, vec![handle(1, 200), handle(0, 100)]);
    assert_eq!(s.status(1), DepState::Stopped);
}

#[test]
fn stop_before_start_is_noop() {
    let reg = default_registry();
    let mut s = Supervisor::new(&reg);
    assert!(s.stop_all().is_empty());
    assert!(s.shut_down());
    assert_eq!(s.status(0), DepState::NotStarted);
    assert_eq!(s.status(1), DepState::NotStarted);
    assert_eq!(s.next_action(), Action::Done);
}

#[test]
fn running_model_server_is_never_launched_or_stopped() {
    let reg = default_registry();
    let mut s = Supervisor::new(&reg);
    s.record_running_check(0, true);
    assert_eq!(s.status(0), DepState::External);
    assert_eq!(s.next_action(), Action::Launch(1));
    s.record_launch(1, Ok(handle(7, 700)));
    s.record_readiness(1, true);
    assert_eq!(s.next_action(), Action::Done);
    assert_eq!(s.record_launch(0, Ok(handle(9, 900))), Some(handle(9, 900)));
    assert_eq!(s.status(0), DepState::External);
    assert_eq!(s.stop_all(), vec![handle(7, 700)]);
    assert_eq!(s.status(0), DepState::External);
}

#[test]
fn scan_result_for_owned_dependency_changes_nothing() {
    let reg = default_registry();
    let mut s = Supervisor::new(&reg);
    s.record_running_check(1, true);
    assert_eq!(s.status(1), DepState::NotStarted);
    assert_eq!(s.next_action(), Action::CheckRunning(0));
}

#[test]
fn dependencies_found_by_name() {
    let reg = default_registry();
    assert_eq!(find_dependency(&reg, &"ollama".to_string()), Some(0));
    assert_eq!(find_dependency(&reg, &"backend".to_string()), Some(1));
    assert_eq!(find_dependency(&reg, &"frontend".to_string()), None);
}

#[test]
fn second_stop_signals_nothing() {
    let mut s = start_default(true, true);
    assert_eq!(s.stop_all(), vec![handle(1, 200), handle(0, 100)]);
    assert!(s.stop_all().is_empty());
    assert!(s.held_handles().is_empty());
}

#[test]
fn launch_failure_fails_only_that_dependency() {
    let reg = default_registry();
    let mut s = Supervisor::new(&reg);
    s.record_running_check(0, false);
    assert_eq!(s.record_launch(0, Err(LaunchError::SpawnFailed)), None);
    assert_eq!(s.status(0), DepState::Failed(FailReason::Launch(LaunchError::SpawnFailed)));
    assert_eq!(s.next_action(), Action::Launch(1));
    s.record_launch(1, Ok(handle(1, 200)));
    s.record_readiness(1, true);
    assert!(s.is_ready(1));
    assert_eq!(s.stop_all(), vec![handle(1, 200)]);
}

#[test]
fn launch_after_shutdown_is_handed_back() {
    let reg = default_registry();
    let mut s = Supervisor::new(&reg);
    s.record_running_check(0, false);
    assert!(s.stop_all().is_empty());
    assert_eq!(s.record_launch(0, Ok(handle(3, 300))), Some(handle(3, 300)));
    assert_eq!(s.status(0), DepState::Stopped);
    assert!(s.held_handles().is_empty());
}

#[test]
fn readiness_after_shutdown_keeps_stopped() {
    let reg = default_registry();
    let mut s = Supervisor::new(&reg);
    s.record_running_check(0, false);
    s.record_launch(0, Ok(handle(0, 100)));
    assert_eq!(s.stop_all(), vec![handle(0, 100)]);
    s.record_readiness(0, true);
    assert_eq!(s.status(0), DepState::Stopped);
}

#[test]
fn registry_lists_model_server_then_backend() {
    let reg = default_registry();
    assert_eq!(reg.len(), 2);
    assert_eq!(reg[0].name, "ollama");
    assert_eq!(reg[0].kind, DependencyKind::Optional);
    assert_eq!(reg[1].name, "backend");
    assert_eq!(reg[1].kind, DependencyKind::Owned);
    assert_eq!(reg[1].script.as_deref(), Some("launcher.sh"));
    let s = Supervisor::new(&reg);
    assert_eq!(s.len(), 2);
}

#[test]
fn exited_process_is_marked_and_still_signalled_once() {
    let mut s = start_default(true, true);
    assert_eq!(s.record_exit(1), Some(1));
    assert_eq!(s.status(1), DepState::Exited);
    assert!(!s.is_ready(1));
    assert_eq!(s.record_exit(42), None);
    assert_eq!(s.status(0), DepState::Ready);
    assert_eq!(s.stop_all(), vec![handle(1, 200), handle(0, 100)]);
    assert_eq!(s.record_exit(1), None);
}
