use rtos_core::StatusType;
use rtos_core::supervisor::{OsState, Supervisor};

#[test]
fn boot_walks_the_only_path() {
    let mut os = Supervisor::new();
    assert_eq!(os.state, OsState::Reset);
    os.initialize();
    assert_eq!(os.state, OsState::Initializing);
    assert_eq!(os.ActivateTask(), StatusType::EOk);
    assert_eq!(os.state, OsState::Running);
    os.TerminateTask();
    assert_eq!(os.state, OsState::Idle);
}
