use remote_mouse::fault::ErrorKind;
use remote_mouse::supervisor::{
    listener_step, Failure, ListenerAction, ListenerInput, Supervisor, SupervisorAction,
    SupervisorInput, SupervisorPhase, SHUTDOWN_TIME,
};

#[test]
fn listener_decisions() {
    assert_eq!(
        listener_step(ListenerInput::Cancelled),
        ListenerAction::Stop
    );
    assert_eq!(
        listener_step(ListenerInput::Accepted),
        ListenerAction::Serve
    );
    assert_eq!(
        listener_step(ListenerInput::AcceptFailed(ErrorKind::ConnectionAborted)),
        ListenerAction::Note
    );
    assert_eq!(
        listener_step(ListenerInput::AcceptFailed(ErrorKind::InvalidInput)),
        ListenerAction::Fail
    );
}

#[test]
fn application_runs_until_shutdown() {
    let mut supervisor = Supervisor::new();
    assert_eq!(supervisor.phase, SupervisorPhase::Running);
    assert_eq!(
        supervisor.step(SupervisorInput::TaskFinished),
        SupervisorAction::Watch
    );
    assert_eq!(
        supervisor.step(SupervisorInput::Cancelled),
        SupervisorAction::WatchFor(5)
    );
    assert_eq!(SHUTDOWN_TIME, 5);
    assert_eq!(
        supervisor.step(SupervisorInput::TaskFinished),
        SupervisorAction::Watch
    );
    assert_eq!(
        supervisor.step(SupervisorInput::NoTasks),
        SupervisorAction::Finish
    );
    assert_eq!(supervisor.phase, SupervisorPhase::Stopped);
}

#[test]
fn failed_task_stops_a_running_application() {
    let mut supervisor = Supervisor::new();
    assert_eq!(
        supervisor.step(SupervisorInput::TaskFailed),
        SupervisorAction::Fail(Failure::Task)
    );
    assert_eq!(supervisor.phase, SupervisorPhase::Stopped);
}

#[test]
fn failed_task_stops_a_shutdown() {
    let mut supervisor = Supervisor::new();
    supervisor.step(SupervisorInput::Cancelled);
    assert_eq!(
        supervisor.step(SupervisorInput::TaskFailed),
        SupervisorAction::Fail(Failure::Task)
    );
}

#[test]
fn slow_shutdown_fails() {
    let mut supervisor = Supervisor::new();
    supervisor.step(SupervisorInput::Cancelled);
    assert_eq!(
        supervisor.step(SupervisorInput::TimedOut),
        SupervisorAction::Fail(Failure::Timeout)
    );
}

#[test]
fn failures_describe_themselves() {
    assert_eq!(Failure::Task.message(), None);
    assert_eq!(
        Failure::Timeout.message().unwrap(),
        "Timed out waiting for tasks to terminate"
    );
}
