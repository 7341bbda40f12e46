//! The tasks that the application consists of: the listeners, and the watch over all of them.

use crate::fault::{ErrorKind, fatal_kind, is_fatal};
use vstd::prelude::*;

verus! {

/// What has happened on a listener.
#[derive(Clone, Copy, Debug, Eq, Hash, PartialEq, Structural)]
pub enum ListenerInput {
    /// A shutdown has been scheduled.
    Cancelled,
    /// A connection was accepted.
    Accepted,
    /// Accepting a connection failed.
    AcceptFailed(ErrorKind),
}

/// What is to be done on a listener.
#[derive(Clone, Copy, Debug, Eq, Hash, PartialEq, Structural)]
pub enum ListenerAction {
    /// Stop accepting connections.
    Stop,
    /// Serve the accepted connection, and accept more.
    Serve,
    /// Note the failure in the log, and accept more.
    Note,
    /// Stop the application because of the failure.
    Fail,
}

/// What is to be done on a listener after `input`.
pub open spec fn listener_verdict(input: ListenerInput) -> ListenerAction {
    match input {
        ListenerInput::Cancelled => ListenerAction::Stop,
        ListenerInput::Accepted => ListenerAction::Serve,
        ListenerInput::AcceptFailed(kind) => if fatal_kind(kind) {
            ListenerAction::Fail
        } else {
            ListenerAction::Note
        },
    }
}

/// Decides what is to be done on a listener.
pub fn listener_step(input: ListenerInput) -> (action: ListenerAction)
    ensures
        action == listener_verdict(input),
{
    match input {
        ListenerInput::Cancelled => ListenerAction::Stop,
        ListenerInput::Accepted => ListenerAction::Serve,
        ListenerInput::AcceptFailed(kind) => {
            if is_fatal(kind) {
                ListenerAction::Fail
            } else {
                ListenerAction::Note
            }
        },
    }
}

/// How long, in seconds, the tasks have to terminate once a shutdown has been scheduled.
pub const SHUTDOWN_TIME: u64 = 5;

/// The stage that the application is at.
#[derive(Clone, Copy, Debug, Eq, Hash, PartialEq, Structural)]
pub enum SupervisorPhase {
    /// The application is running.
    Running,
    /// The application is waiting for its tasks to terminate.
    ShuttingDown,
    /// The application has stopped.
    Stopped,
}

/// What has happened to the tasks.
#[derive(Clone, Copy, Debug, Eq, Hash, PartialEq, Structural)]
pub enum SupervisorInput {
    /// A shutdown has been scheduled.
    Cancelled,
    /// A task terminated normally.
    TaskFinished,
    /// A task terminated and returned an error, or panicked, or was cancelled.
    TaskFailed,
    /// There are no tasks left.
    NoTasks,
    /// The time limit has been reached and some tasks have failed to terminate.
    TimedOut,
}

/// Why the application fails.
#[derive(Clone, Copy, Debug, Eq, Hash, PartialEq, Structural)]
pub enum Failure {
    /// A task has failed, which is the error to report.
    Task,
    /// The tasks have not terminated in time.
    Timeout,
}

impl Failure {
    /// The text that describes a failure of the supervisor itself; for the failure of a task there
    /// is none, since the task has its own.
    pub fn message(self) -> (text: Option<String>)
        ensures
            self == Failure::Task ==> text is None,
            self == Failure::Timeout ==> text is Some && text->Some_0@
                == "Timed out waiting for tasks to terminate"@,
    {
        match self {
            Failure::Task => None,
            Failure::Timeout => Some("Timed out waiting for tasks to terminate".to_owned()),
        }
    }
}

/// What is to be done about the tasks.
#[derive(Clone, Copy, Debug, Eq, Hash, PartialEq, Structural)]
pub enum SupervisorAction {
    /// Go on watching them.
    Watch,
    /// Watch them until they are gone, but no longer than this many seconds from now on.
    WatchFor(u64),
    /// Return: all the tasks are gone.
    Finish,
    /// Return an error at once, which aborts whatever tasks are left.
    Fail(Failure),
}

/// The watch over the tasks of the application.
#[derive(Clone, Copy, Debug, Eq, Hash, PartialEq, Structural)]
pub struct Supervisor {
    /// The stage that the application is at.
    pub phase: SupervisorPhase,
}

impl Supervisor {
    /// Whether `input` can happen now. A running application always has the tasks that wait for a
    /// termination signal, and it is only watched against the clock while it is shutting down.
    pub open spec fn expects(self, input: SupervisorInput) -> bool {
        match self.phase {
            SupervisorPhase::Running => input != SupervisorInput::NoTasks && input
                != SupervisorInput::TimedOut,
            SupervisorPhase::ShuttingDown => input != SupervisorInput::Cancelled,
            SupervisorPhase::Stopped => false,
        }
    }
}

/// The state of the application after `input`, and what is to be done.
pub open spec fn supervisor_step(supervisor: Supervisor, input: SupervisorInput) -> (
    Supervisor,
    SupervisorAction,
) {
    let stopped = Supervisor { phase: SupervisorPhase::Stopped };
    match input {
        SupervisorInput::Cancelled => (
            Supervisor { phase: SupervisorPhase::ShuttingDown },
            SupervisorAction::WatchFor(SHUTDOWN_TIME),
        ),
        SupervisorInput::TaskFinished => (supervisor, SupervisorAction::Watch),
        SupervisorInput::TaskFailed => (stopped, SupervisorAction::Fail(Failure::Task)),
        SupervisorInput::NoTasks => (stopped, SupervisorAction::Finish),
        SupervisorInput::TimedOut => (stopped, SupervisorAction::Fail(Failure::Timeout)),
    }
}

impl Supervisor {
    /// Starts watching a running application.
    pub fn new() -> (supervisor: Self)
        ensures
            supervisor == (Supervisor { phase: SupervisorPhase::Running }),
    {
        Supervisor { phase: SupervisorPhase::Running }
    }

    /// Takes note of what has happened to the tasks, and returns what is to be done.
    pub fn step(&mut self, input: SupervisorInput) -> (action: SupervisorAction)
        requires
            old(self).expects(input),
        ensures
            (*final(self), action) == supervisor_step(*old(self), input),
    {
        match input {
            SupervisorInput::Cancelled => {
                // Wait up to five seconds for all the tasks to terminate before aborting them.
                self.phase = SupervisorPhase::ShuttingDown;
                SupervisorAction::WatchFor(SHUTDOWN_TIME)
            },
            SupervisorInput::TaskFinished => SupervisorAction::Watch,
            SupervisorInput::TaskFailed => {
                // Tasks should only fail in case of fatal problems. Abort as quickly as possible.
                self.phase = SupervisorPhase::Stopped;
                SupervisorAction::Fail(Failure::Task)
            },
            SupervisorInput::NoTasks => {
                self.phase = SupervisorPhase::Stopped;
                SupervisorAction::Finish
            },
            SupervisorInput::TimedOut => {
                // Returning an error forcibly aborts the tasks that are left.
                self.phase = SupervisorPhase::Stopped;
                SupervisorAction::Fail(Failure::Timeout)
            },
        }
    }
}

/// The state of the application and the last thing to be done, after a sequence of happenings.
pub open spec fn supervised(inputs: Seq<SupervisorInput>) -> (Supervisor, SupervisorAction)
    decreases inputs.len(),
{
    if inputs.len() == 0 {
        (Supervisor { phase: SupervisorPhase::Running }, SupervisorAction::Watch)
    } else {
        supervisor_step(supervised(inputs.drop_last()).0, inputs.last())
    }
}

/// Whether each of `inputs` can happen when it does.
pub open spec fn possible_history(inputs: Seq<SupervisorInput>) -> bool
    decreases inputs.len(),
{
    inputs.len() == 0 || (possible_history(inputs.drop_last()) && supervised(
        inputs.drop_last(),
    ).0.expects(inputs.last()))
}

/// What the state of the application says about its past.
proof fn lemma_history(inputs: Seq<SupervisorInput>)
    requires
        possible_history(inputs),
    ensures
        ({
            let phase = supervised(inputs).0.phase;
            &&& phase == SupervisorPhase::Running ==> forall|i: int|
                0 <= i < inputs.len() ==> (#[trigger] inputs[i]) == SupervisorInput::TaskFinished
            &&& phase == SupervisorPhase::ShuttingDown ==> exists|c: int|
                #![trigger inputs[c]]
                0 <= c < inputs.len() && inputs[c] == SupervisorInput::Cancelled && forall|i: int|
                    0 <= i < inputs.len() && i != c ==> (#[trigger] inputs[i])
                        == SupervisorInput::TaskFinished
        }),
    decreases inputs.len(),
{
    if inputs.len() > 0 {
        let earlier = inputs.drop_last();
        lemma_history(earlier);
        assert(forall|i: int| 0 <= i < earlier.len() ==> #[trigger] inputs[i] == earlier[i]);
        let last = inputs.len() - 1;
        let before = supervised(earlier).0.phase;
        let after = supervised(inputs).0.phase;
        if after == SupervisorPhase::ShuttingDown {
            if before == SupervisorPhase::Running {
                assert(inputs[last] == SupervisorInput::Cancelled);
            } else {
                let c = choose|c: int|
                    #![trigger earlier[c]]
                    0 <= c < earlier.len() && earlier[c] == SupervisorInput::Cancelled && forall|
                        i: int,
                    |
                        0 <= i < earlier.len() && i != c ==> (#[trigger] earlier[i])
                            == SupervisorInput::TaskFinished;
                assert(inputs[c] == SupervisorInput::Cancelled);
                assert(inputs[last] == SupervisorInput::TaskFinished);
                assert forall|i: int| 0 <= i < inputs.len() && i != c implies (#[trigger] inputs[i])
                    == SupervisorInput::TaskFinished by {
                    if i < last {
                        assert(inputs[i] == earlier[i]);
                    }
                }
            }
        }
    }
}

/// The application ends well only if a shutdown was scheduled, after which every task terminated in
/// time; and no task has failed before or after.
pub proof fn law_good_end_follows_shutdown(inputs: Seq<SupervisorInput>)
    requires
        possible_history(inputs),
        supervised(inputs).1 == SupervisorAction::Finish,
    ensures
        inputs.contains(SupervisorInput::Cancelled),
        !inputs.contains(SupervisorInput::TaskFailed),
        !inputs.contains(SupervisorInput::TimedOut),
        inputs.last() == SupervisorInput::NoTasks,
{
    let earlier = inputs.drop_last();
    lemma_history(earlier);
    let c = choose|c: int|
        #![trigger earlier[c]]
        0 <= c < earlier.len() && earlier[c] == SupervisorInput::Cancelled && forall|i: int|
            0 <= i < earlier.len() && i != c ==> (#[trigger] earlier[i])
                == SupervisorInput::TaskFinished;
    assert(inputs[c] == SupervisorInput::Cancelled);
    assert forall|i: int| 0 <= i < inputs.len() implies (#[trigger] inputs[i])
        != SupervisorInput::TaskFailed && inputs[i] != SupervisorInput::TimedOut by {
        if i < earlier.len() {
            assert(inputs[i] == earlier[i]);
        }
    }
}

/// The failure of a task stops the application at once, whatever it is doing.
pub proof fn law_task_failure_stops_everything(supervisor: Supervisor)
    ensures
        supervisor_step(supervisor, SupervisorInput::TaskFailed) == (
            Supervisor { phase: SupervisorPhase::Stopped },
            SupervisorAction::Fail(Failure::Task),
        ),
{
}

/// A listener stops when a shutdown is scheduled, serves every connection, and survives a failure to
/// accept one exactly if the failure is not fatal.
pub proof fn law_listener_goes_on(input: ListenerInput)
    ensures
        listener_verdict(input) is Stop <==> input is Cancelled,
        listener_verdict(input) is Serve <==> input is Accepted,
        listener_verdict(input) is Fail <==> (input matches ListenerInput::AcceptFailed(kind)
            && fatal_kind(kind)),
        listener_verdict(input) is Note <==> (input matches ListenerInput::AcceptFailed(kind)
            && !fatal_kind(kind)),
{
}

/// What can happen to a running application, and to one that is shutting down.
pub proof fn law_supervisor_expectations(supervisor: Supervisor, input: SupervisorInput)
    ensures
        supervisor.phase is Running ==> (supervisor.expects(input) <==> input is Cancelled
            || input is TaskFinished || input is TaskFailed),
        supervisor.phase is ShuttingDown ==> (supervisor.expects(input) <==> input is NoTasks
            || input is TimedOut || input is TaskFinished || input is TaskFailed),
        supervisor.phase is Stopped ==> !supervisor.expects(input),
{
}

/// A shutdown gives the tasks five seconds; a task that ends well changes nothing; the application ends
/// well exactly when all the tasks are gone, and fails exactly when a task fails or the time is up.
pub proof fn law_supervision(supervisor: Supervisor, input: SupervisorInput)
    requires
        supervisor.expects(input),
    ensures
        ({
            let (after, action) = supervisor_step(supervisor, input);
            &&& action == SupervisorAction::WatchFor(5) <==> input is Cancelled
            &&& action is Watch <==> input is TaskFinished
            &&& action is Finish <==> input is NoTasks
            &&& action == SupervisorAction::Fail(Failure::Task) <==> input is TaskFailed
            &&& action == SupervisorAction::Fail(Failure::Timeout) <==> input is TimedOut
            &&& input is Cancelled ==> after.phase is ShuttingDown
            &&& input is TaskFinished ==> after.phase == supervisor.phase
            &&& input is NoTasks || input is TaskFailed || input is TimedOut
                ==> after.phase is Stopped
        }),
{
}

} // verus!
