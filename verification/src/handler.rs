//! The execution of mouse events on a display.
//!
//! Motion is accumulated and sent to the display no more often than it has to be: before a click,
//! when the accumulated motion would overflow, and when there is nothing else to do. The display
//! is driven one command at a time: [`EventHandler`] names the next command, and is told whether it
//! succeeded before it names another.

use crate::event::MouseEvent;
use vstd::prelude::*;

verus! {

/// A command for the display.
#[derive(Clone, Copy, Debug, Eq, Hash, PartialEq, Structural)]
pub enum DisplayCommand {
    /// Move the pointer by the given distance.
    Warp(i16, i16),
    /// Click the button.
    Click,
}

/// What is left to do once accumulated motion has reached the display.
#[derive(Clone, Copy, Debug, Eq, Hash, PartialEq, Structural)]
pub enum After {
    /// Nothing.
    Nothing,
    /// Click.
    Click,
    /// Start accumulating anew, with this motion.
    Move(i16, i16),
}

/// How far the handling of an event has come.
#[derive(Clone, Copy, Debug, Eq, Hash, PartialEq, Structural)]
pub enum Stage {
    /// No event is being handled.
    Idle,
    /// The display is moving the pointer.
    Warping(After),
    /// The display is clicking.
    Clicking,
}

/// A handler for mouse events.
#[derive(Clone, Copy, Debug, Eq, Hash, PartialEq)]
pub struct EventHandler {
    /// The mouse motion accumulated so far.
    motion: (i16, i16),
    /// How far the handling of the current event has come.
    stage: Stage,
}

/// The state of an [`EventHandler`].
pub struct HandlerState {
    /// The mouse motion accumulated so far.
    pub motion: (i16, i16),
    /// How far the handling of the current event has come.
    pub stage: Stage,
}

impl View for EventHandler {
    type V = HandlerState;

    closed spec fn view(&self) -> HandlerState {
        HandlerState { motion: self.motion, stage: self.stage }
    }
}

/// Whether `motion` can grow by `(x, y)` without leaving the range of its coordinates.
pub open spec fn accumulates(motion: (i16, i16), x: i16, y: i16) -> bool {
    i16::MIN <= motion.0 + x <= i16::MAX && i16::MIN <= motion.1 + y <= i16::MAX
}

/// The state after an event has arrived, and the first command that it calls for.
pub open spec fn event_begun(state: HandlerState, event: MouseEvent) -> (
    HandlerState,
    Option<DisplayCommand>,
) {
    match event {
        MouseEvent::Click => if state.motion == (0i16, 0i16) {
            (HandlerState { stage: Stage::Clicking, ..state }, Some(DisplayCommand::Click))
        } else {
            warp_begun(state, After::Click)
        },
        MouseEvent::Move(x, y) => if accumulates(state.motion, x, y) {
            (
                HandlerState {
                    motion: ((state.motion.0 + x) as i16, (state.motion.1 + y) as i16),
                    ..state
                },
                None,
            )
        } else {
            warp_begun(state, After::Move(x, y))
        },
    }
}

/// The state after the display has been asked to move the pointer by the accumulated motion.
pub open spec fn warp_begun(state: HandlerState, after: After) -> (
    HandlerState,
    Option<DisplayCommand>,
) {
    (
        HandlerState { stage: Stage::Warping(after), ..state },
        Some(DisplayCommand::Warp(state.motion.0, state.motion.1)),
    )
}

/// The state after a flush has been asked for, and the command that it calls for.
pub open spec fn flush_begun(state: HandlerState) -> (HandlerState, Option<DisplayCommand>) {
    if state.motion == (0i16, 0i16) {
        (state, None)
    } else {
        warp_begun(state, After::Nothing)
    }
}

/// The state after the display has carried out a command, and the next command.
pub open spec fn command_done(state: HandlerState) -> (HandlerState, Option<DisplayCommand>) {
    match state.stage {
        Stage::Warping(After::Nothing) => (
            HandlerState { motion: (0, 0), stage: Stage::Idle },
            None,
        ),
        Stage::Warping(After::Click) => (
            HandlerState { motion: (0, 0), stage: Stage::Clicking },
            Some(DisplayCommand::Click),
        ),
        Stage::Warping(After::Move(x, y)) => (
            HandlerState { motion: (x, y), stage: Stage::Idle },
            None,
        ),
        Stage::Clicking => (HandlerState { stage: Stage::Idle, ..state }, None),
        Stage::Idle => (state, None),
    }
}

/// The state after the display has failed to carry out a command.
pub open spec fn command_failed(state: HandlerState) -> HandlerState {
    HandlerState { stage: Stage::Idle, ..state }
}

impl EventHandler {
    /// Constructs a new `EventHandler`.
    pub fn new() -> (handler: Self)
        ensures
            handler@ == (HandlerState { motion: (0, 0), stage: Stage::Idle }),
    {
        EventHandler { motion: (0, 0), stage: Stage::Idle }
    }

    /// Handles an event.
    ///
    /// Returns the first command that the display has to carry out, or `None` if the event is
    /// already dealt with.
    pub fn handle_event(&mut self, event: MouseEvent) -> (command: Option<DisplayCommand>)
        requires
            old(self)@.stage == Stage::Idle,
        ensures
            (final(self)@, command) == event_begun(old(self)@, event),
    {
        match event {
            MouseEvent::Click => {
                // Flush any cached motion first before clicking.
                if self.motion.0 != 0 || self.motion.1 != 0 {
                    self.stage = Stage::Warping(After::Click);
                    Some(DisplayCommand::Warp(self.motion.0, self.motion.1))
                } else {
                    self.stage = Stage::Clicking;
                    Some(DisplayCommand::Click)
                }
            },
            MouseEvent::Move(x, y) => {
                // To avoid spamming the X server with too many warp requests, accumulate incoming
                // motion and don't send it to the X server until a flush or click event, or if the
                // accumulated motion overflows the i16 data type.
                match (self.motion.0.checked_add(x), self.motion.1.checked_add(y)) {
                    (Some(sum_x), Some(sum_y)) => {
                        self.motion = (sum_x, sum_y);
                        None
                    },
                    _ => {
                        self.stage = Stage::Warping(After::Move(x, y));
                        Some(DisplayCommand::Warp(self.motion.0, self.motion.1))
                    },
                }
            },
        }
    }

    /// Flushes any accumulated motion.
    ///
    /// Returns the command that the display has to carry out, or `None` if there is no motion to
    /// send.
    pub fn flush(&mut self) -> (command: Option<DisplayCommand>)
        requires
            old(self)@.stage == Stage::Idle,
        ensures
            (final(self)@, command) == flush_begun(old(self)@),
    {
        // Only actually send the motion if there is any to send.
        if self.motion.0 != 0 || self.motion.1 != 0 {
            self.stage = Stage::Warping(After::Nothing);
            Some(DisplayCommand::Warp(self.motion.0, self.motion.1))
        } else {
            None
        }
    }

    /// Notes that the display has carried out the last command, and returns the next one, or
    /// `None` if the event is dealt with.
    pub fn succeeded(&mut self) -> (command: Option<DisplayCommand>)
        requires
            old(self)@.stage != Stage::Idle,
        ensures
            (final(self)@, command) == command_done(old(self)@),
    {
        match self.stage {
            Stage::Warping(After::Nothing) => {
                self.motion = (0, 0);
                self.stage = Stage::Idle;
                None
            },
            Stage::Warping(After::Click) => {
                self.motion = (0, 0);
                self.stage = Stage::Clicking;
                Some(DisplayCommand::Click)
            },
            Stage::Warping(After::Move(x, y)) => {
                self.motion = (x, y);
                self.stage = Stage::Idle;
                None
            },
            Stage::Clicking => {
                self.stage = Stage::Idle;
                None
            },
            Stage::Idle => None,
        }
    }

    /// Notes that the display has failed to carry out the last command: the rest of the event is
    /// given up, and motion that has not reached the display stays accumulated.
    pub fn failed(&mut self)
        requires
            old(self)@.stage != Stage::Idle,
        ensures
            final(self)@ == command_failed(old(self)@),
    {
        self.stage = Stage::Idle;
    }
}

/// Something that a handler is asked to do.
pub enum Task {
    /// Handle an event.
    Handle(MouseEvent),
    /// Flush the accumulated motion.
    Flush,
}

/// The state after a task has been asked for, and the first command that it calls for.
pub open spec fn task_begun(state: HandlerState, task: Task) -> (
    HandlerState,
    Option<DisplayCommand>,
) {
    match task {
        Task::Handle(event) => event_begun(state, event),
        Task::Flush => flush_begun(state),
    }
}

/// How many commands can still follow the current one.
pub open spec fn commands_left(stage: Stage) -> nat {
    match stage {
        Stage::Idle => 0,
        Stage::Clicking => 1,
        Stage::Warping(_) => 2,
    }
}

/// The final state and all the commands, once the display has carried out `command` and every
/// command that follows from it.
pub open spec fn carried_out(state: HandlerState, command: Option<DisplayCommand>) -> (
    HandlerState,
    Seq<DisplayCommand>,
)
    decreases commands_left(state.stage),
{
    match command {
        None => (state, seq![]),
        Some(first) => if state.stage == Stage::Idle {
            (state, seq![first])
        } else {
            let (next_state, next_command) = command_done(state);
            let (last_state, rest) = carried_out(next_state, next_command);
            (last_state, seq![first] + rest)
        },
    }
}

/// The motion left accumulated by a task, and the commands that the display carries out for it,
/// none of which fails.
pub open spec fn performed(motion: (i16, i16), task: Task) -> ((i16, i16), Seq<DisplayCommand>) {
    let pending = if motion == (0i16, 0i16) {
        seq![]
    } else {
        seq![DisplayCommand::Warp(motion.0, motion.1)]
    };
    match task {
        Task::Handle(MouseEvent::Click) => ((0, 0), pending.push(DisplayCommand::Click)),
        Task::Handle(MouseEvent::Move(x, y)) => if accumulates(motion, x, y) {
            (((motion.0 + x) as i16, (motion.1 + y) as i16), seq![])
        } else {
            ((x, y), pending)
        },
        Task::Flush => ((0, 0), pending),
    }
}

/// Carrying out a task one command at a time ends idle, with the commands and the motion that
/// [`performed`] gives.
pub proof fn law_task_runs_to_completion(state: HandlerState, task: Task)
    requires
        state.stage == Stage::Idle,
    ensures
        ({
            let (begun, command) = task_begun(state, task);
            let (motion, commands) = performed(state.motion, task);
            carried_out(begun, command) == (HandlerState { motion, stage: Stage::Idle }, commands)
        }),
{
    reveal_with_fuel(carried_out, 4);
    let (begun, command) = task_begun(state, task);
    let (motion, commands) = performed(state.motion, task);
    assert(carried_out(begun, command).1 =~= commands);
}

/// A command that fails leaves the accumulated motion as it was, so that only motion that has
/// reached the display is ever forgotten; in particular a flush that fails can be tried again.
pub proof fn law_failure_keeps_motion(state: HandlerState)
    ensures
        command_failed(state).motion == state.motion,
        command_failed(state).stage == Stage::Idle,
        state.stage == Stage::Idle && state.motion != (0i16, 0i16) ==> flush_begun(
            command_failed(flush_begun(state).0),
        ) == flush_begun(state),
{
}

/// A flush leaves nothing to flush.
pub proof fn law_flush_is_idempotent(motion: (i16, i16))
    ensures
        performed(motion, Task::Flush).0 == (0i16, 0i16),
        performed(performed(motion, Task::Flush).0, Task::Flush) == ((0i16, 0i16), Seq::<
            DisplayCommand,
        >::empty()),
{
}

/// The motion left accumulated by a sequence of tasks, and the commands carried out for them, for
/// a handler that starts with no motion.
pub open spec fn run(tasks: Seq<Task>) -> ((i16, i16), Seq<DisplayCommand>)
    decreases tasks.len(),
{
    if tasks.len() == 0 {
        ((0, 0), seq![])
    } else {
        let (motion, commands) = run(tasks.drop_last());
        let (next_motion, more) = performed(motion, tasks.last());
        (next_motion, commands + more)
    }
}

/// The sum of all the motions among `tasks`.
pub open spec fn distance_asked(tasks: Seq<Task>) -> (int, int)
    decreases tasks.len(),
{
    if tasks.len() == 0 {
        (0, 0)
    } else {
        let before = distance_asked(tasks.drop_last());
        match tasks.last() {
            Task::Handle(MouseEvent::Move(x, y)) => (before.0 + x, before.1 + y),
            _ => before,
        }
    }
}

/// The sum of all the warps among `commands`.
pub open spec fn distance_warped(commands: Seq<DisplayCommand>) -> (int, int)
    decreases commands.len(),
{
    if commands.len() == 0 {
        (0, 0)
    } else {
        let before = distance_warped(commands.drop_last());
        match commands.last() {
            DisplayCommand::Warp(x, y) => (before.0 + x, before.1 + y),
            DisplayCommand::Click => before,
        }
    }
}

/// Where the pointer is, relative to where it started, at each click among `tasks`.
pub open spec fn clicks_asked(tasks: Seq<Task>) -> Seq<(int, int)>
    decreases tasks.len(),
{
    if tasks.len() == 0 {
        seq![]
    } else {
        let before = clicks_asked(tasks.drop_last());
        match tasks.last() {
            Task::Handle(MouseEvent::Click) => before.push(distance_asked(tasks)),
            _ => before,
        }
    }
}

/// Where the pointer is, relative to where it started, at each click among `commands`.
pub open spec fn clicks_made(commands: Seq<DisplayCommand>) -> Seq<(int, int)>
    decreases commands.len(),
{
    if commands.len() == 0 {
        seq![]
    } else {
        let before = clicks_made(commands.drop_last());
        match commands.last() {
            DisplayCommand::Click => before.push(distance_warped(commands)),
            DisplayCommand::Warp(_, _) => before,
        }
    }
}

/// What one more command adds to the distance and to the clicks.
pub proof fn lemma_push_command(commands: Seq<DisplayCommand>, command: DisplayCommand)
    ensures
        distance_warped(commands.push(command)) == match command {
            DisplayCommand::Warp(x, y) => (
                distance_warped(commands).0 + x,
                distance_warped(commands).1 + y,
            ),
            DisplayCommand::Click => distance_warped(commands),
        },
        clicks_made(commands.push(command)) == match command {
            DisplayCommand::Warp(_, _) => clicks_made(commands),
            DisplayCommand::Click => clicks_made(commands).push(distance_warped(commands)),
        },
{
    assert(commands.push(command).drop_last() =~= commands);
}

/// What one more task adds to the distance and to the clicks.
pub proof fn lemma_push_task(tasks: Seq<Task>, task: Task)
    ensures
        distance_asked(tasks.push(task)) == match task {
            Task::Handle(MouseEvent::Move(x, y)) => (
                distance_asked(tasks).0 + x,
                distance_asked(tasks).1 + y,
            ),
            _ => distance_asked(tasks),
        },
        clicks_asked(tasks.push(task)) == match task {
            Task::Handle(MouseEvent::Click) => clicks_asked(tasks).push(distance_asked(tasks)),
            _ => clicks_asked(tasks),
        },
{
    assert(tasks.push(task).drop_last() =~= tasks);
}

/// No motion is lost or invented: what the display has been told to move by, together with what is
/// still accumulated, is what the events have asked for, wherever the flushes fall.
pub proof fn law_motion_is_conserved(tasks: Seq<Task>)
    ensures
        distance_warped(run(tasks).1).0 + run(tasks).0.0 == distance_asked(tasks).0,
        distance_warped(run(tasks).1).1 + run(tasks).0.1 == distance_asked(tasks).1,
    decreases tasks.len(),
{
    if tasks.len() > 0 {
        law_motion_is_conserved(tasks.drop_last());
        lemma_run_step(tasks);
    }
}

/// What the last task adds to the commands of a run.
proof fn lemma_run_step(tasks: Seq<Task>)
    requires
        tasks.len() > 0,
    ensures
        ({
            let (motion, before) = run(tasks.drop_last());
            let (next_motion, commands) = run(tasks);
            let warps = match tasks.last() {
                Task::Handle(MouseEvent::Move(x, y)) => !accumulates(motion, x, y),
                _ => true,
            };
            &&& distance_warped(commands) == if warps {
                (distance_warped(before).0 + motion.0, distance_warped(before).1 + motion.1)
            } else {
                distance_warped(before)
            }
            &&& clicks_made(commands) == match tasks.last() {
                Task::Handle(MouseEvent::Click) => clicks_made(before).push(
                    distance_warped(commands),
                ),
                _ => clicks_made(before),
            }
        }),
{
    let (motion, before) = run(tasks.drop_last());
    let (next_motion, more) = performed(motion, tasks.last());
    let warp = DisplayCommand::Warp(motion.0, motion.1);
    lemma_push_command(before, warp);
    lemma_push_command(before, DisplayCommand::Click);
    lemma_push_command(before.push(warp), DisplayCommand::Click);
    if more.len() == 0 {
        assert(before + more =~= before);
    } else if more.len() == 1 {
        assert(before + more =~= before.push(more[0]));
    } else {
        assert(before + more =~= before.push(more[0]).push(more[1]));
    }
}

/// Accumulation is invisible to clicks: every click happens exactly where it would have happened
/// if each motion had been sent to the display on its own.
pub proof fn law_clicks_land_where_asked(tasks: Seq<Task>)
    ensures
        clicks_made(run(tasks).1) == clicks_asked(tasks),
    decreases tasks.len(),
{
    if tasks.len() > 0 {
        law_clicks_land_where_asked(tasks.drop_last());
        law_motion_is_conserved(tasks);
        lemma_run_step(tasks);
    }
}

/// The display is never told to move by nothing.
pub proof fn law_no_empty_warps(tasks: Seq<Task>)
    ensures
        forall|i: int|
            0 <= i < run(tasks).1.len() ==> run(tasks).1[i] != DisplayCommand::Warp(0, 0),
    decreases tasks.len(),
{
    if tasks.len() > 0 {
        law_no_empty_warps(tasks.drop_last());
    }
}

/// Motion is not sent to the display before it has to be: as long as both sums stay within the range
/// of a coordinate, a motion is only added to what is accumulated, and the handler stays idle.
pub proof fn law_motion_is_held_back(state: HandlerState, x: i16, y: i16)
    requires
        state.stage == Stage::Idle,
        -32768 <= state.motion.0 + x <= 32767,
        -32768 <= state.motion.1 + y <= 32767,
    ensures
        ({
            let (after, command) = event_begun(state, MouseEvent::Move(x, y));
            &&& command is None
            &&& after.stage == Stage::Idle
            &&& after.motion.0 == state.motion.0 + x
            &&& after.motion.1 == state.motion.1 + y
        }),
{
}

/// A motion that cannot be added makes room for itself: all that is accumulated goes to the display in
/// one command, and once it is there, exactly the new motion is accumulated.
pub proof fn law_overflow_makes_room(state: HandlerState, x: i16, y: i16)
    requires
        state.stage == Stage::Idle,
        state.motion.0 + x < -32768 || state.motion.0 + x > 32767 || state.motion.1 + y < -32768
            || state.motion.1 + y > 32767,
    ensures
        ({
            let (during, command) = event_begun(state, MouseEvent::Move(x, y));
            let (after, next) = command_done(during);
            &&& command == Some(DisplayCommand::Warp(state.motion.0, state.motion.1))
            &&& during.motion == state.motion
            &&& during.stage != Stage::Idle
            &&& next is None
            &&& after.stage == Stage::Idle
            &&& after.motion == (x, y)
        }),
{
}

/// A click is made once all the motion before it has reached the display, and not before: with motion
/// accumulated, the display is first moved by all of it; then it clicks, once; and then the handler is
/// idle and nothing is accumulated.
pub proof fn law_click_comes_after_motion(state: HandlerState)
    requires
        state.stage == Stage::Idle,
    ensures
        ({
            let still = state.motion.0 == 0 && state.motion.1 == 0;
            let (first, command) = event_begun(state, MouseEvent::Click);
            let (second, next) = command_done(first);
            let (third, last) = command_done(second);
            &&& first.stage != Stage::Idle
            &&& first.motion == state.motion
            &&& still ==> {
                &&& command == Some(DisplayCommand::Click)
                &&& next is None
                &&& second.stage == Stage::Idle
                &&& second.motion == (0i16, 0i16)
            }
            &&& !still ==> {
                &&& command == Some(DisplayCommand::Warp(state.motion.0, state.motion.1))
                &&& next == Some(DisplayCommand::Click)
                &&& second.stage != Stage::Idle
                &&& second.motion == (0i16, 0i16)
                &&& last is None
                &&& third.stage == Stage::Idle
                &&& third.motion == (0i16, 0i16)
            }
        }),
{
}

/// A flush moves the display by all that is accumulated, in one command, after which nothing is; and
/// if nothing is accumulated, a flush does nothing.
pub proof fn law_flush_sends_everything(state: HandlerState)
    requires
        state.stage == Stage::Idle,
    ensures
        ({
            let (during, command) = flush_begun(state);
            let (after, next) = command_done(during);
            &&& command is None <==> state.motion.0 == 0 && state.motion.1 == 0
            &&& command is None ==> during.motion == state.motion && during.stage == Stage::Idle
            &&& command is Some ==> {
                &&& command == Some(DisplayCommand::Warp(state.motion.0, state.motion.1))
                &&& during.motion == state.motion
                &&& during.stage == Stage::Warping(After::Nothing)
                &&& next is None
                &&& after.stage == Stage::Idle
                &&& after.motion == (0i16, 0i16)
            }
        }),
{
}

} // verus!
