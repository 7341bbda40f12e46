//! The loop that receives mouse events and executes them on a display.

use crate::event::MouseEvent;
use crate::handler::{
    After, DisplayCommand, EventHandler, HandlerState, Stage, Task, clicks_asked, clicks_made,
    command_done, command_failed, distance_asked, distance_warped, event_begun, flush_begun,
    lemma_push_command, lemma_push_task, performed, run,
};
use vstd::prelude::*;

verus! {

/// What the loop wants done.
#[derive(Clone, Copy, Debug, Eq, Hash, PartialEq, Structural)]
pub enum LoopAction {
    /// Wait for the next event.
    Receive,
    /// Take the next event if one is immediately ready.
    TryReceive,
    /// Have the display carry out a command.
    Send(DisplayCommand),
    /// Stop: the channel is closed.
    Finish,
    /// Stop: the display has failed.
    Fail,
}

/// What came of the last action.
#[derive(Clone, Copy, Debug, Eq, Hash, PartialEq, Structural)]
pub enum LoopInput {
    /// An event was received.
    Event(MouseEvent),
    /// No event was received: the channel is closed or, where the loop did not want to wait, no
    /// event is ready.
    NoEvent,
    /// The display carried out the command.
    Sent,
    /// The display failed to carry out the command.
    SendFailed,
}

/// What the loop is waiting for.
#[derive(Clone, Copy, Debug, Eq, Hash, PartialEq, Structural)]
pub enum Duty {
    /// The next event, however long it takes.
    Receiving,
    /// Another event that is immediately ready.
    Polling,
    /// The display, on behalf of an event.
    Handling,
    /// The display, on behalf of a flush.
    Flushing,
    /// Nothing any more.
    Finished,
}

/// The loop that executes events on a display.
#[derive(Clone, Copy, Debug, Eq, Hash, PartialEq)]
pub struct EventLoop {
    /// The handler of the events.
    handler: EventHandler,
    /// What the loop is waiting for.
    duty: Duty,
}

/// The state of an [`EventLoop`].
pub struct LoopState {
    /// The state of the handler.
    pub handler: HandlerState,
    /// What the loop is waiting for.
    pub duty: Duty,
}

impl View for EventLoop {
    type V = LoopState;

    closed spec fn view(&self) -> LoopState {
        LoopState { handler: self.handler@, duty: self.duty }
    }
}

impl LoopState {
    /// The handler is busy exactly while the loop waits for the display, and no motion is held
    /// back while the loop waits for an event that may be long in coming.
    pub open spec fn well_formed(self) -> bool {
        match self.duty {
            Duty::Receiving => self.handler.stage == Stage::Idle && self.handler.motion == (
                0i16,
                0i16,
            ),
            Duty::Polling => self.handler.stage == Stage::Idle,
            Duty::Handling => self.handler.stage != Stage::Idle,
            Duty::Flushing => self.handler.stage == Stage::Warping(After::Nothing),
            Duty::Finished => self.handler.stage == Stage::Idle,
        }
    }

    /// Whether `input` can be what came of the action that the loop is waiting for.
    pub open spec fn expects(self, input: LoopInput) -> bool {
        match self.duty {
            Duty::Receiving | Duty::Polling => input is Event || input is NoEvent,
            Duty::Handling | Duty::Flushing => input is Sent || input is SendFailed,
            Duty::Finished => false,
        }
    }
}

/// The state of a new loop, which waits for an event.
pub open spec fn new_loop() -> LoopState {
    LoopState {
        handler: HandlerState { motion: (0, 0), stage: Stage::Idle },
        duty: Duty::Receiving,
    }
}

/// How the loop goes on while it handles an event.
pub open spec fn go_on_handling(progress: (HandlerState, Option<DisplayCommand>)) -> (
    LoopState,
    LoopAction,
) {
    match progress.1 {
        Some(command) => (
            LoopState { handler: progress.0, duty: Duty::Handling },
            LoopAction::Send(command),
        ),
        None => (LoopState { handler: progress.0, duty: Duty::Polling }, LoopAction::TryReceive),
    }
}

/// How the loop goes on while it flushes.
pub open spec fn go_on_flushing(progress: (HandlerState, Option<DisplayCommand>)) -> (
    LoopState,
    LoopAction,
) {
    match progress.1 {
        Some(command) => (
            LoopState { handler: progress.0, duty: Duty::Flushing },
            LoopAction::Send(command),
        ),
        None => (LoopState { handler: progress.0, duty: Duty::Receiving }, LoopAction::Receive),
    }
}

/// The state after `input`, and the next action.
pub open spec fn loop_step(state: LoopState, input: LoopInput) -> (LoopState, LoopAction) {
    match (state.duty, input) {
        (Duty::Receiving, LoopInput::Event(event)) | (Duty::Polling, LoopInput::Event(event)) =>
            go_on_handling(event_begun(state.handler, event)),
        (Duty::Receiving, _) => (
            LoopState { duty: Duty::Finished, ..state },
            LoopAction::Finish,
        ),
        (Duty::Polling, _) => go_on_flushing(flush_begun(state.handler)),
        (Duty::Handling, LoopInput::Sent) => go_on_handling(command_done(state.handler)),
        (Duty::Flushing, LoopInput::Sent) => go_on_flushing(command_done(state.handler)),
        _ => (
            LoopState { handler: command_failed(state.handler), duty: Duty::Finished },
            LoopAction::Fail,
        ),
    }
}

impl EventLoop {
    /// Starts a loop, which begins by waiting for an event.
    pub fn new() -> (this: Self)
        ensures
            this@.well_formed(),
            this@ == new_loop(),
    {
        EventLoop { handler: EventHandler::new(), duty: Duty::Receiving }
    }

    /// Goes on with the handling of an event.
    fn go_on_handling(&mut self, command: Option<DisplayCommand>) -> (action: LoopAction)
        ensures
            (final(self)@, action) == go_on_handling((old(self)@.handler, command)),
    {
        match command {
            Some(command) => {
                self.duty = Duty::Handling;
                LoopAction::Send(command)
            },
            None => {
                // Handle any more events that are immediately ready.
                self.duty = Duty::Polling;
                LoopAction::TryReceive
            },
        }
    }

    /// Goes on with a flush.
    fn go_on_flushing(&mut self, command: Option<DisplayCommand>) -> (action: LoopAction)
        ensures
            (final(self)@, action) == go_on_flushing((old(self)@.handler, command)),
    {
        match command {
            Some(command) => {
                self.duty = Duty::Flushing;
                LoopAction::Send(command)
            },
            None => {
                self.duty = Duty::Receiving;
                LoopAction::Receive
            },
        }
    }

    /// Takes note of what came of the last action, and returns the next one.
    pub fn step(&mut self, input: LoopInput) -> (action: LoopAction)
        requires
            old(self)@.well_formed(),
            old(self)@.expects(input),
        ensures
            final(self)@.well_formed(),
            (final(self)@, action) == loop_step(old(self)@, input),
    {
        match (self.duty, input) {
            (Duty::Receiving, LoopInput::Event(event)) | (
                Duty::Polling,
                LoopInput::Event(event),
            ) => {
                let command = self.handler.handle_event(event);
                self.go_on_handling(command)
            },
            (Duty::Receiving, _) => {
                self.duty = Duty::Finished;
                LoopAction::Finish
            },
            (Duty::Polling, _) => {
                // There are no more events immediately ready, so we're about to go to sleep. To
                // avoid delaying motion indefinitely, flush it before sleeping.
                let command = self.handler.flush();
                self.go_on_flushing(command)
            },
            (Duty::Handling, LoopInput::Sent) => {
                let command = self.handler.succeeded();
                self.go_on_handling(command)
            },
            (Duty::Flushing, LoopInput::Sent) => {
                let command = self.handler.succeeded();
                self.go_on_flushing(command)
            },
            _ => {
                self.handler.failed();
                self.duty = Duty::Finished;
                LoopAction::Fail
            },
        }
    }
}

/// Motion is never delayed indefinitely: whenever the loop goes to sleep until the next event, all
/// the motion so far has reached the display.
pub proof fn law_sleeps_without_motion(state: LoopState, input: LoopInput)
    requires
        state.well_formed(),
        state.expects(input),
    ensures
        loop_step(state, input).0.well_formed(),
        loop_step(state, input).1 == LoopAction::Receive ==> loop_step(
            state,
            input,
        ).0.handler.motion == (0i16, 0i16),
{
}

/// The loop ends well exactly when the channel is found closed, and ends badly exactly when the
/// display fails.
pub proof fn law_loop_ends_only_on_closure_or_failure(state: LoopState, input: LoopInput)
    requires
        state.well_formed(),
        state.expects(input),
    ensures
        loop_step(state, input).1 == LoopAction::Finish <==> state.duty == Duty::Receiving && input
            == LoopInput::NoEvent,
        loop_step(state, input).1 == LoopAction::Fail <==> input == LoopInput::SendFailed,
        loop_step(state, input).0.duty == Duty::Finished <==> (loop_step(state, input).1
            == LoopAction::Finish || loop_step(state, input).1 == LoopAction::Fail),
{
}

/// The state and the action once the display has carried out every command that the loop asks for,
/// with those commands.
pub open spec fn settled(state: LoopState, action: LoopAction, limit: nat) -> (
    LoopState,
    LoopAction,
    Seq<DisplayCommand>,
)
    decreases limit,
{
    match action {
        LoopAction::Send(command) => if limit == 0 {
            (state, action, seq![])
        } else {
            let (next_state, next_action) = loop_step(state, LoopInput::Sent);
            let (last_state, last_action, rest) = settled(
                next_state,
                next_action,
                (limit - 1) as nat,
            );
            (last_state, last_action, seq![command] + rest)
        },
        _ => (state, action, seq![]),
    }
}

/// Handling one event takes at most two commands, which are those that the handler performs for
/// it; after them the loop looks for another event that is ready.
pub proof fn law_event_is_performed(state: LoopState, event: MouseEvent)
    requires
        state.well_formed(),
        state.duty == Duty::Receiving || state.duty == Duty::Polling,
    ensures
        ({
            let (begun, action) = loop_step(state, LoopInput::Event(event));
            let (motion, commands) = performed(state.handler.motion, Task::Handle(event));
            settled(begun, action, 2) == (
                LoopState {
                    handler: HandlerState { motion, stage: Stage::Idle },
                    duty: Duty::Polling,
                },
                LoopAction::TryReceive,
                commands,
            )
        }),
{
    reveal_with_fuel(settled, 3);
    let (begun, action) = loop_step(state, LoopInput::Event(event));
    let (motion, commands) = performed(state.handler.motion, Task::Handle(event));
    assert(settled(begun, action, 2).2 =~= commands);
}

/// Once no event is ready the loop performs a flush and goes to sleep.
pub proof fn law_flush_is_performed(state: LoopState)
    requires
        state.well_formed(),
        state.duty == Duty::Polling,
    ensures
        ({
            let (begun, action) = loop_step(state, LoopInput::NoEvent);
            let (motion, commands) = performed(state.handler.motion, Task::Flush);
            settled(begun, action, 2) == (
                LoopState {
                    handler: HandlerState { motion, stage: Stage::Idle },
                    duty: Duty::Receiving,
                },
                LoopAction::Receive,
                commands,
            )
        }),
{
    reveal_with_fuel(settled, 3);
    let (begun, action) = loop_step(state, LoopInput::NoEvent);
    let (motion, commands) = performed(state.handler.motion, Task::Flush);
    assert(settled(begun, action, 2).2 =~= commands);
}

/// The state and all the commands after a batch of events that are ready one after the other.
pub open spec fn batch_handled(state: LoopState, events: Seq<MouseEvent>) -> (
    LoopState,
    Seq<DisplayCommand>,
)
    decreases events.len(),
{
    if events.len() == 0 {
        (state, seq![])
    } else {
        let (before, commands) = batch_handled(state, events.drop_last());
        let (begun, action) = loop_step(before, LoopInput::Event(events.last()));
        let (after, _, more) = settled(begun, action, 2);
        (after, commands + more)
    }
}

/// The handling of each of `events`, in order.
pub open spec fn handle_each(events: Seq<MouseEvent>) -> Seq<Task> {
    events.map_values(|event: MouseEvent| Task::Handle(event))
}

/// From one sleep to the next, the loop carries out exactly the commands of a handler that handles
/// the events of the batch in order and is then flushed.
pub proof fn law_batch_is_run(state: LoopState, events: Seq<MouseEvent>)
    requires
        state.well_formed(),
        state.duty == Duty::Receiving,
        events.len() > 0,
    ensures
        ({
            let (handled, commands) = batch_handled(state, events);
            let (begun, action) = loop_step(handled, LoopInput::NoEvent);
            let (asleep, last_action, more) = settled(begun, action, 2);
            &&& asleep == state
            &&& last_action == LoopAction::Receive
            &&& commands + more == run(handle_each(events).push(Task::Flush)).1
        }),
{
    lemma_batch(state, events);
    let handled = batch_handled(state, events).0;
    law_flush_is_performed(handled);
    assert(handle_each(events).push(Task::Flush).drop_last() =~= handle_each(events));
}

/// A batch leaves the loop looking for another event, with the commands and the motion of a run.
proof fn lemma_batch(state: LoopState, events: Seq<MouseEvent>)
    requires
        state.well_formed(),
        state.duty == Duty::Receiving,
    ensures
        ({
            let (handled, commands) = batch_handled(state, events);
            &&& handled.handler == (HandlerState {
                motion: run(handle_each(events)).0,
                stage: Stage::Idle,
            })
            &&& handled.duty == if events.len() == 0 {
                Duty::Receiving
            } else {
                Duty::Polling
            }
            &&& commands == run(handle_each(events)).1
        }),
    decreases events.len(),
{
    if events.len() > 0 {
        lemma_batch(state, events.drop_last());
        let before = batch_handled(state, events.drop_last()).0;
        law_event_is_performed(before, events.last());
        assert(handle_each(events).drop_last() =~= handle_each(events.drop_last()));
    }
}

/// The state of a loop and the actions that it has asked for, after `inputs`.
pub open spec fn loop_run(inputs: Seq<LoopInput>) -> (LoopState, Seq<LoopAction>)
    decreases inputs.len(),
{
    if inputs.len() == 0 {
        (new_loop(), seq![])
    } else {
        let (before, actions) = loop_run(inputs.drop_last());
        let (after, action) = loop_step(before, inputs.last());
        (after, actions.push(action))
    }
}

/// Whether each of `inputs` can be what came of the action before it.
pub open spec fn possible_loop_run(inputs: Seq<LoopInput>) -> bool
    decreases inputs.len(),
{
    inputs.len() == 0 || (possible_loop_run(inputs.drop_last()) && loop_run(
        inputs.drop_last(),
    ).0.expects(inputs.last()))
}

/// The events among `inputs`, in order.
pub open spec fn events_received(inputs: Seq<LoopInput>) -> Seq<MouseEvent>
    decreases inputs.len(),
{
    if inputs.len() == 0 {
        seq![]
    } else {
        let before = events_received(inputs.drop_last());
        match inputs.last() {
            LoopInput::Event(event) => before.push(event),
            _ => before,
        }
    }
}

/// The commands for the display among `actions`, in order.
pub open spec fn commands_sent(actions: Seq<LoopAction>) -> Seq<DisplayCommand>
    decreases actions.len(),
{
    if actions.len() == 0 {
        seq![]
    } else {
        let before = commands_sent(actions.drop_last());
        match actions.last() {
            LoopAction::Send(command) => before.push(command),
            _ => before,
        }
    }
}

/// How the commands sent so far relate to the events received so far, for a loop in state `state`:
/// a command counts from when it is sent, and what an event still calls for is pending.
spec fn accounted(
    state: LoopState,
    commands: Seq<DisplayCommand>,
    events: Seq<MouseEvent>,
) -> bool {
    let asked = distance_asked(handle_each(events));
    let warped = distance_warped(commands);
    let motion = state.handler.motion;
    let pending = match state.handler.stage {
        Stage::Idle => (motion.0 as int, motion.1 as int),
        Stage::Warping(After::Move(x, y)) => (x as int, y as int),
        _ => (0, 0),
    };
    &&& state.well_formed()
    &&& asked == (warped.0 + pending.0, warped.1 + pending.1)
    &&& clicks_asked(handle_each(events)) == match state.handler.stage {
        Stage::Warping(After::Click) => clicks_made(commands).push(warped),
        _ => clicks_made(commands),
    }
    &&& state.handler.stage == Stage::Clicking ==> motion == (0i16, 0i16)
    &&& state.duty == Duty::Finished ==> motion == (0i16, 0i16)
}

/// A history without failures has none in its last part nor before it.
proof fn lemma_no_failure_before(inputs: Seq<LoopInput>)
    requires
        inputs.len() > 0,
        !inputs.contains(LoopInput::SendFailed),
    ensures
        !inputs.drop_last().contains(LoopInput::SendFailed),
        inputs.last() != LoopInput::SendFailed,
{
    let earlier = inputs.drop_last();
    assert(inputs[inputs.len() - 1] != LoopInput::SendFailed);
    if earlier.contains(LoopInput::SendFailed) {
        let i = choose|i: int| 0 <= i < earlier.len() && earlier[i] == LoopInput::SendFailed;
        assert(inputs[i] == LoopInput::SendFailed);
    }
}

/// The commands of a loop without failures always account for the events that it has received.
proof fn lemma_accounted(inputs: Seq<LoopInput>)
    requires
        possible_loop_run(inputs),
        !inputs.contains(LoopInput::SendFailed),
    ensures
        accounted(
            loop_run(inputs).0,
            commands_sent(loop_run(inputs).1),
            events_received(inputs),
        ),
    decreases inputs.len(),
{
    if inputs.len() > 0 {
        let earlier = inputs.drop_last();
        let input = inputs.last();
        lemma_no_failure_before(inputs);
        lemma_accounted(earlier);
        let (before, actions) = loop_run(earlier);
        let (after, action) = loop_step(before, input);
        let commands = commands_sent(actions);
        let events = events_received(earlier);
        assert(actions.push(action).drop_last() =~= actions);
        if let LoopAction::Send(command) = action {
            lemma_push_command(commands, command);
        }
        if let LoopInput::Event(event) = input {
            lemma_push_task(handle_each(events), Task::Handle(event));
            assert(handle_each(events.push(event)) =~= handle_each(events).push(
                Task::Handle(event),
            ));
        }
    }
}

/// The display follows the events, whatever the history: as long as the display does not fail, then
/// whenever the loop asks for an event, what the display has been told to move by, together with the
/// motion that is held back, is the sum of the motions received, and the display has been told to
/// click exactly where the events have asked for it. Whenever the loop goes to sleep or finishes,
/// no motion is held back.
pub proof fn law_display_follows_events(inputs: Seq<LoopInput>)
    requires
        possible_loop_run(inputs),
        !inputs.contains(LoopInput::SendFailed),
        inputs.len() > 0,
    ensures
        ({
            let (state, actions) = loop_run(inputs);
            let commands = commands_sent(actions);
            let asked = distance_asked(handle_each(events_received(inputs)));
            let warped = distance_warped(commands);
            let motion = state.handler.motion;
            &&& actions.len() == inputs.len()
            &&& actions.last() !is Send ==> {
                &&& asked == (warped.0 + motion.0, warped.1 + motion.1)
                &&& clicks_made(commands) == clicks_asked(handle_each(events_received(inputs)))
            }
            &&& actions.last() == LoopAction::Receive || actions.last() == LoopAction::Finish ==> {
                &&& motion == (0i16, 0i16)
                &&& asked == warped
            }
        }),
    decreases inputs.len(),
{
    lemma_accounted(inputs);
    let earlier = inputs.drop_last();
    lemma_no_failure_before(inputs);
    lemma_accounted(earlier);
    if earlier.len() > 0 {
        law_display_follows_events(earlier);
    }
}

/// Which inputs the loop is prepared for: the outcome of receiving while it waits for an event, the
/// outcome of a command while it waits for the display, and none once it has finished.
pub proof fn law_loop_expectations(state: LoopState, input: LoopInput)
    ensures
        state.duty is Receiving || state.duty is Polling ==> (state.expects(input) <==> input is Event
            || input is NoEvent),
        state.duty is Handling || state.duty is Flushing ==> (state.expects(input) <==> input is Sent
            || input is SendFailed),
        state.duty is Finished ==> !state.expects(input),
{
}

/// The loop hands every event to the handler and every command of the handler to the display: it asks
/// for exactly the next command while there is one; after the last command for an event it looks for
/// another event that is ready; and after the last command of a flush it waits for the next event.
pub proof fn law_loop_drives_the_handler(state: LoopState, input: LoopInput)
    requires
        state.well_formed(),
        state.expects(input),
    ensures
        ({
            let (after, action) = loop_step(state, input);
            let flushing = state.duty is Flushing || (state.duty is Polling && input is NoEvent);
            let (handler, command) = match input {
                LoopInput::Event(event) => event_begun(state.handler, event),
                LoopInput::NoEvent => flush_begun(state.handler),
                _ => command_done(state.handler),
            };
            &&& !(state.duty is Receiving && input is NoEvent) && !(input is SendFailed) ==> {
                &&& after.handler == handler
                &&& command is Some ==> action == LoopAction::Send(command->Some_0)
                &&& command is Some && flushing ==> after.duty is Flushing
                &&& command is Some && !flushing ==> after.duty is Handling
                &&& command is None && flushing ==> action is Receive && after.duty is Receiving
                &&& command is None && !flushing ==> action is TryReceive && after.duty is Polling
            }
            &&& state.duty is Receiving && input is NoEvent ==> {
                &&& action is Finish
                &&& after.duty is Finished
                &&& after.handler == state.handler
            }
            &&& input is SendFailed ==> {
                &&& action is Fail
                &&& after.duty is Finished
                &&& after.handler.motion == state.handler.motion
                &&& after.handler.stage == Stage::Idle
            }
        }),
{
}

/// A new loop waits for an event, with an idle handler and no motion.
pub proof fn law_new_loop_waits()
    ensures
        new_loop().well_formed(),
        new_loop().duty is Receiving,
        new_loop().handler.stage is Idle,
        new_loop().handler.motion.0 == 0,
        new_loop().handler.motion.1 == 0,
{
}

} // verus!
