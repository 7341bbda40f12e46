use remote_mouse::event::MouseEvent;
use remote_mouse::event_loop::{EventLoop, LoopAction, LoopInput};
use remote_mouse::handler::{DisplayCommand, EventHandler};

/// Carries out every command that follows from `command`, without a failure.
fn carry_out(handler: &mut EventHandler, command: Option<DisplayCommand>) -> Vec<DisplayCommand> {
    let mut commands = Vec::new();
    let mut next = command;
    while let Some(command) = next {
        commands.push(command);
        next = handler.succeeded();
    }
    commands
}

fn handle(handler: &mut EventHandler, event: MouseEvent) -> Vec<DisplayCommand> {
    let command = handler.handle_event(event);
    carry_out(handler, command)
}

fn flush(handler: &mut EventHandler) -> Vec<DisplayCommand> {
    let command = handler.flush();
    carry_out(handler, command)
}

/// Runs a loop from one sleep to the next and returns the commands that it asks for.
fn batch(event_loop: &mut EventLoop, events: &[MouseEvent]) -> Vec<DisplayCommand> {
    let mut commands = Vec::new();
    let mut rest = events.iter();
    let mut input = LoopInput::Event(*rest.next().unwrap());
    loop {
        match event_loop.step(input) {
            LoopAction::Receive => return commands,
            LoopAction::TryReceive => {
                input = match rest.next() {
                    Some(event) => LoopInput::Event(*event),
                    None => LoopInput::NoEvent,
                }
            }
            LoopAction::Send(command) => {
                commands.push(command);
                input = LoopInput::Sent;
            }
            action => panic!("{action:?}"),
        }
    }
}

/// Where the pointer is at the end and at each click.
fn trace(commands: &[DisplayCommand]) -> ((i64, i64), Vec<(i64, i64)>) {
    let mut position = (0, 0);
    let mut clicks = Vec::new();
    for command in commands {
        match *command {
            DisplayCommand::Warp(x, y) => {
                position = (position.0 + i64::from(x), position.1 + i64::from(y))
            }
            DisplayCommand::Click => clicks.push(position),
        }
    }
    (position, clicks)
}

#[test]
fn click_without_motion_only_clicks() {
    let mut handler = EventHandler::new();
    assert_eq!(
        handle(&mut handler, MouseEvent::Click),
        vec![DisplayCommand::Click]
    );
}

#[test]
fn motion_is_accumulated_until_flushed() {
    let mut handler = EventHandler::new();
    assert_eq!(handle(&mut handler, MouseEvent::Move(3, -4)), vec![]);
    assert_eq!(handle(&mut handler, MouseEvent::Move(10, 1)), vec![]);
    assert_eq!(flush(&mut handler), vec![DisplayCommand::Warp(13, -3)]);
}

#[test]
fn flush_is_idempotent() {
    let mut handler = EventHandler::new();
    assert_eq!(flush(&mut handler), vec![]);
    handle(&mut handler, MouseEvent::Move(1, 1));
    assert_eq!(flush(&mut handler), vec![DisplayCommand::Warp(1, 1)]);
    assert_eq!(flush(&mut handler), vec![]);
}

#[test]
fn motion_that_cancels_out_is_not_sent() {
    let mut handler = EventHandler::new();
    handle(&mut handler, MouseEvent::Move(5, -5));
    handle(&mut handler, MouseEvent::Move(-5, 5));
    assert_eq!(flush(&mut handler), vec![]);
}

#[test]
fn motion_in_one_direction_is_sent() {
    let mut handler = EventHandler::new();
    handle(&mut handler, MouseEvent::Move(0, 7));
    assert_eq!(flush(&mut handler), vec![DisplayCommand::Warp(0, 7)]);
    handle(&mut handler, MouseEvent::Move(-7, 0));
    assert_eq!(flush(&mut handler), vec![DisplayCommand::Warp(-7, 0)]);
}

#[test]
fn click_flushes_motion_first() {
    let mut handler = EventHandler::new();
    handle(&mut handler, MouseEvent::Move(2, 3));
    assert_eq!(
        handle(&mut handler, MouseEvent::Click),
        vec![DisplayCommand::Warp(2, 3), DisplayCommand::Click]
    );
    assert_eq!(flush(&mut handler), vec![]);
}

#[test]
fn overflow_flushes_motion_and_starts_anew() {
    let mut handler = EventHandler::new();
    handle(&mut handler, MouseEvent::Move(i16::MAX, 1));
    assert_eq!(
        handle(&mut handler, MouseEvent::Move(1, 2)),
        vec![DisplayCommand::Warp(i16::MAX, 1)]
    );
    assert_eq!(flush(&mut handler), vec![DisplayCommand::Warp(1, 2)]);
}

#[test]
fn underflow_of_the_second_coordinate_flushes() {
    let mut handler = EventHandler::new();
    handle(&mut handler, MouseEvent::Move(4, i16::MIN));
    assert_eq!(
        handle(&mut handler, MouseEvent::Move(-1, -1)),
        vec![DisplayCommand::Warp(4, i16::MIN)]
    );
    assert_eq!(flush(&mut handler), vec![DisplayCommand::Warp(-1, -1)]);
}

#[test]
fn motion_up_to_the_limit_is_accumulated() {
    let mut handler = EventHandler::new();
    handle(&mut handler, MouseEvent::Move(i16::MAX - 1, i16::MIN + 1));
    assert_eq!(handle(&mut handler, MouseEvent::Move(1, -1)), vec![]);
    assert_eq!(
        flush(&mut handler),
        vec![DisplayCommand::Warp(i16::MAX, i16::MIN)]
    );
}

#[test]
fn failed_flush_keeps_motion() {
    let mut handler = EventHandler::new();
    handle(&mut handler, MouseEvent::Move(8, 9));
    assert_eq!(handler.flush(), Some(DisplayCommand::Warp(8, 9)));
    handler.failed();
    assert_eq!(handler.flush(), Some(DisplayCommand::Warp(8, 9)));
    assert_eq!(handler.succeeded(), None);
    assert_eq!(handler.flush(), None);
}

#[test]
fn failed_flush_before_a_click_gives_the_click_up() {
    let mut handler = EventHandler::new();
    handle(&mut handler, MouseEvent::Move(8, 9));
    assert_eq!(
        handler.handle_event(MouseEvent::Click),
        Some(DisplayCommand::Warp(8, 9))
    );
    handler.failed();
    assert_eq!(flush(&mut handler), vec![DisplayCommand::Warp(8, 9)]);
}

#[test]
fn failed_flush_before_a_motion_gives_the_motion_up() {
    let mut handler = EventHandler::new();
    handle(&mut handler, MouseEvent::Move(i16::MAX, 0));
    assert_eq!(
        handler.handle_event(MouseEvent::Move(1, 1)),
        Some(DisplayCommand::Warp(i16::MAX, 0))
    );
    handler.failed();
    assert_eq!(flush(&mut handler), vec![DisplayCommand::Warp(i16::MAX, 0)]);
}

#[test]
fn motion_is_conserved_and_clicks_land_where_asked() {
    let events = [
        MouseEvent::Move(30000, -30000),
        MouseEvent::Move(30000, 0),
        MouseEvent::Click,
        MouseEvent::Click,
        MouseEvent::Move(-1, -1),
        MouseEvent::Move(0, -32768),
        MouseEvent::Click,
        MouseEvent::Move(5, 5),
    ];
    let commands = batch(&mut EventLoop::new(), &events);
    let (position, clicks) = trace(&commands);
    assert_eq!(position, (60004, -62764));
    assert_eq!(
        clicks,
        vec![(60000, -30000), (60000, -30000), (59999, -62769)]
    );
    assert!(!commands.contains(&DisplayCommand::Warp(0, 0)));
}

#[test]
fn loop_flushes_before_it_sleeps() {
    let mut event_loop = EventLoop::new();
    assert_eq!(
        event_loop.step(LoopInput::Event(MouseEvent::Move(1, 2))),
        LoopAction::TryReceive
    );
    assert_eq!(
        event_loop.step(LoopInput::Event(MouseEvent::Move(1, 2))),
        LoopAction::TryReceive
    );
    assert_eq!(
        event_loop.step(LoopInput::NoEvent),
        LoopAction::Send(DisplayCommand::Warp(2, 4))
    );
    assert_eq!(event_loop.step(LoopInput::Sent), LoopAction::Receive);
}

#[test]
fn loop_sleeps_at_once_without_motion() {
    let mut event_loop = EventLoop::new();
    assert_eq!(
        event_loop.step(LoopInput::Event(MouseEvent::Click)),
        LoopAction::Send(DisplayCommand::Click)
    );
    assert_eq!(event_loop.step(LoopInput::Sent), LoopAction::TryReceive);
    assert_eq!(event_loop.step(LoopInput::NoEvent), LoopAction::Receive);
}

#[test]
fn loop_runs_batch_after_batch() {
    let mut event_loop = EventLoop::new();
    assert_eq!(
        batch(
            &mut event_loop,
            &[MouseEvent::Move(1, 0), MouseEvent::Click, MouseEvent::Move(0, 1)]
        ),
        vec![
            DisplayCommand::Warp(1, 0),
            DisplayCommand::Click,
            DisplayCommand::Warp(0, 1)
        ]
    );
    assert_eq!(
        batch(&mut event_loop, &[MouseEvent::Move(2, 2)]),
        vec![DisplayCommand::Warp(2, 2)]
    );
}

#[test]
fn loop_finishes_when_the_channel_is_closed() {
    let mut event_loop = EventLoop::new();
    assert_eq!(event_loop.step(LoopInput::NoEvent), LoopAction::Finish);
}

#[test]
fn loop_finishes_after_a_last_flush() {
    let mut event_loop = EventLoop::new();
    batch(&mut event_loop, &[MouseEvent::Move(1, 1)]);
    assert_eq!(event_loop.step(LoopInput::NoEvent), LoopAction::Finish);
}

#[test]
fn loop_fails_when_a_click_fails() {
    let mut event_loop = EventLoop::new();
    event_loop.step(LoopInput::Event(MouseEvent::Click));
    assert_eq!(event_loop.step(LoopInput::SendFailed), LoopAction::Fail);
}

#[test]
fn loop_fails_when_a_flush_fails() {
    let mut event_loop = EventLoop::new();
    event_loop.step(LoopInput::Event(MouseEvent::Move(1, 1)));
    event_loop.step(LoopInput::NoEvent);
    assert_eq!(event_loop.step(LoopInput::SendFailed), LoopAction::Fail);
}

#[test]
fn display_follows_events_over_several_sleeps() {
    let mut event_loop = EventLoop::new();
    let mut commands = batch(
        &mut event_loop,
        &[MouseEvent::Move(20000, 1), MouseEvent::Move(20000, 1)],
    );
    assert_eq!(trace(&commands), ((40000, 2), vec![]));
    commands.extend(batch(&mut event_loop, &[MouseEvent::Click]));
    commands.extend(batch(
        &mut event_loop,
        &[MouseEvent::Move(-1, -1), MouseEvent::Click],
    ));
    assert_eq!(
        trace(&commands),
        ((39999, 1), vec![(40000, 2), (39999, 1)])
    );
    assert_eq!(event_loop.step(LoopInput::NoEvent), LoopAction::Finish);
}
