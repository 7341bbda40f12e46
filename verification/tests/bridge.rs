use remote_mouse::event::MouseEvent;
use remote_mouse::event_loop::{EventLoop, LoopAction, LoopInput};
use remote_mouse::handler::DisplayCommand;
use remote_mouse::stream::{StreamAction, StreamInput, StreamMessage, StreamMonitor};
use remote_mouse::websocket::connection::{Connection, Message};

/// A masked binary frame.
fn frame(payload: &[u8]) -> Vec<u8> {
    let mask = [0x11, 0x22, 0x33, 0x44];
    let mut bytes = vec![0x82, 0x80 | payload.len() as u8];
    bytes.extend(mask);
    bytes.extend(payload.iter().enumerate().map(|(i, b)| b ^ mask[i % 4]));
    bytes
}

#[test]
fn pointer_is_controlled() {
    // What the client sends: a motion, another one, a click, and a motion back.
    let packets: [[u8; 6]; 4] = [
        [0, 1, 0, 10, 0, 20],
        [0, 1, 0, 5, 0xFF, 0xFF],
        [0, 0, 1, 2, 3, 4],
        [0, 1, 0xFF, 0xFF, 0, 0],
    ];
    let wire: Vec<u8> = packets.iter().flat_map(|p| frame(p)).collect();

    // The packets become events.
    let mut connection = Connection::new(MouseEvent::ENCODED_SIZE);
    let mut monitor = StreamMonitor::new(0);
    let mut events = Vec::new();
    monitor.step(StreamInput::Done, &mut events);
    let mut position = 0;
    while position < wire.len() {
        let received = connection.read(&wire[position..], None);
        position += received.used;
        let Some(Ok(Some(Message::Binary(data)))) = received.outcome else {
            panic!("{received:?}");
        };
        let message = StreamMessage::Binary(data.to_vec());
        assert_eq!(
            monitor.step(StreamInput::Received(message), &mut events),
            StreamAction::Receive { ping: None }
        );
    }
    assert_eq!(
        events,
        vec![
            MouseEvent::Move(10, 20),
            MouseEvent::Move(5, -1),
            MouseEvent::Click,
            MouseEvent::Move(-1, 0)
        ]
    );

    // The events become commands.
    let mut event_loop = EventLoop::new();
    let mut commands = Vec::new();
    let mut rest = events.into_iter();
    let mut input = LoopInput::Event(rest.next().unwrap());
    loop {
        input = match event_loop.step(input) {
            LoopAction::TryReceive => match rest.next() {
                Some(event) => LoopInput::Event(event),
                None => LoopInput::NoEvent,
            },
            LoopAction::Send(command) => {
                commands.push(command);
                LoopInput::Sent
            }
            LoopAction::Receive => break,
            action => panic!("{action:?}"),
        };
    }
    assert_eq!(
        commands,
        vec![
            DisplayCommand::Warp(15, 19),
            DisplayCommand::Click,
            DisplayCommand::Warp(-1, 0)
        ]
    );
}
