use remote_mouse::event::MouseEvent;
use remote_mouse::fault::ErrorKind;
use remote_mouse::stream::{
    ending_of, handle_error, handle_message, CloseCode, CloseFrame, Ending, Phase, StreamAction,
    StreamError, StreamInput, StreamMessage, StreamMonitor, MAX_MESSAGE_SIZE,
    MAX_WRITE_BUFFER_SIZE, WRITE_BUFFER_SIZE,
};
use remote_mouse::text::{write_digit, write_number};
use std::ops::ControlFlow;

fn close(code: CloseCode, reason: &str) -> CloseFrame {
    CloseFrame {
        code,
        reason: reason.to_owned(),
    }
}

fn packet(x: u8, y: u8) -> StreamMessage {
    StreamMessage::Binary(vec![0, 1, 0, x, 0, y])
}

/// A monitor whose handshake is done.
fn open(ping_time: u64) -> StreamMonitor {
    let mut monitor = StreamMonitor::new(ping_time);
    let mut events = Vec::new();
    assert_eq!(
        monitor.step(StreamInput::Done, &mut events),
        StreamAction::Receive {
            ping: if ping_time == 0 {
                None
            } else {
                Some(ping_time)
            }
        }
    );
    monitor
}

/// What an open connection does, without an event.
fn act(monitor: &mut StreamMonitor, input: StreamInput) -> StreamAction {
    let mut events = Vec::new();
    let action = monitor.step(input, &mut events);
    assert_eq!(events, vec![]);
    action
}

#[test]
fn limits_of_a_connection() {
    assert_eq!(WRITE_BUFFER_SIZE, 0);
    assert_eq!(MAX_WRITE_BUFFER_SIZE, 64);
    assert_eq!(MAX_MESSAGE_SIZE, 6);
}

#[test]
fn close_code_numbers() {
    assert_eq!(CloseCode::Away.number(), 1001);
    assert_eq!(CloseCode::Protocol.number(), 1002);
    assert_eq!(CloseCode::Unsupported.number(), 1003);
    assert_eq!(CloseCode::Invalid.number(), 1007);
    assert_eq!(CloseCode::Size.number(), 1009);
}

#[test]
fn event_message_is_delivered() {
    let mut events = vec![MouseEvent::Click];
    assert_eq!(
        handle_message(&packet(1, 2), &mut events),
        ControlFlow::Continue(())
    );
    assert_eq!(events, vec![MouseEvent::Click, MouseEvent::Move(1, 2)]);
}

#[test]
fn text_message_is_not_supported() {
    let mut events = Vec::new();
    assert_eq!(
        handle_message(&StreamMessage::Text, &mut events),
        ControlFlow::Break(Some(close(
            CloseCode::Unsupported,
            "Text frames not supported"
        )))
    );
    assert_eq!(events, vec![]);
}

#[test]
fn wrong_sized_message_is_a_violation() {
    for (size, text) in [
        (0, "Wrong-sized (0) binary frame"),
        (5, "Wrong-sized (5) binary frame"),
        (7, "Wrong-sized (7) binary frame"),
        (1234, "Wrong-sized (1234) binary frame"),
    ] {
        let mut events = Vec::new();
        assert_eq!(
            handle_message(&StreamMessage::Binary(vec![0; size]), &mut events),
            ControlFlow::Break(Some(close(CloseCode::Protocol, text)))
        );
        assert_eq!(events, vec![]);
    }
}

#[test]
fn undecodable_message_is_a_violation() {
    let mut events = Vec::new();
    assert_eq!(
        handle_message(&StreamMessage::Binary(vec![9, 9, 0, 0, 0, 0]), &mut events),
        ControlFlow::Break(Some(close(
            CloseCode::Protocol,
            "Undecodable event packet: Invalid opcode in packet"
        )))
    );
    assert_eq!(events, vec![]);
}

#[test]
fn pings_and_pongs_are_ignored() {
    let mut events = Vec::new();
    for message in [StreamMessage::Ping, StreamMessage::Pong] {
        assert_eq!(
            handle_message(&message, &mut events),
            ControlFlow::Continue(())
        );
    }
    assert_eq!(events, vec![]);
}

#[test]
fn close_message_ends_without_a_close_frame() {
    let mut events = Vec::new();
    assert_eq!(
        handle_message(&StreamMessage::Close, &mut events),
        ControlFlow::Break(None)
    );
    assert_eq!(events, vec![]);
}

#[test]
fn failures_to_receive() {
    assert_eq!(handle_error(&StreamError::Io(ErrorKind::BrokenPipe)), None);
    assert_eq!(handle_error(&StreamError::WriteBufferFull), None);
    assert_eq!(handle_error(&StreamError::AttackAttempt), None);
    assert_eq!(
        handle_error(&StreamError::Capacity("Too big".to_owned())),
        Some(Some(close(CloseCode::Size, "Too big")))
    );
    assert_eq!(
        handle_error(&StreamError::ResetWithoutClosingHandshake),
        Some(None)
    );
    assert_eq!(
        handle_error(&StreamError::Protocol("Unmasked".to_owned())),
        Some(Some(close(CloseCode::Protocol, "Unmasked")))
    );
    assert_eq!(
        handle_error(&StreamError::Utf8),
        Some(Some(close(CloseCode::Invalid, "Invalid UTF-8")))
    );
    assert_eq!(
        handle_error(&StreamError::HttpFormat("Bad".to_owned())),
        Some(Some(close(CloseCode::Protocol, "Bad")))
    );
}

#[test]
fn endings_of_failed_connections() {
    assert_eq!(ending_of(&StreamError::AlreadyClosed), Ending::Fatal);
    assert_eq!(
        ending_of(&StreamError::Io(ErrorKind::OutOfMemory)),
        Ending::Fatal
    );
    assert_eq!(
        ending_of(&StreamError::Io(ErrorKind::ConnectionReset)),
        Ending::Survived
    );
    for error in [
        StreamError::ConnectionClosed,
        StreamError::Tls,
        StreamError::Capacity(String::new()),
        StreamError::ResetWithoutClosingHandshake,
        StreamError::Protocol(String::new()),
        StreamError::WriteBufferFull,
        StreamError::Utf8,
        StreamError::AttackAttempt,
        StreamError::Url,
        StreamError::Http,
        StreamError::HttpFormat(String::new()),
    ] {
        assert_eq!(ending_of(&error), Ending::Survived);
    }
}

#[test]
fn monitor_starts_with_the_handshake() {
    assert_eq!(
        StreamMonitor::new(0),
        StreamMonitor {
            phase: Phase::Handshaking,
            ping: None
        }
    );
    assert_eq!(
        StreamMonitor::new(30),
        StreamMonitor {
            phase: Phase::Handshaking,
            ping: Some(30)
        }
    );
}

#[test]
fn failed_handshake_is_survived() {
    let mut monitor = StreamMonitor::new(0);
    assert_eq!(
        act(&mut monitor, StreamInput::Failed(StreamError::Http)),
        StreamAction::Finish(Ending::Survived)
    );
    assert_eq!(monitor.phase, Phase::Finished);
}

#[test]
fn connection_delivers_events_in_order() {
    let mut monitor = open(0);
    let mut events = Vec::new();
    for (x, y) in [(1, 2), (3, 4), (5, 6)] {
        assert_eq!(
            monitor.step(StreamInput::Received(packet(x, y)), &mut events),
            StreamAction::Receive { ping: None }
        );
    }
    assert_eq!(
        events,
        vec![
            MouseEvent::Move(1, 2),
            MouseEvent::Move(3, 4),
            MouseEvent::Move(5, 6)
        ]
    );
}

#[test]
fn idle_connection_is_pinged() {
    let mut monitor = open(30);
    assert_eq!(
        act(&mut monitor, StreamInput::PingDue),
        StreamAction::SendPing
    );
    assert_eq!(
        act(&mut monitor, StreamInput::Done),
        StreamAction::Receive { ping: Some(30) }
    );
}

#[test]
fn every_wait_is_limited_by_the_ping_time() {
    let wait = || StreamAction::Receive { ping: Some(45) };
    let mut monitor = StreamMonitor::new(45);
    assert_eq!(act(&mut monitor, StreamInput::Done), wait());
    assert_eq!(
        act(&mut monitor, StreamInput::Received(StreamMessage::Pong)),
        wait()
    );
    for _ in 0..2 {
        assert_eq!(
            act(&mut monitor, StreamInput::PingDue),
            StreamAction::SendPing
        );
        assert_eq!(act(&mut monitor, StreamInput::Done), wait());
    }
}

#[test]
fn failed_ping_ends_the_connection() {
    let mut monitor = open(30);
    act(&mut monitor, StreamInput::PingDue);
    assert_eq!(
        act(
            &mut monitor,
            StreamInput::Failed(StreamError::AlreadyClosed)
        ),
        StreamAction::Finish(Ending::Fatal)
    );
}

#[test]
fn shutdown_closes_the_connection() {
    let mut monitor = open(0);
    assert_eq!(
        act(&mut monitor, StreamInput::Cancelled),
        StreamAction::SendClose(close(CloseCode::Away, "Server shutting down"))
    );
    assert_eq!(act(&mut monitor, StreamInput::Done), StreamAction::Drain);
    assert_eq!(
        act(&mut monitor, StreamInput::Ended),
        StreamAction::Finish(Ending::Normal)
    );
}

#[test]
fn failed_close_is_survived() {
    let mut monitor = open(0);
    act(&mut monitor, StreamInput::Cancelled);
    assert_eq!(
        act(
            &mut monitor,
            StreamInput::Failed(StreamError::Io(ErrorKind::BrokenPipe))
        ),
        StreamAction::Finish(Ending::Survived)
    );
}

#[test]
fn violation_closes_the_connection_once() {
    let mut monitor = open(0);
    assert_eq!(
        act(
            &mut monitor,
            StreamInput::Received(StreamMessage::Binary(vec![1]))
        ),
        StreamAction::SendClose(close(CloseCode::Protocol, "Wrong-sized (1) binary frame"))
    );
    act(&mut monitor, StreamInput::Done);
    for message in [
        StreamMessage::Binary(vec![1]),
        StreamMessage::Text,
        StreamMessage::Close,
        StreamMessage::Frame,
    ] {
        assert_eq!(
            act(&mut monitor, StreamInput::Received(message)),
            StreamAction::Drain
        );
    }
}

#[test]
fn events_are_delivered_while_draining() {
    let mut monitor = open(0);
    act(&mut monitor, StreamInput::Cancelled);
    act(&mut monitor, StreamInput::Done);
    let mut events = Vec::new();
    assert_eq!(
        monitor.step(StreamInput::Received(packet(7, 8)), &mut events),
        StreamAction::Drain
    );
    assert_eq!(events, vec![MouseEvent::Move(7, 8)]);
}

#[test]
fn failure_while_draining_is_an_orderly_end() {
    let mut monitor = open(0);
    act(&mut monitor, StreamInput::Ended);
    assert_eq!(
        act(
            &mut monitor,
            StreamInput::Failed(StreamError::Io(ErrorKind::OutOfMemory))
        ),
        StreamAction::Finish(Ending::Normal)
    );
}

#[test]
fn closed_connection_is_drained() {
    let mut monitor = open(0);
    assert_eq!(act(&mut monitor, StreamInput::Ended), StreamAction::Drain);
    let mut monitor = open(0);
    assert_eq!(
        act(&mut monitor, StreamInput::Received(StreamMessage::Close)),
        StreamAction::Drain
    );
    let mut monitor = open(0);
    assert_eq!(
        act(
            &mut monitor,
            StreamInput::Failed(StreamError::ResetWithoutClosingHandshake)
        ),
        StreamAction::Drain
    );
}

#[test]
fn failure_to_receive_ends_the_connection() {
    let mut monitor = open(0);
    assert_eq!(
        act(
            &mut monitor,
            StreamInput::Failed(StreamError::Io(ErrorKind::InvalidData))
        ),
        StreamAction::Finish(Ending::Fatal)
    );
    let mut monitor = open(0);
    assert_eq!(
        act(
            &mut monitor,
            StreamInput::Failed(StreamError::Io(ErrorKind::ConnectionReset))
        ),
        StreamAction::Finish(Ending::Survived)
    );
    let mut monitor = open(0);
    assert_eq!(
        act(
            &mut monitor,
            StreamInput::Failed(StreamError::Capacity("Too long".to_owned()))
        ),
        StreamAction::SendClose(close(CloseCode::Size, "Too long"))
    );
}

#[test]
fn numbers_are_written() {
    for number in [0, 1, 7, 8, 9, 10, 63, 64, 99, 100, 511, 512, 12345, u64::MAX] {
        assert_eq!(write_number(number, 10), format!("{number}"));
        assert_eq!(write_number(number, 8), format!("{number:o}"));
        assert_eq!(write_number(number, 2), format!("{number:b}"));
    }
    for digit in 0..10 {
        assert_eq!(write_digit(digit), format!("{digit}"));
    }
}

#[test]
fn packets_are_delivered_between_pings_and_pongs() {
    let mut monitor = open(30);
    let mut events = Vec::new();
    for message in [
        packet(1, 2),
        StreamMessage::Pong,
        StreamMessage::Binary(vec![0, 0, 9, 9, 9, 9]),
        StreamMessage::Ping,
        packet(3, 4),
    ] {
        assert_eq!(
            monitor.step(StreamInput::Received(message), &mut events),
            StreamAction::Receive { ping: Some(30) }
        );
    }
    assert_eq!(
        events,
        vec![
            MouseEvent::Move(1, 2),
            MouseEvent::Click,
            MouseEvent::Move(3, 4)
        ]
    );
}

#[test]
fn peer_that_ends_the_connection_gets_no_close_frame() {
    for ending in [
        StreamInput::Received(StreamMessage::Close),
        StreamInput::Ended,
        StreamInput::Failed(StreamError::ResetWithoutClosingHandshake),
    ] {
        let mut monitor = open(0);
        assert_eq!(act(&mut monitor, ending), StreamAction::Drain);
        assert_eq!(
            act(&mut monitor, StreamInput::Received(StreamMessage::Text)),
            StreamAction::Drain
        );
        assert_eq!(
            act(
                &mut monitor,
                StreamInput::Failed(StreamError::AlreadyClosed)
            ),
            StreamAction::Finish(Ending::Normal)
        );
    }
}

#[test]
fn expected_inputs() {
    let monitor = |phase, ping| StreamMonitor { phase, ping };
    let failed = || StreamInput::Failed(StreamError::Utf8);
    for phase in [Phase::Handshaking, Phase::Pinging, Phase::Closing] {
        assert!(monitor(phase, Some(30)).expected(&StreamInput::Done));
        assert!(monitor(phase, Some(30)).expected(&StreamInput::Failed(StreamError::Http)));
        assert!(!monitor(phase, Some(30)).expected(&StreamInput::Cancelled));
        assert!(!monitor(phase, Some(30)).expected(&StreamInput::Received(StreamMessage::Ping)));
    }
    let receiving = monitor(Phase::Receiving, None);
    assert!(receiving.expected(&StreamInput::Cancelled));
    assert!(receiving.expected(&StreamInput::Ended));
    assert!(receiving.expected(&StreamInput::Received(StreamMessage::Text)));
    assert!(receiving.expected(&failed()));
    assert!(!receiving.expected(&StreamInput::Done));
    assert!(!receiving.expected(&StreamInput::PingDue));
    assert!(monitor(Phase::Receiving, Some(30)).expected(&StreamInput::PingDue));
    assert!(!receiving.expected(&StreamInput::Received(StreamMessage::Frame)));
    for error in [
        StreamError::ConnectionClosed,
        StreamError::AlreadyClosed,
        StreamError::Tls,
        StreamError::Url,
        StreamError::Http,
    ] {
        assert!(!receiving.expected(&StreamInput::Failed(error)));
    }
    let draining = monitor(Phase::Draining, Some(30));
    assert!(draining.expected(&StreamInput::Received(StreamMessage::Frame)));
    assert!(draining.expected(&StreamInput::Ended));
    assert!(draining.expected(&StreamInput::Failed(StreamError::AlreadyClosed)));
    assert!(!draining.expected(&StreamInput::Cancelled));
    assert!(!draining.expected(&StreamInput::PingDue));
    assert!(!monitor(Phase::Finished, Some(30)).expected(&StreamInput::Ended));
}
