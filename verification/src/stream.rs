//! What happens on a single WebSocket connection.

use crate::event::{
    InvalidOpcode, MouseEvent, decoded, encoded, law_decoding_inverts_encoding, law_packet_bytes,
};
use crate::fault::{ErrorKind, fatal_kind, is_fatal};
use crate::text::{numeral, write_number};
use crate::websocket::close::{
    CLOSE_GOING_AWAY, CLOSE_INVALID_FRAME_PAYLOAD_DATA, CLOSE_MESSAGE_TOO_BIG, CLOSE_PROTOCOL_ERROR,
    CLOSE_UNSUPPORTED_DATA,
};
use std::ops::ControlFlow;
use vstd::prelude::*;
use vstd::string::StringExecFns;

verus! {

/// The size, in bytes, that the write buffer of a connection reaches before it is written out: each
/// message is written out at once.
pub const WRITE_BUFFER_SIZE: usize = 0;

/// The largest size, in bytes, of the write buffer of a connection.
pub const MAX_WRITE_BUFFER_SIZE: usize = 64;

/// The largest message, and the largest frame, that is accepted on a connection, in bytes: nothing
/// longer than an event packet is of any use.
pub const MAX_MESSAGE_SIZE: usize = MouseEvent::ENCODED_SIZE;

/// A message received on a connection.
#[derive(Debug, Eq, Hash, PartialEq)]
pub enum StreamMessage {
    /// A text message.
    Text,
    /// A binary message.
    Binary(Vec<u8>),
    /// A ping.
    Ping,
    /// A pong.
    Pong,
    /// A request to close the connection, with or without details.
    Close,
    /// A raw frame, which is never received.
    Frame,
}

/// An error that ends a connection, or the attempt to set one up.
#[derive(Debug, Eq, Hash, PartialEq)]
pub enum StreamError {
    /// The connection was closed normally.
    ConnectionClosed,
    /// The connection was used after it was closed.
    AlreadyClosed,
    /// An input/output error.
    Io(ErrorKind),
    /// A TLS error.
    Tls,
    /// A size limit was exceeded, as the text explains.
    Capacity(String),
    /// The peer dropped the connection without a closing handshake.
    ResetWithoutClosingHandshake,
    /// Another violation of the protocol, as the text explains.
    Protocol(String),
    /// The write buffer is full.
    WriteBufferFull,
    /// A text is not UTF-8.
    Utf8,
    /// An attack was detected.
    AttackAttempt,
    /// A URL is invalid.
    Url,
    /// An HTTP error.
    Http,
    /// An HTTP message is malformed, as the text explains.
    HttpFormat(String),
}

/// The reason for which the server closes a connection, as a peer can tell it apart.
#[derive(Clone, Copy, Debug, Eq, Hash, PartialEq, Structural)]
pub enum CloseCode {
    /// The server is going away.
    Away,
    /// The peer violated the protocol.
    Protocol,
    /// The peer sent a kind of message that is not supported.
    Unsupported,
    /// The peer sent text that is not UTF-8.
    Invalid,
    /// The peer sent something too large.
    Size,
}

/// The number that stands for a close code in a close frame.
pub open spec fn close_number(code: CloseCode) -> u16 {
    match code {
        CloseCode::Away => CLOSE_GOING_AWAY,
        CloseCode::Protocol => CLOSE_PROTOCOL_ERROR,
        CloseCode::Unsupported => CLOSE_UNSUPPORTED_DATA,
        CloseCode::Invalid => CLOSE_INVALID_FRAME_PAYLOAD_DATA,
        CloseCode::Size => CLOSE_MESSAGE_TOO_BIG,
    }
}

impl CloseCode {
    /// Returns the number that stands for this close code in a close frame.
    pub fn number(self) -> (number: u16)
        ensures
            number == close_number(self),
    {
        match self {
            CloseCode::Away => CLOSE_GOING_AWAY,
            CloseCode::Protocol => CLOSE_PROTOCOL_ERROR,
            CloseCode::Unsupported => CLOSE_UNSUPPORTED_DATA,
            CloseCode::Invalid => CLOSE_INVALID_FRAME_PAYLOAD_DATA,
            CloseCode::Size => CLOSE_MESSAGE_TOO_BIG,
        }
    }
}

/// A close frame.
#[derive(Debug, Eq, Hash, PartialEq)]
pub struct CloseFrame {
    /// The reason, as a peer can tell it apart.
    pub code: CloseCode,
    /// The reason, for a human reader.
    pub reason: String,
}

/// The contents of a [`CloseFrame`].
#[verifier::ext_equal]
pub struct CloseContents {
    /// The reason, as a peer can tell it apart.
    pub code: CloseCode,
    /// The reason, for a human reader.
    pub reason: Seq<char>,
}

impl View for CloseFrame {
    type V = CloseContents;

    open spec fn view(&self) -> CloseContents {
        CloseContents { code: self.code, reason: self.reason@ }
    }
}

/// The contents of a close frame that may be missing.
pub open spec fn close_contents(frame: Option<CloseFrame>) -> Option<CloseContents> {
    match frame {
        Some(frame) => Some(frame@),
        None => None,
    }
}

/// The event that a binary message stands for, if it has the length of an event packet and a known
/// opcode.
pub open spec fn packet_event(data: Seq<u8>) -> Option<MouseEvent> {
    if data.len() == MouseEvent::ENCODED_SIZE {
        match decoded(data) {
            Ok(event) => Some(event),
            Err(_) => None,
        }
    } else {
        None
    }
}

/// The events that a message stands for: at most one.
pub open spec fn message_events(message: StreamMessage) -> Seq<MouseEvent> {
    match message {
        StreamMessage::Binary(data) => match packet_event(data@) {
            Some(event) => seq![event],
            None => seq![],
        },
        _ => seq![],
    }
}

/// Whether the connection goes on after a message or ends, and with which close frame.
pub open spec fn message_verdict(message: StreamMessage) -> ControlFlow<
    Option<CloseContents>,
    (),
> {
    match message {
        StreamMessage::Text => ControlFlow::Break(
            Some(
                CloseContents {
                    code: CloseCode::Unsupported,
                    reason: "Text frames not supported"@,
                },
            ),
        ),
        StreamMessage::Binary(data) => if data@.len() != MouseEvent::ENCODED_SIZE {
            ControlFlow::Break(
                Some(
                    CloseContents {
                        code: CloseCode::Protocol,
                        reason: "Wrong-sized ("@ + numeral(data@.len(), 10)
                            + ") binary frame"@,
                    },
                ),
            )
        } else if decoded(data@) is Err {
            ControlFlow::Break(
                Some(
                    CloseContents {
                        code: CloseCode::Protocol,
                        reason: "Undecodable event packet: "@ + "Invalid opcode in packet"@,
                    },
                ),
            )
        } else {
            ControlFlow::Continue(())
        },
        StreamMessage::Ping | StreamMessage::Pong => ControlFlow::Continue(()),
        StreamMessage::Close | StreamMessage::Frame => ControlFlow::Break(None),
    }
}

/// The contents of a verdict.
pub open spec fn verdict_contents(
    verdict: ControlFlow<Option<CloseFrame>, ()>,
) -> ControlFlow<Option<CloseContents>, ()> {
    match verdict {
        ControlFlow::Break(frame) => ControlFlow::Break(close_contents(frame)),
        ControlFlow::Continue(()) => ControlFlow::Continue(()),
    }
}

/// Takes the bytes of a message of the length of an event packet.
fn packet(data: &Vec<u8>) -> (packet: Option<[u8; 6]>)
    ensures
        packet is Some <==> data@.len() == MouseEvent::ENCODED_SIZE,
        packet is Some ==> packet->Some_0@ == data@,
{
    if data.len() == MouseEvent::ENCODED_SIZE {
        let packet: [u8; 6] = [data[0], data[1], data[2], data[3], data[4], data[5]];
        proof {
            assert(packet@ =~= data@);
        }
        Some(packet)
    } else {
        None
    }
}

/// Makes a close frame.
fn close_frame(code: CloseCode, reason: &str) -> (frame: CloseFrame)
    ensures
        frame@ == (CloseContents { code, reason: reason@ }),
{
    CloseFrame { code, reason: reason.to_owned() }
}

/// Handles a single message received on a stream.
///
/// Returns [`Continue`](ControlFlow::Continue) if the loop should continue and receive another
/// message, or [`Break`](ControlFlow::Break) with the [`CloseFrame`] to reply with (or `None` to not
/// send a [`CloseFrame`]) if the socket should shut down. A decoded event is added to `events`.
pub fn handle_message(message: &StreamMessage, events: &mut Vec<MouseEvent>) -> (verdict:
    ControlFlow<Option<CloseFrame>, ()>)
    requires
        message !is Frame,
    ensures
        final(events)@ == old(events)@ + message_events(*message),
        verdict_contents(verdict) == message_verdict(*message),
{
    let verdict = match message {
        StreamMessage::Text => {
            // Text frames are not supported.
            ControlFlow::Break(
                Some(close_frame(CloseCode::Unsupported, "Text frames not supported")),
            )
        },
        StreamMessage::Binary(data) => {
            // Check if the message is the right length.
            match packet(data) {
                Some(packet) => {
                    // The message is the right length. Try to decode it.
                    match MouseEvent::try_from(packet) {
                        Ok(event) => {
                            // The message is OK. Send it to the event handling task.
                            events.push(event);
                            ControlFlow::Continue(())
                        },
                        Err(e) => {
                            // The message is erroneous.
                            let mut reason: String = "Undecodable event packet: ".to_owned();
                            reason.append(e.message().as_str());
                            ControlFlow::Break(
                                Some(CloseFrame { code: CloseCode::Protocol, reason }),
                            )
                        },
                    }
                },
                None => {
                    // The message is the wrong length.
                    let mut reason: String = "Wrong-sized (".to_owned();
                    reason.append(write_number(data.len() as u64, 10).as_str());
                    reason.append(") binary frame");
                    ControlFlow::Break(Some(CloseFrame { code: CloseCode::Protocol, reason }))
                },
            }
        },
        // Ignore these.
        StreamMessage::Ping | StreamMessage::Pong => ControlFlow::Continue(()),
        // The client asked to close the connection. Do that.
        StreamMessage::Close | StreamMessage::Frame => ControlFlow::Break(None),
    };
    proof {
        assert(events@ =~= old(events)@ + message_events(*message));
    }
    verdict
}

/// How a connection ends, as far as the application is concerned.
#[derive(Clone, Copy, Debug, Eq, Hash, PartialEq, Structural)]
pub enum Ending {
    /// The connection ended in an orderly way.
    Normal,
    /// The connection failed, which is worth a note in the log; the application goes on.
    Survived,
    /// The connection failed in a way that the application must not survive.
    Fatal,
}

/// How a connection ends that failed with `error`.
pub open spec fn failure_ending(error: StreamError) -> Ending {
    match error {
        StreamError::AlreadyClosed => Ending::Fatal,
        StreamError::Io(kind) => if fatal_kind(kind) {
            Ending::Fatal
        } else {
            Ending::Survived
        },
        _ => Ending::Survived,
    }
}

/// Decides how a connection ends that failed with `error`.
pub fn ending_of(error: &StreamError) -> (ending: Ending)
    ensures
        ending == failure_ending(*error),
{
    match error {
        StreamError::AlreadyClosed => Ending::Fatal,
        StreamError::Io(kind) => {
            if is_fatal(*kind) {
                Ending::Fatal
            } else {
                Ending::Survived
            }
        },
        _ => Ending::Survived,
    }
}

/// Whether receiving never fails with `error`: that a connection is closed is not reported as a
/// failure, TLS is not in use, and the other two only happen to clients.
pub open spec fn never_received(error: StreamError) -> bool {
    ||| error is ConnectionClosed
    ||| error is AlreadyClosed
    ||| error is Tls
    ||| error is Url
    ||| error is Http
}

/// What to do about a failure to receive: give the connection up at once (`None`), or end it, with or
/// without a close frame.
pub open spec fn error_verdict(error: StreamError) -> Option<Option<CloseContents>> {
    match error {
        StreamError::Capacity(text) => Some(
            Some(CloseContents { code: CloseCode::Size, reason: text@ }),
        ),
        StreamError::ResetWithoutClosingHandshake => Some(None),
        StreamError::Protocol(text) => Some(
            Some(CloseContents { code: CloseCode::Protocol, reason: text@ }),
        ),
        StreamError::Utf8 => Some(
            Some(CloseContents { code: CloseCode::Invalid, reason: "Invalid UTF-8"@ }),
        ),
        StreamError::HttpFormat(text) => Some(
            Some(CloseContents { code: CloseCode::Protocol, reason: text@ }),
        ),
        _ => None,
    }
}

/// The contents of a decision about a failure to receive.
pub open spec fn error_verdict_contents(verdict: Option<Option<CloseFrame>>) -> Option<
    Option<CloseContents>,
> {
    match verdict {
        Some(frame) => Some(close_contents(frame)),
        None => None,
    }
}

/// Decides what to do about a failure to receive: returns `None` if the connection is to be given up
/// at once, or else the close frame to end it with, if any.
pub fn handle_error(error: &StreamError) -> (verdict: Option<Option<CloseFrame>>)
    requires
        !never_received(*error),
    ensures
        error_verdict_contents(verdict) == error_verdict(*error),
{
    match error {
        StreamError::Capacity(text) => Some(Some(close_frame(CloseCode::Size, text.as_str()))),
        StreamError::ResetWithoutClosingHandshake => Some(None),
        StreamError::Protocol(text) => Some(
            Some(close_frame(CloseCode::Protocol, text.as_str())),
        ),
        StreamError::Utf8 => Some(Some(close_frame(CloseCode::Invalid, "Invalid UTF-8"))),
        StreamError::HttpFormat(text) => Some(
            Some(close_frame(CloseCode::Protocol, text.as_str())),
        ),
        _ => None,
    }
}

/// What a connection is waiting for.
#[derive(Clone, Copy, Debug, Eq, Hash, PartialEq, Structural)]
pub enum Phase {
    /// The handshake.
    Handshaking,
    /// A message, a shutdown, or the time for a ping.
    Receiving,
    /// The sending of a ping.
    Pinging,
    /// The sending of a close frame.
    Closing,
    /// What the peer still has to say.
    Draining,
    /// Nothing any more.
    Finished,
}

/// What has happened on a connection.
#[derive(Debug, Eq, Hash, PartialEq)]
pub enum StreamInput {
    /// The handshake or the sending has been completed.
    Done,
    /// A shutdown has been signalled.
    Cancelled,
    /// A while has passed since anything was received.
    PingDue,
    /// A message was received.
    Received(StreamMessage),
    /// The connection was closed.
    Ended,
    /// The handshake, the sending or the receiving has failed.
    Failed(StreamError),
}

/// What is to be done on a connection.
#[derive(Debug, Eq, Hash, PartialEq)]
pub enum StreamAction {
    /// Wait for a message or for a shutdown, and, if `ping` is given, no longer than that many
    /// seconds from now on.
    Receive {
        /// The time, in seconds, after which a ping is due, if one ever is.
        ping: Option<u64>,
    },
    /// Send a ping without payload.
    SendPing,
    /// Send a close frame.
    SendClose(CloseFrame),
    /// Wait for a message, and for nothing else.
    Drain,
    /// Stop.
    Finish(Ending),
}

/// The contents of a [`StreamAction`].
#[verifier::ext_equal]
pub enum ActionContents {
    /// Wait for a message or for a shutdown, and perhaps no longer than a number of seconds.
    Receive(Option<u64>),
    /// Send a ping.
    SendPing,
    /// Send a close frame.
    SendClose(CloseContents),
    /// Wait for a message.
    Drain,
    /// Stop.
    Finish(Ending),
}

impl View for StreamAction {
    type V = ActionContents;

    open spec fn view(&self) -> ActionContents {
        match self {
            StreamAction::Receive { ping } => ActionContents::Receive(*ping),
            StreamAction::SendPing => ActionContents::SendPing,
            StreamAction::SendClose(frame) => ActionContents::SendClose(frame@),
            StreamAction::Drain => ActionContents::Drain,
            StreamAction::Finish(ending) => ActionContents::Finish(*ending),
        }
    }
}

/// A connection, from its handshake to its end.
#[derive(Clone, Copy, Debug, Eq, Hash, PartialEq, Structural)]
pub struct StreamMonitor {
    /// What the connection is waiting for.
    pub phase: Phase,
    /// How long, in seconds, the connection must be idle before it is pinged, if it ever is.
    pub ping: Option<u64>,
}

impl StreamMonitor {
    /// Whether `input` can happen now.
    pub open spec fn expects(self, input: StreamInput) -> bool {
        match self.phase {
            Phase::Handshaking | Phase::Pinging | Phase::Closing => input is Done
                || input is Failed,
            Phase::Receiving => match input {
                StreamInput::Cancelled | StreamInput::Ended => true,
                StreamInput::PingDue => self.ping is Some,
                StreamInput::Received(message) => message !is Frame,
                StreamInput::Failed(error) => !never_received(error),
                StreamInput::Done => false,
            },
            Phase::Draining => input is Received || input is Ended || input is Failed,
            Phase::Finished => false,
        }
    }

    /// The connection in another phase.
    pub open spec fn in_phase(self, phase: Phase) -> StreamMonitor {
        StreamMonitor { phase, ..self }
    }
}

/// How a connection goes on that is about to end.
pub open spec fn close_begun(monitor: StreamMonitor, frame: Option<CloseContents>) -> (
    StreamMonitor,
    ActionContents,
) {
    match frame {
        Some(frame) => (monitor.in_phase(Phase::Closing), ActionContents::SendClose(frame)),
        None => (monitor.in_phase(Phase::Draining), ActionContents::Drain),
    }
}

/// How a connection goes on after `input`.
pub open spec fn stream_step(monitor: StreamMonitor, input: StreamInput) -> (
    StreamMonitor,
    ActionContents,
) {
    let receive = (
        monitor.in_phase(Phase::Receiving),
        ActionContents::Receive(monitor.ping),
    );
    let drain = (monitor.in_phase(Phase::Draining), ActionContents::Drain);
    match (monitor.phase, input) {
        (Phase::Receiving, StreamInput::Cancelled) => close_begun(
            monitor,
            Some(CloseContents { code: CloseCode::Away, reason: "Server shutting down"@ }),
        ),
        (Phase::Receiving, StreamInput::PingDue) => (
            monitor.in_phase(Phase::Pinging),
            ActionContents::SendPing,
        ),
        (Phase::Receiving, StreamInput::Received(message)) => match message_verdict(message) {
            ControlFlow::Break(frame) => close_begun(monitor, frame),
            ControlFlow::Continue(()) => receive,
        },
        (Phase::Receiving, StreamInput::Failed(error)) => match error_verdict(error) {
            Some(frame) => close_begun(monitor, frame),
            None => (
                monitor.in_phase(Phase::Finished),
                ActionContents::Finish(failure_ending(error)),
            ),
        },
        (Phase::Receiving, _) => drain,
        (Phase::Draining, StreamInput::Received(_)) => drain,
        (Phase::Draining, _) => (
            monitor.in_phase(Phase::Finished),
            ActionContents::Finish(Ending::Normal),
        ),
        (_, StreamInput::Failed(error)) => (
            monitor.in_phase(Phase::Finished),
            ActionContents::Finish(failure_ending(error)),
        ),
        (Phase::Closing, _) => drain,
        _ => receive,
    }
}

/// The events that `input` stands for.
pub open spec fn input_events(input: StreamInput) -> Seq<MouseEvent> {
    match input {
        StreamInput::Received(message) => message_events(message),
        _ => seq![],
    }
}

/// How long a connection must be idle before it is pinged, where zero stands for never.
pub open spec fn ping_after(ping_time: u64) -> Option<u64> {
    if ping_time == 0 {
        None
    } else {
        Some(ping_time)
    }
}

/// A connection before its handshake.
pub open spec fn new_monitor(ping_time: u64) -> StreamMonitor {
    StreamMonitor { phase: Phase::Handshaking, ping: ping_after(ping_time) }
}

impl StreamMonitor {
    /// Starts with the handshake of a connection. The connection is pinged whenever it has been idle
    /// for `ping_time` seconds, or never if that is zero.
    pub fn new(ping_time: u64) -> (monitor: Self)
        ensures
            monitor == new_monitor(ping_time),
    {
        let ping: Option<u64> = if ping_time == 0 {
            None
        } else {
            Some(ping_time)
        };
        StreamMonitor { phase: Phase::Handshaking, ping }
    }

    /// Tells whether `input` can happen now.
    pub fn expected(&self, input: &StreamInput) -> (expected: bool)
        ensures
            expected == self.expects(*input),
    {
        match self.phase {
            Phase::Handshaking | Phase::Pinging | Phase::Closing => match input {
                StreamInput::Done | StreamInput::Failed(_) => true,
                _ => false,
            },
            Phase::Receiving => match input {
                StreamInput::Cancelled | StreamInput::Ended => true,
                StreamInput::PingDue => self.ping.is_some(),
                StreamInput::Received(StreamMessage::Frame) => false,
                StreamInput::Received(_) => true,
                StreamInput::Failed(error) => match error {
                    StreamError::ConnectionClosed
                    | StreamError::AlreadyClosed
                    | StreamError::Tls
                    | StreamError::Url
                    | StreamError::Http => false,
                    _ => true,
                },
                StreamInput::Done => false,
            },
            Phase::Draining => match input {
                StreamInput::Received(_) | StreamInput::Ended | StreamInput::Failed(_) => true,
                _ => false,
            },
            Phase::Finished => false,
        }
    }

    /// Waits for whatever comes next.
    fn receive(&mut self) -> (action: StreamAction)
        ensures
            (*final(self), action@) == (
                old(self).in_phase(Phase::Receiving),
                ActionContents::Receive(old(self).ping),
            ),
    {
        self.phase = Phase::Receiving;
        StreamAction::Receive { ping: self.ping }
    }

    /// Begins to end the connection.
    fn begin_close(&mut self, frame: Option<CloseFrame>) -> (action: StreamAction)
        ensures
            (*final(self), action@) == close_begun(*old(self), close_contents(frame)),
    {
        match frame {
            Some(frame) => {
                self.phase = Phase::Closing;
                StreamAction::SendClose(frame)
            },
            None => {
                self.phase = Phase::Draining;
                StreamAction::Drain
            },
        }
    }

    /// Ends the connection.
    fn finish(&mut self, ending: Ending) -> (action: StreamAction)
        ensures
            (*final(self), action@) == (
                old(self).in_phase(Phase::Finished),
                ActionContents::Finish(ending),
            ),
    {
        self.phase = Phase::Finished;
        StreamAction::Finish(ending)
    }

    /// Takes note of what has happened, and returns what is to be done. Decoded events are added to
    /// `events`.
    pub fn step(&mut self, input: StreamInput, events: &mut Vec<MouseEvent>) -> (action:
        StreamAction)
        requires
            old(self).expects(input),
        ensures
            (*final(self), action@) == stream_step(*old(self), input),
            final(events)@ == old(events)@ + input_events(input),
    {
        proof {
            assert(events@ + seq![] =~= events@);
        }
        match (self.phase, input) {
            (Phase::Receiving, StreamInput::Cancelled) => {
                // A shutdown has been signalled.
                self.begin_close(Some(close_frame(CloseCode::Away, "Server shutting down")))
            },
            (Phase::Receiving, StreamInput::PingDue) => {
                // A while has passed since anything was received. Send a ping, which will provoke a
                // pong, to ensure that no intermediaries time out the connection.
                self.phase = Phase::Pinging;
                StreamAction::SendPing
            },
            (Phase::Receiving, StreamInput::Received(message)) => match handle_message(
                &message,
                events,
            ) {
                ControlFlow::Break(frame) => self.begin_close(frame),
                ControlFlow::Continue(()) => self.receive(),
            },
            (Phase::Receiving, StreamInput::Failed(error)) => match handle_error(&error) {
                Some(frame) => self.begin_close(frame),
                None => self.finish(ending_of(&error)),
            },
            (Phase::Receiving, _) => {
                // The connection was closed without a close frame.
                self.begin_close(None)
            },
            (Phase::Draining, StreamInput::Received(message)) => {
                // There's not really anything we can do about anything unexpected at this point,
                // since we've already sent a close frame, so skip the error handling and just drop
                // anything wrong.
                if let StreamMessage::Binary(data) = &message {
                    if let Some(packet) = packet(data) {
                        if let Ok(event) = MouseEvent::try_from(packet) {
                            events.push(event);
                        }
                    }
                }
                proof {
                    assert(events@ =~= old(events)@ + input_events(input));
                }
                StreamAction::Drain
            },
            (Phase::Draining, _) => self.finish(Ending::Normal),
            (_, StreamInput::Failed(error)) => self.finish(ending_of(&error)),
            (Phase::Closing, _) => {
                self.phase = Phase::Draining;
                StreamAction::Drain
            },
            _ => self.receive(),
        }
    }
}

/// A binary message that encodes an event yields exactly that event, and the connection goes on.
pub proof fn law_encoded_event_is_delivered(event: MouseEvent, data: Vec<u8>)
    requires
        data@ == encoded(event),
    ensures
        message_events(StreamMessage::Binary(data)) == seq![event],
        message_verdict(StreamMessage::Binary(data)) == ControlFlow::<
            Option<CloseContents>,
            (),
        >::Continue(()),
{
    law_decoding_inverts_encoding(event);
}

/// A binary message either yields an event, and the connection goes on, or yields none, and the
/// connection ends with a complaint about the protocol.
pub proof fn law_bad_packet_ends_connection(data: Vec<u8>)
    ensures
        message_events(StreamMessage::Binary(data)).len() == 1 <==> message_verdict(
            StreamMessage::Binary(data),
        ) is Continue,
        message_events(StreamMessage::Binary(data)).len() == 0 <==> (message_verdict(
            StreamMessage::Binary(data),
        ) matches ControlFlow::Break(Some(frame)) && frame.code == CloseCode::Protocol),
{
}

/// Only a fault of this side ends the application: a peer can at worst lose its own connection.
pub proof fn law_peers_are_survived(monitor: StreamMonitor, input: StreamInput)
    requires
        monitor.expects(input),
        stream_step(monitor, input).1 == ActionContents::Finish(Ending::Fatal),
    ensures
        input matches StreamInput::Failed(error) && (error is AlreadyClosed || (error matches
            StreamError::Io(kind) && fatal_kind(kind))),
{
}

/// The state of a connection and what was to be done on it, after a sequence of happenings.
pub open spec fn stream_run(monitor: StreamMonitor, inputs: Seq<StreamInput>) -> (
    StreamMonitor,
    Seq<ActionContents>,
)
    decreases inputs.len(),
{
    if inputs.len() == 0 {
        (monitor, seq![])
    } else {
        let (before, actions) = stream_run(monitor, inputs.drop_last());
        let (after, action) = stream_step(before, inputs.last());
        (after, actions.push(action))
    }
}

/// Whether each of `inputs` can happen when it does.
pub open spec fn possible_run(monitor: StreamMonitor, inputs: Seq<StreamInput>) -> bool
    decreases inputs.len(),
{
    inputs.len() == 0 || (possible_run(monitor, inputs.drop_last()) && stream_run(
        monitor,
        inputs.drop_last(),
    ).0.expects(inputs.last()))
}

/// A connection is pinged exactly when it has been idle for the ping time: every wait on it is
/// limited by that time, or by none if it is zero; a ping is sent whenever a wait has reached its
/// limit, and never else; and once the ping is sent, the connection goes on with another such wait.
pub proof fn law_pings_follow_idleness(ping_time: u64, inputs: Seq<StreamInput>)
    requires
        possible_run(new_monitor(ping_time), inputs),
    ensures
        ({
            let (after, actions) = stream_run(new_monitor(ping_time), inputs);
            let wait = ActionContents::Receive(ping_after(ping_time));
            &&& actions.len() == inputs.len()
            &&& after.phase == Phase::Receiving <==> actions.len() > 0 && actions.last() == wait
            &&& forall|i: int|
                0 <= i < actions.len() ==> ((#[trigger] actions[i]) is Receive ==> actions[i]
                    == wait)
            &&& forall|i: int|
                0 <= i < actions.len() ==> ((#[trigger] actions[i]) is SendPing
                    <==> inputs[i] is PingDue)
            &&& forall|i: int|
                0 <= i < actions.len() && (#[trigger] actions[i]) is SendPing ==> ping_time != 0 && i
                    > 0 && actions[i - 1] == wait
            &&& forall|i: int|
                0 < i < actions.len() && actions[i - 1] is SendPing && inputs[i] is Done
                    ==> #[trigger] actions[i] == wait
        }),
    decreases inputs.len(),
{
    lemma_run_state(ping_time, inputs);
    if inputs.len() > 0 {
        let earlier = inputs.drop_last();
        law_pings_follow_idleness(ping_time, earlier);
        lemma_run_state(ping_time, earlier);
    }
}

/// What the state of a connection says about the last thing to be done on it.
proof fn lemma_run_state(ping_time: u64, inputs: Seq<StreamInput>)
    requires
        possible_run(new_monitor(ping_time), inputs),
    ensures
        ({
            let (after, actions) = stream_run(new_monitor(ping_time), inputs);
            &&& actions.len() == inputs.len()
            &&& after.ping == ping_after(ping_time)
            &&& after.phase == Phase::Receiving <==> actions.len() > 0 && actions.last()
                == ActionContents::Receive(ping_after(ping_time))
            &&& after.phase == Phase::Pinging <==> actions.len() > 0 && actions.last() is SendPing
        }),
    decreases inputs.len(),
{
    if inputs.len() > 0 {
        lemma_run_state(ping_time, inputs.drop_last());
    }
}

/// How many close frames are to be sent.
pub open spec fn closes(actions: Seq<ActionContents>) -> nat
    decreases actions.len(),
{
    if actions.len() == 0 {
        0
    } else {
        closes(actions.drop_last()) + if actions.last() is SendClose {
            1nat
        } else {
            0
        }
    }
}

/// How far a connection has come.
pub open spec fn progress(phase: Phase) -> nat {
    match phase {
        Phase::Handshaking => 0,
        Phase::Receiving | Phase::Pinging => 1,
        Phase::Closing => 2,
        Phase::Draining => 3,
        Phase::Finished => 4,
    }
}

/// A connection never goes back: once it is being closed it is only drained, and once it has ended
/// nothing happens any more.
pub proof fn law_connection_only_advances(monitor: StreamMonitor, input: StreamInput)
    requires
        monitor.expects(input),
    ensures
        ({
            let (after, action) = stream_step(monitor, input);
            &&& progress(after.phase) >= progress(monitor.phase)
            &&& monitor.phase == Phase::Closing ==> after.phase == Phase::Draining || after.phase
                == Phase::Finished
            &&& action is SendClose <==> after.phase == Phase::Closing
            &&& action is Drain <==> after.phase == Phase::Draining
            &&& action is Finish <==> after.phase == Phase::Finished
        }),
{
}

/// At most one close frame is sent on a connection, and nothing is sent after it.
pub proof fn law_one_close_frame(monitor: StreamMonitor, inputs: Seq<StreamInput>)
    requires
        monitor.phase == Phase::Handshaking,
        possible_run(monitor, inputs),
    ensures
        ({
            let (after, actions) = stream_run(monitor, inputs);
            &&& actions.len() == inputs.len()
            &&& closes(actions) <= 1
            &&& progress(after.phase) < 2 ==> closes(actions) == 0
            &&& forall|i: int, j: int|
                #![trigger actions[i], actions[j]]
                0 <= i < j < actions.len() && actions[i] is SendClose ==> actions[j] is Drain
                    || actions[j] is Finish
        }),
    decreases inputs.len(),
{
    if inputs.len() > 0 {
        let earlier = inputs.drop_last();
        law_one_close_frame(monitor, earlier);
        let (before, actions) = stream_run(monitor, earlier);
        law_connection_only_advances(before, inputs.last());
        let (after, action) = stream_step(before, inputs.last());
        assert(actions.push(action).drop_last() =~= actions);
        lemma_no_close_counted(actions);
    }
}

/// If no close frame is counted, none is there.
proof fn lemma_no_close_counted(actions: Seq<ActionContents>)
    ensures
        closes(actions) == 0 ==> forall|i: int|
            0 <= i < actions.len() ==> (#[trigger] actions[i]) !is SendClose,
    decreases actions.len(),
{
    if actions.len() > 0 {
        lemma_no_close_counted(actions.drop_last());
        assert forall|i: int| closes(actions) == 0 && 0 <= i < actions.len() implies (
        #[trigger] actions[i]) !is SendClose by {
            if i < actions.len() - 1 {
                assert(actions.drop_last()[i] == actions[i]);
            }
        }
    }
}

/// Whether the peer ends the connection by `input`: with a close message, by closing the transport,
/// or by dropping it.
pub open spec fn ended_by_peer(input: StreamInput) -> bool {
    ||| input == StreamInput::Received(StreamMessage::Close)
    ||| input is Ended
    ||| input == StreamInput::Failed(StreamError::ResetWithoutClosingHandshake)
}

/// A peer that ends an open connection gets no close frame, before or after, and the connection ends
/// in an orderly way: all that is left to do is to drain it.
pub proof fn law_peer_ends_quietly(
    monitor: StreamMonitor,
    before: Seq<StreamInput>,
    ending: StreamInput,
    rest: Seq<StreamInput>,
)
    requires
        monitor.phase == Phase::Handshaking,
        possible_run(monitor, before.push(ending) + rest),
        stream_run(monitor, before).0.phase == Phase::Receiving,
        ended_by_peer(ending),
    ensures
        ({
            let (after, actions) = stream_run(monitor, before.push(ending) + rest);
            &&& actions.len() == before.len() + 1 + rest.len()
            &&& closes(actions) == 0
            &&& after.phase == Phase::Draining || after.phase == Phase::Finished
            &&& forall|i: int|
                before.len() <= i < actions.len() ==> (#[trigger] actions[i])
                    == ActionContents::Drain || actions[i] == ActionContents::Finish(
                    Ending::Normal,
                )
            &&& after.phase == Phase::Finished ==> actions.last() == ActionContents::Finish(
                Ending::Normal,
            )
        }),
    decreases rest.len(),
{
    let inputs = before.push(ending) + rest;
    let earlier = inputs.drop_last();
    let (state, actions) = stream_run(monitor, earlier);
    let (after, action) = stream_step(state, inputs.last());
    assert(actions.push(action).drop_last() =~= actions);
    if rest.len() == 0 {
        assert(earlier =~= before);
        law_one_close_frame(monitor, before);
    } else {
        assert(earlier =~= before.push(ending) + rest.drop_last());
        law_peer_ends_quietly(monitor, before, ending, rest.drop_last());
    }
}

/// The events that a sequence of happenings stands for, in order.
pub open spec fn delivered(inputs: Seq<StreamInput>) -> Seq<MouseEvent>
    decreases inputs.len(),
{
    if inputs.len() == 0 {
        seq![]
    } else {
        delivered(inputs.drop_last()) + input_events(inputs.last())
    }
}

/// The contents of the binary messages among `inputs`, in order.
pub open spec fn packets(inputs: Seq<StreamInput>) -> Seq<Seq<u8>>
    decreases inputs.len(),
{
    if inputs.len() == 0 {
        seq![]
    } else {
        let before = packets(inputs.drop_last());
        match inputs.last() {
            StreamInput::Received(StreamMessage::Binary(data)) => before.push(data@),
            _ => before,
        }
    }
}

/// The events that packets stand for, in order, without those packets that stand for none.
pub open spec fn packet_events(packets: Seq<Seq<u8>>) -> Seq<MouseEvent>
    decreases packets.len(),
{
    if packets.len() == 0 {
        seq![]
    } else {
        let before = packet_events(packets.drop_last());
        match packet_event(packets.last()) {
            Some(event) => before.push(event),
            None => before,
        }
    }
}

/// Whether `events` are what `packets` stand for, one each.
pub open spec fn all_decode(packets: Seq<Seq<u8>>, events: Seq<MouseEvent>) -> bool {
    &&& packets.len() == events.len()
    &&& forall|i: int|
        0 <= i < packets.len() ==> packet_event(#[trigger] packets[i]) == Some(events[i])
}

/// What is delivered depends on the packets alone.
proof fn lemma_delivered(inputs: Seq<StreamInput>)
    ensures
        delivered(inputs) == packet_events(packets(inputs)),
    decreases inputs.len(),
{
    if inputs.len() > 0 {
        let earlier = inputs.drop_last();
        lemma_delivered(earlier);
        if let StreamInput::Received(StreamMessage::Binary(data)) = inputs.last() {
            assert(packets(earlier).push(data@).drop_last() =~= packets(earlier));
        }
        assert(delivered(inputs) =~= packet_events(packets(inputs)));
    }
}

/// One more packet that decodes.
proof fn lemma_one_more_decodes(
    packets: Seq<Seq<u8>>,
    events: Seq<MouseEvent>,
    packet: Seq<u8>,
    event: MouseEvent,
)
    requires
        all_decode(packets, events),
        packet_event(packet) == Some(event),
    ensures
        all_decode(packets.push(packet), events.push(event)),
{
    let more = packets.push(packet);
    assert forall|i: int| 0 <= i < more.len() implies packet_event(#[trigger] more[i]) == Some(
        events.push(event)[i],
    ) by {
        if i < packets.len() {
            assert(more[i] == packets[i]);
        }
    }
}

/// Whatever happens on a connection, the events that are delivered are those that its packets stand
/// for, in order; and as long as the connection is open, every packet so far has been delivered.
pub proof fn law_packets_are_delivered(monitor: StreamMonitor, inputs: Seq<StreamInput>)
    requires
        monitor.phase == Phase::Handshaking,
        possible_run(monitor, inputs),
    ensures
        delivered(inputs) == packet_events(packets(inputs)),
        progress(stream_run(monitor, inputs).0.phase) < 2 ==> all_decode(
            packets(inputs),
            delivered(inputs),
        ),
    decreases inputs.len(),
{
    lemma_delivered(inputs);
    if inputs.len() > 0 {
        let earlier = inputs.drop_last();
        law_packets_are_delivered(monitor, earlier);
        let before = stream_run(monitor, earlier).0;
        let after = stream_step(before, inputs.last()).0;
        law_connection_only_advances(before, inputs.last());
        if progress(after.phase) < 2 {
            match inputs.last() {
                StreamInput::Received(StreamMessage::Binary(data)) => {
                    assert(packet_event(data@) is Some);
                    let event = packet_event(data@)->Some_0;
                    lemma_one_more_decodes(packets(earlier), delivered(earlier), data@, event);
                    assert(delivered(inputs) =~= delivered(earlier).push(event));
                },
                _ => {
                    assert(delivered(inputs) =~= delivered(earlier));
                },
            }
        }
    }
}

/// Whether `input` is a binary message, a ping or a pong.
pub open spec fn is_ordinary(input: StreamInput) -> bool {
    ||| input matches StreamInput::Received(StreamMessage::Binary(_))
    ||| input == StreamInput::Received(StreamMessage::Ping)
    ||| input == StreamInput::Received(StreamMessage::Pong)
}

/// What a client sends is what is delivered: a sequence of events, each in a packet of its own, with
/// pings and pongs in between, comes out complete and in order, and the connection stays open for
/// more. The same holds of what a client still sends while its connection is being closed.
pub proof fn law_event_stream_is_delivered(
    monitor: StreamMonitor,
    inputs: Seq<StreamInput>,
    events: Seq<MouseEvent>,
)
    requires
        monitor.phase == Phase::Receiving || monitor.phase == Phase::Draining,
        forall|i: int| 0 <= i < inputs.len() ==> is_ordinary(#[trigger] inputs[i]),
        all_decode(packets(inputs), events),
    ensures
        possible_run(monitor, inputs),
        stream_run(monitor, inputs).0 == monitor,
        delivered(inputs) == events,
    decreases inputs.len(),
{
    if inputs.len() > 0 {
        let earlier = inputs.drop_last();
        let last = inputs.last();
        assert(is_ordinary(inputs[inputs.len() - 1]));
        assert forall|i: int| 0 <= i < earlier.len() implies is_ordinary(#[trigger] earlier[i]) by {
            assert(earlier[i] == inputs[i]);
        }
        if let StreamInput::Received(StreamMessage::Binary(data)) = last {
            let all = packets(inputs);
            let fewer = packets(earlier);
            assert(all == fewer.push(data@));
            assert forall|i: int| 0 <= i < fewer.len() implies packet_event(#[trigger] fewer[i])
                == Some(events.drop_last()[i]) by {
                assert(all[i] == fewer[i]);
            }
            assert(packet_event(all[fewer.len() as int]) == Some(events.last()));
            law_event_stream_is_delivered(monitor, earlier, events.drop_last());
        } else {
            law_event_stream_is_delivered(monitor, earlier, events);
        }
        assert(delivered(inputs) =~= events);
    }
}

/// Which binary messages stand for an event: exactly those of six bytes that begin with a zero and
/// then a zero or a one, and they stand for what they decode to.
pub proof fn law_event_packets(data: Seq<u8>)
    ensures
        packet_event(data) is Some <==> data.len() == 6 && data[0] == 0 && data[1] <= 1,
        packet_event(data) matches Some(event) ==> decoded(data) == Ok::<MouseEvent, InvalidOpcode>(
            event,
        ),
{
    if data.len() == 6 {
        law_packet_bytes(data);
    }
}

/// Every event packet yields its event, whatever else there is to do on the connection, and nothing
/// else yields any.
pub proof fn law_only_packets_yield_events(input: StreamInput)
    ensures
        input matches StreamInput::Received(StreamMessage::Binary(data)) ==> match packet_event(
            data@,
        ) {
            Some(event) => input_events(input) == seq![event],
            None => input_events(input).len() == 0,
        },
        !(input matches StreamInput::Received(StreamMessage::Binary(_))) ==> input_events(
            input,
        ).len() == 0,
        input matches StreamInput::Received(message) ==> message_events(message) == input_events(
            input,
        ),
{
}

/// The connection survives pings, pongs and event packets, and is ended by every other message: without
/// a close frame if the peer asks for it, and else with one that says what is wrong.
pub proof fn law_messages_that_end(message: StreamMessage)
    ensures
        ({
            let verdict = message_verdict(message);
            &&& message is Ping || message is Pong ==> verdict is Continue
            &&& message is Close ==> (verdict matches ControlFlow::Break(None))
            &&& message is Text ==> (verdict matches ControlFlow::Break(Some(frame)) && frame.code
                == CloseCode::Unsupported && frame.reason == "Text frames not supported"@)
            &&& message matches StreamMessage::Binary(data) ==> {
                let event = data@.len() == 6 && data@[0] == 0 && data@[1] <= 1;
                &&& event <==> verdict is Continue
                &&& !event ==> (verdict matches ControlFlow::Break(Some(frame)) && frame.code
                    == CloseCode::Protocol && frame.reason == if data@.len() == 6 {
                    "Undecodable event packet: "@ + "Invalid opcode in packet"@
                } else {
                    "Wrong-sized ("@ + numeral(data@.len(), 10) + ") binary frame"@
                })
            }
        }),
{
    if let StreamMessage::Binary(data) = message {
        if data@.len() == 6 {
            law_packet_bytes(data@);
        }
    }
}

/// A failure to receive that the peer is to blame for is explained to it, in the words of the error
/// where it has any; a reset ends the connection without a close frame; and any other failure ends it
/// at once.
pub proof fn law_failures_that_are_explained(error: StreamError)
    ensures
        ({
            let verdict = error_verdict(error);
            &&& error matches StreamError::Capacity(text) ==> (verdict matches Some(Some(frame))
                && frame.code == CloseCode::Size && frame.reason == text@)
            &&& error matches StreamError::Protocol(text) ==> (verdict matches Some(Some(frame))
                && frame.code == CloseCode::Protocol && frame.reason == text@)
            &&& error matches StreamError::HttpFormat(text) ==> (verdict matches Some(Some(frame))
                && frame.code == CloseCode::Protocol && frame.reason == text@)
            &&& error is Utf8 ==> (verdict matches Some(Some(frame)) && frame.code
                == CloseCode::Invalid && frame.reason == "Invalid UTF-8"@)
            &&& error is ResetWithoutClosingHandshake <==> (verdict matches Some(None))
            &&& verdict is None <==> !(error is Capacity || error is Protocol || error is HttpFormat
                || error is Utf8 || error is ResetWithoutClosingHandshake)
        }),
{
}

/// Of all failures of a connection, the application ends with the use of a closed connection and with
/// fatal input/output errors, and survives the others.
pub proof fn law_failures_that_are_fatal(error: StreamError)
    ensures
        failure_ending(error) is Fatal <==> error is AlreadyClosed || (error matches StreamError::Io(
            kind,
        ) && fatal_kind(kind)),
        failure_ending(error) is Fatal || failure_ending(error) is Survived,
{
}

/// Which failures to receive are impossible.
pub proof fn law_impossible_failures(error: StreamError)
    ensures
        never_received(error) <==> error is ConnectionClosed || error is AlreadyClosed || error is Tls
            || error is Url || error is Http,
{
}

/// The numbers of the close codes.
pub proof fn law_close_numbers(code: CloseCode)
    ensures
        close_number(code) == 1001 <==> code is Away,
        close_number(code) == 1002 <==> code is Protocol,
        close_number(code) == 1003 <==> code is Unsupported,
        close_number(code) == 1007 <==> code is Invalid,
        close_number(code) == 1009 <==> code is Size,
{
}

/// A new connection begins with its handshake, and is to be pinged after the ping time exactly if that
/// is not zero.
pub proof fn law_new_connections(ping_time: u64)
    ensures
        new_monitor(ping_time).phase is Handshaking,
        new_monitor(ping_time).ping is None <==> ping_time == 0,
        new_monitor(ping_time).ping matches Some(seconds) ==> seconds == ping_time,
{
}

/// What can happen on a connection: a handshake and a sending succeed or fail; while the connection is
/// open, a message can arrive, the transport can end or fail, a shutdown can be signalled, and, if
/// there is a ping time, that can run out; and while the connection is drained, only what comes from
/// the peer counts.
pub proof fn law_stream_expectations(monitor: StreamMonitor, input: StreamInput)
    ensures
        monitor.phase is Handshaking || monitor.phase is Pinging || monitor.phase is Closing ==> (
        monitor.expects(input) <==> input is Done || input is Failed),
        monitor.phase is Receiving ==> {
            &&& input is Cancelled || input is Ended ==> monitor.expects(input)
            &&& input is Done ==> !monitor.expects(input)
            &&& input is PingDue ==> (monitor.expects(input) <==> monitor.ping is Some)
            &&& input matches StreamInput::Received(message) ==> (monitor.expects(input)
                <==> message !is Frame)
            &&& input matches StreamInput::Failed(error) ==> (monitor.expects(input)
                <==> !never_received(error))
        },
        monitor.phase is Draining ==> (monitor.expects(input) <==> input is Received || input is Ended
            || input is Failed),
        monitor.phase is Finished ==> !monitor.expects(input),
{
}

/// A shutdown ends every open connection, whatever its ping time: the peer is told that the server goes
/// away, before anything else, and from there on the connection is only drained and finished.
pub proof fn law_shutdown_closes_connection(monitor: StreamMonitor, rest: Seq<StreamInput>)
    requires
        monitor.phase is Receiving,
        possible_run(monitor, seq![StreamInput::Cancelled] + rest),
    ensures
        ({
            let (after, actions) = stream_run(monitor, seq![StreamInput::Cancelled] + rest);
            &&& actions.len() == 1 + rest.len()
            &&& actions[0] matches ActionContents::SendClose(frame) && frame.code == CloseCode::Away
                && frame.reason == "Server shutting down"@
            &&& rest.len() == 0 ==> after.phase is Closing
            &&& rest.len() > 0 ==> after.phase is Draining || after.phase is Finished
            &&& forall|i: int|
                1 <= i < actions.len() ==> (#[trigger] actions[i]) is Drain || actions[i] is Finish
            &&& after.ping == monitor.ping
        }),
    decreases rest.len(),
{
    let inputs = seq![StreamInput::Cancelled] + rest;
    let earlier = inputs.drop_last();
    if rest.len() == 0 {
        assert(earlier =~= seq![]);
        assert(inputs.last() == StreamInput::Cancelled);
    } else {
        assert(earlier =~= seq![StreamInput::Cancelled] + rest.drop_last());
        law_shutdown_closes_connection(monitor, rest.drop_last());
        assert(inputs.last() == rest.last());
    }
}

/// A shutdown is answered at once, and is always possible while a connection is open.
pub proof fn law_shutdown_is_answered(monitor: StreamMonitor)
    requires
        monitor.phase is Receiving,
    ensures
        monitor.expects(StreamInput::Cancelled),
        ({
            let (after, action) = stream_step(monitor, StreamInput::Cancelled);
            &&& action matches ActionContents::SendClose(frame) && frame.code == CloseCode::Away
                && frame.reason == "Server shutting down"@
            &&& after.phase is Closing
            &&& after.ping == monitor.ping
        }),
{
}

/// A connection whose handshake is done, whose ping is sent, or which survives a message, waits again,
/// for no longer than the ping time that it was given.
pub proof fn law_open_connection_waits(monitor: StreamMonitor, input: StreamInput)
    requires
        monitor.expects(input),
        ((monitor.phase is Handshaking || monitor.phase is Pinging) && input is Done) || (
        monitor.phase is Receiving && (input matches StreamInput::Received(message)
            && message_verdict(message) is Continue)),
    ensures
        ({
            let (after, action) = stream_step(monitor, input);
            &&& after.phase is Receiving
            &&& after.ping == monitor.ping
            &&& action == ActionContents::Receive(monitor.ping)
        }),
{
}

/// A connection that has been idle for too long is pinged.
pub proof fn law_idle_connection_is_pinged(monitor: StreamMonitor)
    requires
        monitor.phase is Receiving,
        monitor.ping is Some,
    ensures
        ({
            let (after, action) = stream_step(monitor, StreamInput::PingDue);
            &&& after.phase is Pinging
            &&& after.ping == monitor.ping
            &&& action is SendPing
        }),
{
}

/// A message or a failure that ends a connection with a close frame has exactly that frame sent; one
/// that ends it without is followed by draining; and so is the end of the transport.
pub proof fn law_ending_connection_is_closed(monitor: StreamMonitor, input: StreamInput)
    requires
        monitor.phase is Receiving,
        monitor.expects(input),
    ensures
        ({
            let (after, action) = stream_step(monitor, input);
            let frame: Option<Option<CloseContents>> = match input {
                StreamInput::Received(message) => match message_verdict(message) {
                    ControlFlow::Break(frame) => Some(frame),
                    ControlFlow::Continue(()) => None,
                },
                StreamInput::Failed(error) => error_verdict(error),
                StreamInput::Ended => Some(None),
                _ => None,
            };
            &&& frame matches Some(Some(contents)) ==> after.phase is Closing && action
                == ActionContents::SendClose(contents)
            &&& frame matches Some(None) ==> after.phase is Draining && action is Drain
            &&& input matches StreamInput::Failed(error) ==> (frame is None ==> after.phase is Finished
                && action == ActionContents::Finish(failure_ending(error)))
            &&& after.ping == monitor.ping
        }),
{
}

/// A failure of the handshake or of a sending ends the connection at once, as badly as the failure
/// deserves.
pub proof fn law_failed_sending_ends(monitor: StreamMonitor, error: StreamError)
    requires
        monitor.phase is Handshaking || monitor.phase is Pinging || monitor.phase is Closing,
    ensures
        ({
            let (after, action) = stream_step(monitor, StreamInput::Failed(error));
            &&& after.phase is Finished
            &&& after.ping == monitor.ping
            &&& action == ActionContents::Finish(failure_ending(error))
        }),
{
}

/// A connection that is being closed is drained until the peer has nothing more to say, however that
/// comes about, which is an orderly end.
pub proof fn law_closing_connection_is_drained(monitor: StreamMonitor, input: StreamInput)
    requires
        monitor.expects(input),
        (monitor.phase is Closing && input is Done) || monitor.phase is Draining,
    ensures
        ({
            let (after, action) = stream_step(monitor, input);
            let over = input is Ended || input is Failed;
            &&& after.ping == monitor.ping
            &&& !over ==> after.phase is Draining && action is Drain
            &&& over ==> after.phase is Finished && action == ActionContents::Finish(Ending::Normal)
        }),
{
}

/// An action stands for what it says, and for nothing else.
pub proof fn law_actions_are_faithful(action: StreamAction)
    ensures
        action matches StreamAction::Receive { ping } ==> action@ == ActionContents::Receive(ping),
        action is SendPing <==> action@ is SendPing,
        action matches StreamAction::SendClose(frame) ==> (action@ matches ActionContents::SendClose(
            contents,
        ) && contents.code == frame.code && contents.reason == frame.reason@),
        action is Drain <==> action@ is Drain,
        action matches StreamAction::Finish(ending) ==> action@ == ActionContents::Finish(ending),
{
}

/// A decision about a message or a failure stands for what it says, and for nothing else.
pub proof fn law_verdicts_are_faithful(
    verdict: ControlFlow<Option<CloseFrame>, ()>,
    decision: Option<Option<CloseFrame>>,
)
    ensures
        verdict is Continue <==> verdict_contents(verdict) is Continue,
        (verdict matches ControlFlow::Break(None)) <==> (verdict_contents(
            verdict,
        ) matches ControlFlow::Break(None)),
        verdict matches ControlFlow::Break(Some(frame)) ==> (verdict_contents(
            verdict,
        ) matches ControlFlow::Break(Some(contents)) && contents.code == frame.code
            && contents.reason == frame.reason@),
        decision is None <==> error_verdict_contents(decision) is None,
        (decision matches Some(None)) <==> (error_verdict_contents(decision) matches Some(None)),
        decision matches Some(Some(frame)) ==> (error_verdict_contents(decision) matches Some(
            Some(contents),
        ) && contents.code == frame.code && contents.reason == frame.reason@),
{
}

} // verus!
