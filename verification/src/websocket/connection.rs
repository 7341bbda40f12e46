//! The receiving half of a connection: messages put together from frames.

use crate::bytes::{
    append_unmasked, big_endian, big_endian_bytes, law_big_endian_is_positional,
    law_masking_is_an_involution, law_number_round_trip, lemma_big_endian_bound, lemma_widths,
    read_big_endian, unmasked,
};
use crate::fault::ErrorKind;
use crate::websocket::close::{
    CLOSE_ABNORMAL, CLOSE_INVALID_FRAME_PAYLOAD_DATA, CLOSE_MESSAGE_TOO_BIG,
    CLOSE_NO_STATUS_RECEIVED, CLOSE_PROTOCOL_ERROR, CLOSE_RX_INVALID_FRAME_PAYLOAD_DATA,
    CLOSE_RX_MESSAGE_TOO_BIG, CLOSE_RX_PROTOCOL_ERROR,
};
use crate::websocket::frame::{
    FrameHeader, HeaderFields, Opcode, header_read, is_control, law_header_is_canonical,
    law_header_needs_no_lookahead, law_header_round_trip,
};
use vstd::prelude::*;
use vstd::slice::slice_subrange;
use vstd::string::StringSliceAdditionalSpecFns;

verus! {

/// The error of [`std::str::from_utf8`].
#[verifier::external_type_specification]
#[verifier::external_body]
pub struct ExUtf8Error(std::str::Utf8Error);

/// [`std::str::from_utf8`] accepts exactly the byte sequences that are well-formed UTF-8, and gives
/// the string slice that has them as its bytes.
pub assume_specification[ std::str::from_utf8 ](v: &[u8]) -> (result: Result<
    &str,
    std::str::Utf8Error,
>)
    ensures
        result is Ok <==> vstd::utf8::valid_utf8(v@),
        result is Ok ==> result->Ok_0.spec_bytes() == v@,
;

/// The two types of messages that can be sent or received over a WebSocket.
#[derive(Clone, Copy, Debug, Eq, Hash, PartialEq, Structural)]
pub enum MessageType {
    /// A UTF-8 string.
    Text,
    /// A binary blob.
    Binary,
}

/// A message that can be sent or received over a WebSocket.
#[derive(Clone, Copy, Debug, Eq, Hash, PartialEq)]
pub enum Message<'a> {
    /// A UTF-8 string.
    Text(&'a str),
    /// A binary blob.
    Binary(&'a [u8]),
}

/// The contents of a [`Message`].
#[verifier::ext_equal]
pub enum MessageContents {
    /// A string.
    Text(Seq<char>),
    /// A binary blob.
    Binary(Seq<u8>),
}

impl<'a> View for Message<'a> {
    type V = MessageContents;

    open spec fn view(&self) -> MessageContents {
        match self {
            Message::Text(text) => MessageContents::Text(text@),
            Message::Binary(data) => MessageContents::Binary(data@),
        }
    }
}

/// A frame that the library owes the peer.
#[derive(Clone, Debug, Eq, Hash, PartialEq)]
pub enum Reply {
    /// A pong with the payload of the ping that it answers.
    Pong(Vec<u8>),
    /// A close with this code, which ends the transmitting half of the connection.
    Close(u16),
}

/// The contents of a [`Reply`].
#[verifier::ext_equal]
pub enum ReplyContents {
    /// A pong with this payload.
    Pong(Seq<u8>),
    /// A close with this code.
    Close(u16),
}

impl View for Reply {
    type V = ReplyContents;

    open spec fn view(&self) -> ReplyContents {
        match self {
            Reply::Pong(payload) => ReplyContents::Pong(payload@),
            Reply::Close(code) => ReplyContents::Close(*code),
        }
    }
}

/// The contents of a sequence of replies.
pub open spec fn reply_contents(replies: Seq<Reply>) -> Seq<ReplyContents> {
    replies.map_values(|reply: Reply| reply@)
}

/// The receiving half of a WebSocket, and what has become of the connection.
#[derive(Clone, Debug)]
pub struct Connection {
    /// A buffer to hold portions of a message until the message is consumed.
    buffer: Vec<u8>,
    /// The type of the message that is being received, if part of one has been.
    message_type: Option<MessageType>,
    /// The largest message that is accepted.
    max_message_size: usize,
    /// The received close code, if any, or `None` if neither a [`Close`](Opcode::Close) frame, a
    /// transport-layer EOF, nor a protocol error has been received.
    rx_close_code: Option<u16>,
    /// Whether the transmit half has been closed.
    tx_closed: bool,
}

/// The state of a [`Connection`].
#[verifier::ext_equal]
pub struct ConnectionState {
    /// The type of the message that is being received.
    pub message_type: Option<MessageType>,
    /// The payload received so far of that message, or else of the last message.
    pub payload: Seq<u8>,
    /// The largest message that is accepted.
    pub max_message_size: nat,
    /// The received close code.
    pub rx_close_code: Option<u16>,
    /// Whether the transmit half has been closed.
    pub tx_closed: bool,
}

impl View for Connection {
    type V = ConnectionState;

    closed spec fn view(&self) -> ConnectionState {
        ConnectionState {
            message_type: self.message_type,
            payload: self.buffer@,
            max_message_size: self.max_message_size as nat,
            rx_close_code: self.rx_close_code,
            tx_closed: self.tx_closed,
        }
    }
}

impl ConnectionState {
    /// No more of a message is kept than is accepted, and the transmit half is only closed because
    /// of what was received.
    pub open spec fn well_formed(self) -> bool {
        &&& self.message_type is Some ==> self.payload.len() <= self.max_message_size
        &&& self.tx_closed ==> self.rx_close_code is Some
    }
}

/// What a frame at the start of the received bytes comes to.
#[verifier::ext_equal]
pub enum Progress {
    /// The frame has not arrived completely.
    Wait,
    /// The frame has been dealt with, and the message goes on after it.
    Next {
        /// The state after the frame.
        state: ConnectionState,
        /// The size of the frame.
        used: nat,
        /// The replies to the frame.
        replies: Seq<ReplyContents>,
    },
    /// There is a result.
    Stop {
        /// The state after the frame.
        state: ConnectionState,
        /// The size of the frame, or zero if it is not accepted.
        used: nat,
        /// The replies to the frame.
        replies: Seq<ReplyContents>,
        /// A message, `None` if the peer has closed the socket, or an error.
        result: Result<Option<MessageContents>, ErrorKind>,
    },
}

/// The connection ends because of what the peer has sent: `sent` tells the peer why, and
/// `reported` tells the application.
pub open spec fn refused(state: ConnectionState, reported: u16, sent: u16) -> Progress {
    Progress::Stop {
        state: ConnectionState { rx_close_code: Some(reported), tx_closed: true, ..state },
        used: 0,
        replies: seq![ReplyContents::Close(sent)],
        result: Err(ErrorKind::InvalidData),
    }
}

/// The connection ends because of an error of kind `kind`.
pub open spec fn failed(state: ConnectionState, kind: ErrorKind) -> Progress {
    if kind == ErrorKind::InvalidData {
        refused(state, CLOSE_RX_PROTOCOL_ERROR, CLOSE_PROTOCOL_ERROR)
    } else {
        Progress::Stop {
            state: ConnectionState { rx_close_code: Some(CLOSE_ABNORMAL), ..state },
            used: 0,
            replies: seq![],
            result: if kind == ErrorKind::UnexpectedEof {
                Ok(None)
            } else {
                Err(kind)
            },
        }
    }
}

/// The bytes received so far end within a frame: nothing can be said before more arrive, unless the
/// transport has ended.
pub open spec fn starved(state: ConnectionState, end: Option<ErrorKind>) -> Progress {
    match end {
        None => Progress::Wait,
        Some(kind) => failed(state, kind),
    }
}

/// Whether a peer may give `code` as its close code: the codes of the protocol that may be sent over
/// the wire, and those left to libraries and applications, except the ones that this library uses
/// for what it finds out itself.
pub open spec fn sendable(code: u16) -> bool {
    ||| 1000 <= code <= 1003
    ||| 1007 <= code <= 1011
    ||| 3000 <= code <= 4999 && code != CLOSE_RX_PROTOCOL_ERROR && code
        != CLOSE_RX_INVALID_FRAME_PAYLOAD_DATA && code != CLOSE_RX_MESSAGE_TOO_BIG
}

/// What a payload is as a message of a type.
pub open spec fn message_contents(
    message_type: MessageType,
    payload: Seq<u8>,
) -> MessageContents {
    match message_type {
        MessageType::Text => MessageContents::Text(vstd::utf8::decode_utf8(payload)),
        MessageType::Binary => MessageContents::Binary(payload),
    }
}

/// What a frame that carries part of a message comes to.
pub open spec fn data_frame(
    state: ConnectionState,
    header: HeaderFields,
    start: nat,
    src: Seq<u8>,
    end: Option<ErrorKind>,
) -> Progress {
    let continued = header.opcode == Opcode::Continuation;
    let before = if continued {
        state.payload
    } else {
        seq![]
    };
    let stop = start + header.length;
    if continued != (state.message_type is Some) {
        failed(state, ErrorKind::InvalidData)
    } else if before.len() + header.length > state.max_message_size {
        refused(state, CLOSE_RX_MESSAGE_TOO_BIG, CLOSE_MESSAGE_TOO_BIG)
    } else if src.len() < stop {
        starved(state, end)
    } else {
        let message_type = match header.opcode {
            Opcode::Continuation => state.message_type->Some_0,
            Opcode::Text => MessageType::Text,
            _ => MessageType::Binary,
        };
        let payload = before + unmasked(
            src.subrange(start as int, stop as int),
            header.mask,
        );
        if !header.fin {
            Progress::Next {
                state: ConnectionState { message_type: Some(message_type), payload, ..state },
                used: stop,
                replies: seq![],
            }
        } else if message_type == MessageType::Text && !vstd::utf8::valid_utf8(payload) {
            refused(
                ConnectionState { message_type: None, payload, ..state },
                CLOSE_RX_INVALID_FRAME_PAYLOAD_DATA,
                CLOSE_INVALID_FRAME_PAYLOAD_DATA,
            )
        } else {
            Progress::Stop {
                state: ConnectionState { message_type: None, payload, ..state },
                used: stop,
                replies: seq![],
                result: Ok(Some(message_contents(message_type, payload))),
            }
        }
    }
}

/// What a control frame comes to.
pub open spec fn control_frame(
    state: ConnectionState,
    header: HeaderFields,
    start: nat,
    src: Seq<u8>,
    end: Option<ErrorKind>,
) -> Progress {
    let stop = start + header.length;
    let payload = unmasked(
        src.subrange(start as int, stop as int),
        header.mask,
    );
    let code = big_endian(payload.take(2)) as u16;
    if header.opcode == Opcode::Close && header.length == 1 {
        failed(state, ErrorKind::InvalidData)
    } else if src.len() < stop {
        starved(state, end)
    } else if header.opcode == Opcode::Ping {
        Progress::Next { state, used: stop, replies: seq![ReplyContents::Pong(payload)] }
    } else if header.opcode == Opcode::Pong {
        Progress::Next { state, used: stop, replies: seq![] }
    } else if header.length > 0 && !sendable(code) {
        failed(state, ErrorKind::InvalidData)
    } else {
        Progress::Stop {
            state: ConnectionState {
                rx_close_code: Some(
                    if header.length == 0 {
                        CLOSE_NO_STATUS_RECEIVED
                    } else {
                        code
                    },
                ),
                ..state
            },
            used: stop,
            replies: seq![],
            result: Ok(None),
        }
    }
}

/// What the frame at the start of `src` comes to, where `end` says how the transport has ended after
/// `src`, if it has.
#[verifier::opaque]
pub open spec fn frame_received(
    state: ConnectionState,
    src: Seq<u8>,
    end: Option<ErrorKind>,
) -> Progress {
    match header_read(src) {
        Err(ErrorKind::UnexpectedEof) => starved(state, end),
        Err(kind) => failed(state, kind),
        Ok((header, start)) => if is_control(header.opcode) {
            control_frame(state, header, start, src, end)
        } else {
            data_frame(state, header, start, src, end)
        },
    }
}

/// What reading comes to.
#[verifier::ext_equal]
pub struct Reading {
    /// The state afterwards.
    pub state: ConnectionState,
    /// How many of the received bytes have been used up.
    pub used: nat,
    /// The replies that the peer is owed.
    pub replies: Seq<ReplyContents>,
    /// The result, or `None` if more bytes have to arrive first.
    pub outcome: Option<Result<Option<MessageContents>, ErrorKind>>,
}

/// What reading the next message from `src` comes to, where `end` says how the transport has ended
/// after `src`, if it has.
pub open spec fn message_received(
    state: ConnectionState,
    src: Seq<u8>,
    end: Option<ErrorKind>,
) -> Reading
    decreases src.len(),
{
    if state.rx_close_code is Some {
        Reading { state, used: 0, replies: seq![], outcome: Some(Ok(None)) }
    } else {
        match frame_received(state, src, end) {
            Progress::Wait => Reading { state, used: 0, replies: seq![], outcome: None },
            Progress::Stop { state: next, used, replies, result } => Reading {
                state: next,
                used,
                replies,
                outcome: Some(result),
            },
            Progress::Next { state: next, used, replies } => if used == 0 || used > src.len() {
                Reading { state, used: 0, replies: seq![], outcome: None }
            } else {
                let rest = message_received(next, src.skip(used as int), end);
                Reading {
                    state: rest.state,
                    used: used + rest.used,
                    replies: replies + rest.replies,
                    outcome: rest.outcome,
                }
            },
        }
    }
}

/// The result of a finished read.
#[derive(Clone, Copy, Debug, Eq, Hash, PartialEq, Structural)]
enum Verdict {
    /// The buffer holds a message of this type.
    Message(MessageType),
    /// The peer has closed the socket.
    Closed,
    /// An error occurred.
    Failed(ErrorKind),
}

/// What a frame comes to.
#[derive(Clone, Copy, Debug, Eq, Hash, PartialEq, Structural)]
enum Step {
    /// The frame has not arrived completely.
    Wait,
    /// The frame of this size has been dealt with.
    Next(usize),
    /// There is a result, after a frame of this size.
    Stop(usize, Verdict),
}

/// Whether a verdict on a connection that is now in state `state` stands for `result`.
spec fn verdict_is(
    verdict: Verdict,
    state: ConnectionState,
    result: Result<Option<MessageContents>, ErrorKind>,
) -> bool {
    match verdict {
        Verdict::Message(message_type) => {
            &&& message_type == MessageType::Text ==> vstd::utf8::valid_utf8(state.payload)
            &&& result == Ok::<Option<MessageContents>, ErrorKind>(
                Some(message_contents(message_type, state.payload)),
            )
        },
        Verdict::Closed => result == Ok::<Option<MessageContents>, ErrorKind>(None),
        Verdict::Failed(kind) => result == Err::<Option<MessageContents>, ErrorKind>(kind),
    }
}

/// Whether a step, with the states and the replies before and after it, is what `progress` says.
spec fn step_is(
    step: Step,
    progress: Progress,
    before: ConnectionState,
    after: ConnectionState,
    owed: Seq<ReplyContents>,
    owing: Seq<ReplyContents>,
) -> bool {
    match progress {
        Progress::Wait => step == Step::Wait && after == before && owing == owed,
        Progress::Next { state, used, replies } => {
            &&& step matches Step::Next(size) && size == used
            &&& after == state
            &&& owing == owed + replies
        },
        Progress::Stop { state, used, replies, result } => {
            &&& step matches Step::Stop(size, verdict) && size == used && verdict_is(
                verdict,
                state,
                result,
            )
            &&& after == state
            &&& owing == owed + replies
        },
    }
}

/// What came of an attempt to read a message.
#[derive(Clone, Debug, Eq, Hash, PartialEq)]
pub struct Received<'a> {
    /// How many of the received bytes have been used up.
    pub used: usize,
    /// The frames that the peer is owed.
    pub replies: Vec<Reply>,
    /// The message, `None` if the peer has closed the socket, or the error; or nothing at all if
    /// more bytes have to arrive first.
    pub outcome: Option<Result<Option<Message<'a>>, ErrorKind>>,
}

/// The contents of an outcome.
pub open spec fn outcome_contents(
    outcome: Option<Result<Option<Message<'_>>, ErrorKind>>,
) -> Option<Result<Option<MessageContents>, ErrorKind>> {
    match outcome {
        None => None,
        Some(Err(kind)) => Some(Err(kind)),
        Some(Ok(None)) => Some(Ok(None)),
        Some(Ok(Some(message))) => Some(Ok(Some(message@))),
    }
}

impl Connection {
    /// Makes a connection which speaks the WebSocket protocol.
    ///
    /// It is expected that the handshake process is complete, and the socket is `OPEN`.
    pub fn new(max_message_size: usize) -> (connection: Self)
        ensures
            connection@.well_formed(),
            connection@ == (ConnectionState {
                message_type: None,
                payload: seq![],
                max_message_size: max_message_size as nat,
                rx_close_code: None,
                tx_closed: false,
            }),
    {
        Connection {
            buffer: Vec::new(),
            message_type: None,
            max_message_size,
            rx_close_code: None,
            tx_closed: false,
        }
    }

    /// The received close code, if any.
    pub fn rx_close_code(&self) -> (code: Option<u16>)
        ensures
            code == self@.rx_close_code,
    {
        self.rx_close_code
    }

    /// Whether the transmit half has been closed.
    pub fn tx_closed(&self) -> (closed: bool)
        ensures
            closed == self@.tx_closed,
    {
        self.tx_closed
    }

    /// Ends the connection because of what the peer has sent.
    fn refuse(&mut self, reported: u16, sent: u16, replies: &mut Vec<Reply>) -> (step: Step)
        ensures
            step_is(
                step,
                refused(old(self)@, reported, sent),
                old(self)@,
                final(self)@,
                reply_contents(old(replies)@),
                reply_contents(final(replies)@),
            ),
    {
        self.rx_close_code = Some(reported);
        self.tx_closed = true;
        replies.push(Reply::Close(sent));
        proof {
            assert(reply_contents(replies@) =~= reply_contents(old(replies)@)
                + seq![ReplyContents::Close(sent)]);
        }
        Step::Stop(0, Verdict::Failed(ErrorKind::InvalidData))
    }

    /// Ends the connection because of an error.
    fn fail(&mut self, kind: ErrorKind, replies: &mut Vec<Reply>) -> (step: Step)
        ensures
            step_is(
                step,
                failed(old(self)@, kind),
                old(self)@,
                final(self)@,
                reply_contents(old(replies)@),
                reply_contents(final(replies)@),
            ),
    {
        match kind {
            ErrorKind::InvalidData => {
                // The peer violated protocol rules.
                self.refuse(CLOSE_RX_PROTOCOL_ERROR, CLOSE_PROTOCOL_ERROR, replies)
            },
            ErrorKind::UnexpectedEof => {
                // The peer closed the socket.
                self.rx_close_code = Some(CLOSE_ABNORMAL);
                Step::Stop(0, Verdict::Closed)
            },
            _ => {
                // A transport error occurred.
                self.rx_close_code = Some(CLOSE_ABNORMAL);
                Step::Stop(0, Verdict::Failed(kind))
            },
        }
    }

    /// Deals with received bytes that end within a frame.
    fn starve(&mut self, end: Option<ErrorKind>, replies: &mut Vec<Reply>) -> (step: Step)
        ensures
            step_is(
                step,
                starved(old(self)@, end),
                old(self)@,
                final(self)@,
                reply_contents(old(replies)@),
                reply_contents(final(replies)@),
            ),
    {
        match end {
            None => Step::Wait,
            Some(kind) => self.fail(kind, replies),
        }
    }

    /// Deals with a frame that carries part of a message.
    fn read_data(
        &mut self,
        header: &FrameHeader,
        start: usize,
        src: &[u8],
        end: Option<ErrorKind>,
        replies: &mut Vec<Reply>,
    ) -> (step: Step)
        requires
            old(self)@.well_formed(),
            !is_control(header.opcode),
            start <= src@.len(),
        ensures
            step_is(
                step,
                data_frame(old(self)@, header@, start as nat, src@, end),
                old(self)@,
                final(self)@,
                reply_contents(old(replies)@),
                reply_contents(final(replies)@),
            ),
    {
        let message_type: MessageType = match header.opcode {
            Opcode::Continuation => match self.message_type {
                // A continuation frame is only legal if we already received a non-continuation
                // frame.
                None => {
                    return self.fail(ErrorKind::InvalidData, replies);
                },
                Some(message_type) => message_type,
            },
            // A text or binary frame is only legal if we have *not* already received any data
            // frames.
            Opcode::Text => {
                if self.message_type.is_some() {
                    return self.fail(ErrorKind::InvalidData, replies);
                }
                MessageType::Text
            },
            _ => {
                if self.message_type.is_some() {
                    return self.fail(ErrorKind::InvalidData, replies);
                }
                MessageType::Binary
            },
        };

        // The message must not grow beyond the limit.
        let continued: bool = self.message_type.is_some();
        let room: usize = if continued {
            self.max_message_size - self.buffer.len()
        } else {
            self.max_message_size
        };
        if header.length > room as u64 {
            return self.refuse(CLOSE_RX_MESSAGE_TOO_BIG, CLOSE_MESSAGE_TOO_BIG, replies);
        }
        let length: usize = header.length as usize;
        if src.len() - start < length {
            return self.starve(end, replies);
        }

        // This frame carries a payload that we are supposed to include in the message.
        if !continued {
            self.buffer.clear();
        }
        append_unmasked(&mut self.buffer, src, start, length, &header.mask);

        // If this is the last frame in the message, we're done now.
        if !header.fin {
            self.message_type = Some(message_type);
            return Step::Next(start + length);
        }
        self.message_type = None;
        if message_type == MessageType::Text && std::str::from_utf8(
            self.buffer.as_slice(),
        ).is_err() {
            return self.refuse(
                CLOSE_RX_INVALID_FRAME_PAYLOAD_DATA,
                CLOSE_INVALID_FRAME_PAYLOAD_DATA,
                replies,
            );
        }
        Step::Stop(start + length, Verdict::Message(message_type))
    }

    /// Deals with a control frame.
    fn read_control(
        &mut self,
        header: &FrameHeader,
        start: usize,
        src: &[u8],
        end: Option<ErrorKind>,
        replies: &mut Vec<Reply>,
    ) -> (step: Step)
        requires
            is_control(header.opcode),
            header.length <= 125,
            start <= src@.len(),
        ensures
            step_is(
                step,
                control_frame(old(self)@, header@, start as nat, src@, end),
                old(self)@,
                final(self)@,
                reply_contents(old(replies)@),
                reply_contents(final(replies)@),
            ),
    {
        if header.opcode == Opcode::Close && header.length == 1 {
            // Half of a close code was included, which is illegal.
            return self.fail(ErrorKind::InvalidData, replies);
        }
        let length: usize = header.length as usize;
        if src.len() - start < length {
            return self.starve(end, replies);
        }
        let stop: usize = start + length;
        let mut payload: Vec<u8> = Vec::new();
        append_unmasked(&mut payload, src, start, length, &header.mask);
        proof {
            assert(payload@ =~= unmasked(
                src@.subrange(start as int, start + length),
                header.mask@,
            ));
        }
        match header.opcode {
            Opcode::Ping => {
                let ghost contents = payload@;
                replies.push(Reply::Pong(payload));
                proof {
                    assert(reply_contents(replies@) =~= reply_contents(old(replies)@)
                        + seq![ReplyContents::Pong(contents)]);
                }
                Step::Next(stop)
            },
            Opcode::Pong => {
                proof {
                    assert(reply_contents(replies@) =~= reply_contents(old(replies)@) + seq![]);
                }
                Step::Next(stop)
            },
            _ => {
                if length == 0 {
                    // No close code was included.
                    self.rx_close_code = Some(CLOSE_NO_STATUS_RECEIVED);
                } else {
                    // The whole close code was included. The remainder of the frame holds the close
                    // reason text, which is of no interest.
                    let code: u16 = close_code(payload.as_slice());

                    // Sanity check that the close code is one that the peer is legally allowed to
                    // send over the wire.
                    if !may_be_sent(code) {
                        return self.fail(ErrorKind::InvalidData, replies);
                    }
                    self.rx_close_code = Some(code);
                }
                proof {
                    assert(reply_contents(replies@) =~= reply_contents(old(replies)@) + seq![]);
                }
                Step::Stop(stop, Verdict::Closed)
            },
        }
    }

    /// Deals with the frame at the start of `src`.
    fn read_frame(
        &mut self,
        src: &[u8],
        end: Option<ErrorKind>,
        replies: &mut Vec<Reply>,
    ) -> (step: Step)
        requires
            old(self)@.well_formed(),
        ensures
            step_is(
                step,
                frame_received(old(self)@, src@, end),
                old(self)@,
                final(self)@,
                reply_contents(old(replies)@),
                reply_contents(final(replies)@),
            ),
    {
        proof {
            reveal(frame_received);
        }
        match FrameHeader::read(src) {
            Err(ErrorKind::UnexpectedEof) => self.starve(end, replies),
            Err(kind) => self.fail(kind, replies),
            Ok((header, start)) => {
                proof {
                    law_header_is_canonical(src@);
                }
                if header.opcode.control() {
                    self.read_control(&header, start, src, end, replies)
                } else {
                    self.read_data(&header, start, src, end, replies)
                }
            },
        }
    }

    /// Receives the next message from the socket.
    ///
    /// `src` holds the bytes that have arrived and have not been used up yet, and `end` says how
    /// the transport has ended after them, if it has:
    /// [`UnexpectedEof`](ErrorKind::UnexpectedEof) if it was closed, or the kind of error that it
    /// has reported.
    ///
    /// If the peer has closed the socket, `None` is returned as the message.
    pub fn read<'a>(&'a mut self, src: &[u8], end: Option<ErrorKind>) -> (received: Received<'a>)
        requires
            old(self)@.well_formed(),
        ensures
            final(self)@.well_formed(),
            message_received(old(self)@, src@, end) == (Reading {
                state: final(self)@,
                used: received.used as nat,
                replies: reply_contents(received.replies@),
                outcome: outcome_contents(received.outcome),
            }),
    {
        let size: usize = src.len();
        let mut used: usize = 0;
        let mut replies: Vec<Reply> = Vec::new();
        let mut verdict: Option<Verdict> = None;
        let ghost begin = self@;
        proof {
            assert(src@.skip(0) =~= src@);
            assert(reply_contents(replies@) =~= seq![]);
        }
        // Receive until the message is complete.
        loop
            invariant_except_break
                size == src@.len(),
                used <= size,
                self@.well_formed(),
                verdict is None,
                ({
                    let rest = message_received(self@, src@.skip(used as int), end);
                    message_received(begin, src@, end) == (Reading {
                        state: rest.state,
                        used: used as nat + rest.used,
                        replies: reply_contents(replies@) + rest.replies,
                        outcome: rest.outcome,
                    })
                }),
            ensures
                self@.well_formed(),
                ({
                    let reading = message_received(begin, src@, end);
                    &&& reading.state == self@
                    &&& reading.used == used
                    &&& reading.replies == reply_contents(replies@)
                    &&& match verdict {
                        None => reading.outcome is None,
                        Some(verdict) => reading.outcome is Some && verdict_is(
                            verdict,
                            self@,
                            reading.outcome->Some_0,
                        ),
                    }
                }),
            decreases size - used,
        {
            // If the receive path has been closed, return immediately and don't touch the socket.
            if self.rx_close_code.is_some() {
                verdict = Some(Verdict::Closed);
                break;
            }
            let rest: &[u8] = slice_subrange(src, used, size);
            proof {
                assert(rest@ =~= src@.skip(used as int));
                lemma_progress(self@, rest@, end);
            }
            let ghost before = self@;
            let ghost owed = reply_contents(replies@);
            let step: Step = self.read_frame(rest, end, &mut replies);
            match step {
                Step::Wait => {
                    break;
                },
                Step::Next(length) => {
                    proof {
                        let next = frame_received(before, rest@, end);
                        let after = message_received(
                            next->Next_state,
                            rest@.skip(length as int),
                            end,
                        );
                        assert(src@.skip(used + length) =~= rest@.skip(length as int));
                        assert(owed + (next->Next_replies + after.replies) =~= (owed
                            + next->Next_replies) + after.replies);
                    }
                    used += length;
                },
                Step::Stop(length, result) => {
                    used += length;
                    verdict = Some(result);
                    break;
                },
            }
        }
        let outcome = match verdict {
            None => None,
            Some(Verdict::Closed) => Some(Ok(None)),
            Some(Verdict::Failed(kind)) => Some(Err(kind)),
            Some(Verdict::Message(MessageType::Binary)) => Some(
                Ok(Some(Message::Binary(self.buffer.as_slice()))),
            ),
            Some(Verdict::Message(MessageType::Text)) => match std::str::from_utf8(
                self.buffer.as_slice(),
            ) {
                Ok(text) => {
                    proof {
                        vstd::utf8::encode_utf8_decode_utf8(text@);
                    }
                    Some(Ok(Some(Message::Text(text))))
                },
                Err(_) => Some(Err(ErrorKind::InvalidData)),
            },
        };
        Received { used, replies, outcome }
    }
}

/// Reads the close code at the start of the payload of a close frame.
fn close_code(payload: &[u8]) -> (code: u16)
    requires
        payload@.len() >= 2,
    ensures
        code == big_endian(payload@.take(2)) as u16,
{
    proof {
        let bytes = payload@.subrange(0, 2);
        assert(bytes =~= payload@.take(2));
        lemma_big_endian_bound(bytes);
        lemma_widths();
    }
    read_big_endian(payload, 0, 2) as u16
}

/// Whether a peer may give `code` as its close code.
fn may_be_sent(code: u16) -> (sent: bool)
    ensures
        sent == sendable(code),
{
    match code {
        CLOSE_RX_PROTOCOL_ERROR | CLOSE_RX_INVALID_FRAME_PAYLOAD_DATA
        | CLOSE_RX_MESSAGE_TOO_BIG => false,
        _ => (1000 <= code && code <= 1003) || (1007 <= code && code <= 1011) || (3000 <= code
            && code <= 4999),
    }
}

/// A frame that has been dealt with has a size, lies within the received bytes, and leaves the
/// connection well-formed.
proof fn lemma_progress(state: ConnectionState, src: Seq<u8>, end: Option<ErrorKind>)
    requires
        state.well_formed(),
    ensures
        match frame_received(state, src, end) {
            Progress::Wait => true,
            Progress::Next { state: next, used, .. } => 0 < used <= src.len()
                && next.well_formed(),
            Progress::Stop { state: next, used, .. } => used <= src.len() && next.well_formed(),
        },
{
    reveal(frame_received);
    if header_read(src) is Ok {
        law_header_is_canonical(src);
    }
}

/// Once the peer has closed the socket, or has been found to misbehave, there is nothing more to
/// read, nothing is touched, and the reason stays.
pub proof fn law_closed_stays_closed(
    state: ConnectionState,
    src: Seq<u8>,
    end: Option<ErrorKind>,
)
    requires
        state.rx_close_code is Some,
    ensures
        message_received(state, src, end) == (Reading {
            state,
            used: 0,
            replies: seq![],
            outcome: Some(Ok(None)),
        }),
{
}

/// A connection is closed by whatever ends it, and by nothing else: after a message, and while more
/// bytes are awaited, there is no close code; after anything else there is one. The transmit half
/// is closed exactly when the peer is told why the connection ends.
pub proof fn law_reading_closes_exactly_at_the_end(
    state: ConnectionState,
    src: Seq<u8>,
    end: Option<ErrorKind>,
)
    requires
        state.well_formed(),
        state.rx_close_code is None,
    ensures
        ({
            let reading = message_received(state, src, end);
            &&& reading.state.rx_close_code is None <==> (reading.outcome is None
                || reading.outcome matches Some(Ok(Some(_))))
            &&& reading.state.tx_closed <==> (reading.replies.len() > 0
                && reading.replies.last() is Close)
            &&& reading.used <= src.len()
            &&& reading.state.max_message_size == state.max_message_size
        }),
    decreases src.len(),
{
    lemma_progress(state, src, end);
    lemma_frame_closes(state, src, end);
    if let Progress::Next { state: next, used, replies } = frame_received(state, src, end) {
        law_reading_closes_exactly_at_the_end(next, src.skip(used as int), end);
    }
}

/// What a single frame does to the two halves of an open connection.
proof fn lemma_frame_closes(state: ConnectionState, src: Seq<u8>, end: Option<ErrorKind>)
    requires
        state.well_formed(),
        state.rx_close_code is None,
    ensures
        match frame_received(state, src, end) {
            Progress::Wait => true,
            Progress::Next { state: next, replies, .. } => {
                &&& next.rx_close_code is None
                &&& !next.tx_closed
                &&& next.max_message_size == state.max_message_size
                &&& forall|i: int| 0 <= i < replies.len() ==> replies[i] is Pong
            },
            Progress::Stop { state: next, replies, result, .. } => {
                &&& next.rx_close_code is None <==> (result matches Ok(Some(_)))
                &&& next.tx_closed <==> replies.len() > 0 && replies.last() is Close
                &&& next.max_message_size == state.max_message_size
            },
        },
{
    reveal(frame_received);
}

/// Whether the close code that is reported after a read gives the cause of the closure away, and the
/// peer is told what it has to be told.
pub open spec fn cause_is_reported(reading: Reading, end: Option<ErrorKind>) -> bool {
    let told = if reading.state.tx_closed && reading.replies.len() > 0 {
        match reading.replies.last() {
            ReplyContents::Close(code) => Some(code),
            ReplyContents::Pong(_) => None,
        }
    } else {
        None
    };
    let refused = reading.outcome == Some(
        Err::<Option<MessageContents>, ErrorKind>(ErrorKind::InvalidData),
    );
    match reading.state.rx_close_code {
        None => told is None,
        Some(code) => if code == CLOSE_RX_PROTOCOL_ERROR {
            told == Some(CLOSE_PROTOCOL_ERROR) && refused
        } else if code == CLOSE_RX_INVALID_FRAME_PAYLOAD_DATA {
            told == Some(CLOSE_INVALID_FRAME_PAYLOAD_DATA) && refused
        } else if code == CLOSE_RX_MESSAGE_TOO_BIG {
            told == Some(CLOSE_MESSAGE_TOO_BIG) && refused
        } else if code == CLOSE_ABNORMAL {
            &&& told is None
            &&& end is Some
            &&& reading.outcome == Some(
                if end == Some(ErrorKind::UnexpectedEof) {
                    Ok(None)
                } else {
                    Err::<Option<MessageContents>, ErrorKind>(end->Some_0)
                },
            )
        } else {
            &&& told is None
            &&& code == CLOSE_NO_STATUS_RECEIVED || sendable(code)
            &&& reading.outcome == Some(Ok::<Option<MessageContents>, ErrorKind>(None))
        },
    }
}

/// A reported close code tells who ended the connection and why: the codes for what the library finds
/// out itself are reported exactly when the peer is told so, under the code that goes over the wire;
/// an abnormal closure is reported only if the transport has ended; and any other code is one that
/// the peer has given, or stands for its having given none.
pub proof fn law_reported_codes(state: ConnectionState, src: Seq<u8>, end: Option<ErrorKind>)
    requires
        state.well_formed(),
        state.rx_close_code is None,
    ensures
        cause_is_reported(message_received(state, src, end), end),
    decreases src.len(),
{
    lemma_progress(state, src, end);
    lemma_frame_closes(state, src, end);
    match frame_received(state, src, end) {
        Progress::Next { state: next, used, replies } => {
            let tail = src.skip(used as int);
            law_reported_codes(next, tail, end);
            law_reading_closes_exactly_at_the_end(next, tail, end);
            let rest = message_received(next, tail, end);
            if rest.replies.len() > 0 {
                assert((replies + rest.replies).last() == rest.replies.last());
            }
        },
        _ => {
            reveal(frame_received);
        },
    }
}

/// Some close codes are for this side only: no other codes go over the wire than those for a
/// violation of the protocol, for a text that is not UTF-8, and for a message that is too big.
pub proof fn law_codes_on_the_wire(state: ConnectionState, src: Seq<u8>, end: Option<ErrorKind>)
    requires
        state.well_formed(),
    ensures
        forall|i: int|
            #![trigger message_received(state, src, end).replies[i]]
            0 <= i < message_received(state, src, end).replies.len() ==> (message_received(
                state,
                src,
                end,
            ).replies[i] matches ReplyContents::Close(code) ==> code == CLOSE_PROTOCOL_ERROR || code
                == CLOSE_INVALID_FRAME_PAYLOAD_DATA || code == CLOSE_MESSAGE_TOO_BIG),
    decreases src.len(),
{
    if state.rx_close_code is None {
        lemma_progress(state, src, end);
        lemma_frame_closes(state, src, end);
        match frame_received(state, src, end) {
            Progress::Next { state: next, used, replies } => {
                let tail = src.skip(used as int);
                law_codes_on_the_wire(next, tail, end);
                let rest = message_received(next, tail, end).replies;
                assert forall|i: int| 0 <= i < (replies + rest).len() implies ((
                #[trigger] (replies + rest)[i]) matches ReplyContents::Close(code) ==> code
                    == CLOSE_PROTOCOL_ERROR || code == CLOSE_INVALID_FRAME_PAYLOAD_DATA || code
                    == CLOSE_MESSAGE_TOO_BIG) by {
                    if i >= replies.len() {
                        assert((replies + rest)[i] == rest[i - replies.len()]);
                    }
                }
            },
            _ => {
                reveal(frame_received);
            },
        }
    }
}

/// A message that is received is never larger than the connection accepts.
pub proof fn law_messages_fit(state: ConnectionState, src: Seq<u8>, end: Option<ErrorKind>)
    requires
        state.well_formed(),
        state.rx_close_code is None,
    ensures
        ({
            let reading = message_received(state, src, end);
            let payload = reading.state.payload;
            reading.outcome matches Some(Ok(Some(message))) ==> {
                &&& payload.len() <= state.max_message_size
                &&& message == message_contents(MessageType::Text, payload) || message
                    == message_contents(MessageType::Binary, payload)
            }
        }),
    decreases src.len(),
{
    lemma_progress(state, src, end);
    lemma_frame_closes(state, src, end);
    match frame_received(state, src, end) {
        Progress::Next { state: next, used, .. } => {
            law_messages_fit(next, src.skip(used as int), end);
        },
        _ => {
            reveal(frame_received);
        },
    }
}

/// A verdict on a frame never changes when more bytes arrive.
proof fn lemma_frame_needs_no_lookahead(
    state: ConnectionState,
    src: Seq<u8>,
    more: Seq<u8>,
    end: Option<ErrorKind>,
)
    requires
        frame_received(state, src, None) !is Wait,
    ensures
        frame_received(state, src + more, end) == frame_received(state, src, None),
{
    reveal(frame_received);
    law_header_needs_no_lookahead(src, more);
    if let Ok((header, start)) = header_read(src) {
        let stop = start + header.length;
        if stop <= src.len() {
            assert((src + more).subrange(start as int, stop as int) =~= src.subrange(
                start as int,
                stop as int,
            ));
        }
    }
}

/// It makes no difference in what portions bytes arrive: reading what is there and going on with
/// what is left over, once more has come, gives what reading everything at once would have given.
pub proof fn law_reading_in_portions(
    state: ConnectionState,
    src: Seq<u8>,
    more: Seq<u8>,
    end: Option<ErrorKind>,
)
    requires
        state.well_formed(),
    ensures
        ({
            let first = message_received(state, src, None);
            let whole = message_received(state, src + more, end);
            match first.outcome {
                Some(_) => whole == first,
                None => {
                    let rest = message_received(
                        first.state,
                        src.skip(first.used as int) + more,
                        end,
                    );
                    whole == (Reading {
                        state: rest.state,
                        used: first.used + rest.used,
                        replies: first.replies + rest.replies,
                        outcome: rest.outcome,
                    })
                },
            }
        }),
    decreases src.len(),
{
    if state.rx_close_code is None {
        lemma_progress(state, src, None);
        match frame_received(state, src, None) {
            Progress::Wait => {
                assert(src.skip(0) =~= src);
                let rest = message_received(state, src + more, end);
                assert(Seq::<ReplyContents>::empty() + rest.replies =~= rest.replies);
            },
            Progress::Stop { .. } => {
                lemma_frame_needs_no_lookahead(state, src, more, end);
            },
            Progress::Next { state: next, used, replies } => {
                lemma_frame_needs_no_lookahead(state, src, more, end);
                let tail = src.skip(used as int);
                law_reading_in_portions(next, tail, more, end);
                law_used_within(next, tail, None);
                assert((src + more).skip(used as int) =~= tail + more);
                let first = message_received(next, tail, None);
                assert(src.skip((used + first.used) as int) =~= tail.skip(first.used as int));
                let rest = message_received(
                    first.state,
                    tail.skip(first.used as int) + more,
                    end,
                );
                assert(replies + (first.replies + rest.replies) =~= (replies + first.replies)
                    + rest.replies);
            },
        }
    }
}

/// No more bytes are used up than there are.
pub proof fn law_used_within(state: ConnectionState, src: Seq<u8>, end: Option<ErrorKind>)
    requires
        state.well_formed(),
    ensures
        message_received(state, src, end).used <= src.len(),
    decreases src.len(),
{
    if state.rx_close_code is None {
        lemma_progress(state, src, end);
        if let Progress::Next { state: next, used, .. } = frame_received(state, src, end) {
            law_used_within(next, src.skip(used as int), end);
        }
    }
}

/// A frame as a client sends it.
pub open spec fn frame_bytes(
    header: HeaderFields,
    payload: Seq<u8>,
) -> Seq<u8> {
    header.encoding() + unmasked(payload, header.mask)
}

/// What is found in the bytes of a frame.
proof fn lemma_frame_bytes(
    header: HeaderFields,
    payload: Seq<u8>,
    rest: Seq<u8>,
)
    requires
        header.compliant(),
        header.length == payload.len(),
    ensures
        ({
            let src = frame_bytes(header, payload) + rest;
            let start = header.encoding().len();
            let stop = start + header.length;
            &&& header_read(src) == Ok::<
                (HeaderFields, nat),
                ErrorKind,
            >((header, start))
            &&& stop == frame_bytes(header, payload).len()
            &&& src.len() >= stop
            &&& unmasked(
                src.subrange(start as int, stop as int),
                header.mask,
            ) == payload
            &&& src.skip(stop as int) == rest
        }),
{
    let masked = unmasked(payload, header.mask);
    let src = frame_bytes(header, payload) + rest;
    let start = header.encoding().len();
    let stop = start + header.length;
    assert(src =~= header.encoding() + (masked + rest));
    law_header_round_trip(header, masked + rest);
    assert(src.subrange(start as int, stop as int) =~= masked);
    law_masking_is_an_involution(payload, header.mask);
    assert(src.skip(stop as int) =~= rest);
}

/// A ping is answered by a pong with the same payload, at any point of a message, and leaves the
/// message alone.
pub proof fn law_ping_is_answered(
    state: ConnectionState,
    header: HeaderFields,
    payload: Seq<u8>,
    rest: Seq<u8>,
    end: Option<ErrorKind>,
)
    requires
        header.compliant(),
        header.opcode == Opcode::Ping,
        header.length == payload.len(),
    ensures
        frame_received(state, frame_bytes(header, payload) + rest, end) == (Progress::Next {
            state,
            used: frame_bytes(header, payload).len(),
            replies: seq![ReplyContents::Pong(payload)],
        }),
{
    reveal(frame_received);
    lemma_frame_bytes(header, payload, rest);
}

/// A close frame with a code that a peer may send closes the connection, and the code is reported,
/// whatever the reason text after it.
pub proof fn law_close_is_reported(
    state: ConnectionState,
    header: HeaderFields,
    code: u16,
    reason: Seq<u8>,
    rest: Seq<u8>,
    end: Option<ErrorKind>,
)
    requires
        state.rx_close_code is None,
        header.compliant(),
        header.opcode == Opcode::Close,
        header.length == 2 + reason.len(),
        sendable(code),
    ensures
        ({
            let payload = big_endian_bytes(code as nat, 2) + reason;
            message_received(state, frame_bytes(header, payload) + rest, end) == (Reading {
                state: ConnectionState { rx_close_code: Some(code), ..state },
                used: frame_bytes(header, payload).len(),
                replies: seq![],
                outcome: Some(Ok(None)),
            })
        }),
{
    reveal(frame_received);
    let payload = big_endian_bytes(code as nat, 2) + reason;
    lemma_widths();
    law_number_round_trip(code as nat, 2);
    lemma_frame_bytes(header, payload, rest);
    assert(payload.take(2) =~= big_endian_bytes(code as nat, 2));
}

/// A ping or a pong: a mask, and the payload before masking.
#[verifier::ext_equal]
pub struct Control {
    /// Whether it is a ping.
    pub ping: bool,
    /// The four bytes of the mask.
    pub mask: Seq<u8>,
    /// The payload.
    pub payload: Seq<u8>,
}

impl Control {
    /// The header of the frame.
    pub open spec fn header(self) -> HeaderFields {
        HeaderFields {
            fin: true,
            opcode: if self.ping {
                Opcode::Ping
            } else {
                Opcode::Pong
            },
            length: self.payload.len(),
            mask: self.mask,
        }
    }

    /// Whether the mask has four bytes and the payload is as short as a control frame demands.
    pub open spec fn compliant(self) -> bool {
        self.mask.len() == 4 && self.payload.len() <= 125
    }
}

/// Control frames as a client sends them, one after the other.
pub open spec fn control_bytes(controls: Seq<Control>) -> Seq<u8>
    decreases controls.len(),
{
    if controls.len() == 0 {
        seq![]
    } else {
        frame_bytes(controls[0].header(), controls[0].payload) + control_bytes(
            controls.drop_first(),
        )
    }
}

/// The replies to control frames: a pong for each ping, in order.
pub open spec fn pongs(controls: Seq<Control>) -> Seq<ReplyContents>
    decreases controls.len(),
{
    if controls.len() == 0 {
        seq![]
    } else {
        let rest = pongs(controls.drop_first());
        if controls[0].ping {
            seq![ReplyContents::Pong(controls[0].payload)] + rest
        } else {
            rest
        }
    }
}

/// Pings and pongs, wherever they come, are answered and otherwise leave no trace: reading goes on
/// after them as if they had not been there.
pub proof fn law_controls_are_transparent(
    state: ConnectionState,
    controls: Seq<Control>,
    rest: Seq<u8>,
    end: Option<ErrorKind>,
)
    requires
        state.rx_close_code is None,
        forall|i: int| 0 <= i < controls.len() ==> (#[trigger] controls[i]).compliant(),
    ensures
        ({
            let reading = message_received(state, rest, end);
            message_received(state, control_bytes(controls) + rest, end) == (Reading {
                state: reading.state,
                used: control_bytes(controls).len() + reading.used,
                replies: pongs(controls) + reading.replies,
                outcome: reading.outcome,
            })
        }),
    decreases controls.len(),
{
    let reading = message_received(state, rest, end);
    if controls.len() == 0 {
        assert(control_bytes(controls) + rest =~= rest);
        assert(pongs(controls) + reading.replies =~= reading.replies);
    } else {
        reveal(frame_received);
        let others = controls.drop_first();
        assert forall|i: int| 0 <= i < others.len() implies (#[trigger] others[i]).compliant() by {
            assert(others[i] == controls[i + 1]);
        }
        let header = controls[0].header();
        let payload = controls[0].payload;
        let after = control_bytes(others) + rest;
        assert(controls[0].compliant());
        assert(control_bytes(controls) + rest =~= frame_bytes(header, payload) + after);
        lemma_frame_bytes(header, payload, after);
        law_controls_are_transparent(state, others, rest, end);
        assert(pongs(controls) + reading.replies =~= if controls[0].ping {
            seq![ReplyContents::Pong(payload)] + (pongs(others) + reading.replies)
        } else {
            seq![] + (pongs(others) + reading.replies)
        });
    }
}

/// Part of a message: the control frames that come before it, a mask, and the payload before
/// masking.
#[verifier::ext_equal]
pub struct Fragment {
    /// The pings and pongs that come before the part.
    pub controls: Seq<Control>,
    /// The four bytes of the mask.
    pub mask: Seq<u8>,
    /// The payload.
    pub payload: Seq<u8>,
}

/// The payload of the message that is made of `parts`.
pub open spec fn joined(parts: Seq<Fragment>) -> Seq<u8>
    decreases parts.len(),
{
    if parts.len() == 0 {
        seq![]
    } else {
        parts[0].payload + joined(parts.drop_first())
    }
}

/// The replies to the control frames among `parts`: a pong for each ping, in order.
pub open spec fn pongs_within(parts: Seq<Fragment>) -> Seq<ReplyContents>
    decreases parts.len(),
{
    if parts.len() == 0 {
        seq![]
    } else {
        pongs(parts[0].controls) + pongs_within(parts.drop_first())
    }
}

/// The header of the first of some fragments of a message.
pub open spec fn fragment_header(opcode: Opcode, parts: Seq<Fragment>) -> HeaderFields {
    HeaderFields {
        fin: parts.len() == 1,
        opcode,
        length: parts[0].payload.len(),
        mask: parts[0].mask,
    }
}

/// A message as a client sends it: a first frame with the opcode of its type, and continuation
/// frames for the rest of its parts, with control frames in between.
pub open spec fn fragmented(opcode: Opcode, parts: Seq<Fragment>) -> Seq<u8>
    decreases parts.len(),
{
    if parts.len() == 0 {
        seq![]
    } else {
        control_bytes(parts[0].controls) + (frame_bytes(
            fragment_header(opcode, parts),
            parts[0].payload,
        ) + fragmented(Opcode::Continuation, parts.drop_first()))
    }
}

/// Whether each of `parts` has a mask of four bytes and a payload of a length that a header can
/// hold, and compliant control frames before it.
pub open spec fn sendable_parts(parts: Seq<Fragment>) -> bool {
    forall|i: int|
        0 <= i < parts.len() ==> {
            &&& (#[trigger] parts[i]).mask.len() == 4
            &&& parts[i].payload.len() < 0x8000_0000_0000_0000
            &&& forall|j: int|
                0 <= j < parts[i].controls.len() ==> (#[trigger] parts[i].controls[j]).compliant()
        }
}

/// Whether a message of a type can go on, or begin, with a frame of an opcode.
spec fn fits_in(state: ConnectionState, opcode: Opcode, message_type: MessageType) -> bool {
    match opcode {
        Opcode::Continuation => state.message_type == Some(message_type),
        Opcode::Text => state.message_type is None && message_type == MessageType::Text,
        Opcode::Binary => state.message_type is None && message_type == MessageType::Binary,
        _ => false,
    }
}

/// The payload that a frame of an opcode adds to.
spec fn payload_before(state: ConnectionState, opcode: Opcode) -> Seq<u8> {
    if opcode == Opcode::Continuation {
        state.payload
    } else {
        seq![]
    }
}

/// The state of a connection after a part of a message that others follow.
spec fn part_received(
    state: ConnectionState,
    opcode: Opcode,
    message_type: MessageType,
    part: Seq<u8>,
) -> ConnectionState {
    ConnectionState {
        message_type: Some(message_type),
        payload: payload_before(state, opcode) + part,
        ..state
    }
}

/// What reading comes to after a frame that leaves `next` behind and is followed by `rest`.
spec fn goes_on(
    next: ConnectionState,
    rest: Seq<u8>,
    end: Option<ErrorKind>,
    used: nat,
    replies: Seq<ReplyContents>,
) -> Reading {
    let reading = message_received(next, rest, end);
    Reading {
        state: reading.state,
        used: used + reading.used,
        replies: replies + reading.replies,
        outcome: reading.outcome,
    }
}

/// The reading that a frame comes to which gives a result.
spec fn stops(progress: Progress, used: nat, replies: Seq<ReplyContents>) -> Reading {
    Reading {
        state: progress->Stop_state,
        used: used + progress->Stop_used,
        replies: replies + progress->Stop_replies,
        outcome: Some(progress->Stop_result),
    }
}

/// What reading the first of the remaining parts of a message comes to, with the control frames
/// before it.
proof fn lemma_first_part(
    state: ConnectionState,
    opcode: Opcode,
    message_type: MessageType,
    parts: Seq<Fragment>,
    rest: Seq<u8>,
    end: Option<ErrorKind>,
)
    requires
        state.rx_close_code is None,
        parts.len() > 0,
        sendable_parts(parts),
        fits_in(state, opcode, message_type),
    ensures
        sendable_parts(parts.drop_first()),
        ({
            let part = parts[0].payload;
            let payload = payload_before(state, opcode) + part;
            let others = parts.drop_first();
            let after = fragmented(Opcode::Continuation, others) + rest;
            let skipped = control_bytes(parts[0].controls).len();
            let size = frame_bytes(fragment_header(opcode, parts), part).len();
            let owed = pongs(parts[0].controls);
            let whole = ConnectionState { message_type: None, payload, ..state };
            message_received(state, fragmented(opcode, parts) + rest, end) == if payload.len()
                > state.max_message_size {
                stops(
                    refused(state, CLOSE_RX_MESSAGE_TOO_BIG, CLOSE_MESSAGE_TOO_BIG),
                    skipped,
                    owed,
                )
            } else if parts.len() > 1 {
                goes_on(
                    part_received(state, opcode, message_type, part),
                    after,
                    end,
                    skipped + size,
                    owed,
                )
            } else if message_type == MessageType::Text && !vstd::utf8::valid_utf8(payload) {
                stops(
                    refused(
                        whole,
                        CLOSE_RX_INVALID_FRAME_PAYLOAD_DATA,
                        CLOSE_INVALID_FRAME_PAYLOAD_DATA,
                    ),
                    skipped,
                    owed,
                )
            } else {
                Reading {
                    state: whole,
                    used: skipped + size,
                    replies: owed,
                    outcome: Some(Ok(Some(message_contents(message_type, payload)))),
                }
            }
        }),
{
    let header = fragment_header(opcode, parts);
    let part = parts[0].payload;
    let controls = parts[0].controls;
    let others = parts.drop_first();
    let after = fragmented(Opcode::Continuation, others) + rest;
    let src = frame_bytes(header, part) + after;
    assert(fragmented(opcode, parts) + rest =~= control_bytes(controls) + src);
    assert(parts[0].mask.len() == 4);
    assert forall|i: int| 0 <= i < others.len() implies {
        &&& (#[trigger] others[i]).mask.len() == 4
        &&& others[i].payload.len() < 0x8000_0000_0000_0000
        &&& forall|j: int|
            0 <= j < others[i].controls.len() ==> (#[trigger] others[i].controls[j]).compliant()
    } by {
        assert(others[i] == parts[i + 1]);
    }
    law_controls_are_transparent(state, controls, src, end);
    lemma_frame_bytes(header, part, after);
    reveal(frame_received);
    let next = part_received(state, opcode, message_type, part);
    let going_on = message_received(next, after, end);
    assert(Seq::<ReplyContents>::empty() + going_on.replies =~= going_on.replies);
    assert(pongs(controls) + Seq::<ReplyContents>::empty() =~= pongs(controls));
}

/// What reading the remaining parts of a message comes to.
proof fn lemma_parts(
    state: ConnectionState,
    opcode: Opcode,
    message_type: MessageType,
    parts: Seq<Fragment>,
    rest: Seq<u8>,
    end: Option<ErrorKind>,
)
    requires
        state.rx_close_code is None,
        parts.len() > 0,
        sendable_parts(parts),
        fits_in(state, opcode, message_type),
        (payload_before(state, opcode) + joined(parts)).len() <= state.max_message_size,
    ensures
        ({
            let payload = payload_before(state, opcode) + joined(parts);
            let reading = message_received(state, fragmented(opcode, parts) + rest, end);
            if message_type == MessageType::Text && !vstd::utf8::valid_utf8(payload) {
                is_refused(
                    reading,
                    CLOSE_RX_INVALID_FRAME_PAYLOAD_DATA,
                    CLOSE_INVALID_FRAME_PAYLOAD_DATA,
                    pongs_within(parts),
                )
            } else {
                reading == (Reading {
                    state: ConnectionState { message_type: None, payload, ..state },
                    used: fragmented(opcode, parts).len(),
                    replies: pongs_within(parts),
                    outcome: Some(Ok(Some(message_contents(message_type, payload)))),
                })
            }
        }),
    decreases parts.len(),
{
    lemma_first_part(state, opcode, message_type, parts, rest, end);
    let part = parts[0].payload;
    let owed = pongs(parts[0].controls);
    let others = parts.drop_first();
    let before = payload_before(state, opcode);
    assert(joined(parts) == part + joined(others));
    if parts.len() == 1 {
        assert(others.len() == 0);
        assert(before + joined(parts) =~= before + part);
        assert(pongs_within(parts) =~= owed);
        let sent = seq![ReplyContents::Close(CLOSE_INVALID_FRAME_PAYLOAD_DATA)];
        assert((owed + sent).drop_last() =~= owed);
    } else {
        let next = part_received(state, opcode, message_type, part);
        assert(next.payload + joined(others) =~= before + joined(parts));
        lemma_parts(next, Opcode::Continuation, message_type, others, rest, end);
        let reading = message_received(
            next,
            fragmented(Opcode::Continuation, others) + rest,
            end,
        );
        if reading.replies.len() > 0 {
            assert((owed + reading.replies).drop_last() =~= owed + reading.replies.drop_last());
        }
    }
}

/// The replies to the control frames among `parts` up to the part that takes a message beyond
/// `room` more bytes.
pub open spec fn pongs_before_excess(parts: Seq<Fragment>, room: nat) -> Seq<ReplyContents>
    decreases parts.len(),
{
    if parts.len() == 0 {
        seq![]
    } else if parts[0].payload.len() > room {
        pongs(parts[0].controls)
    } else {
        pongs(parts[0].controls) + pongs_before_excess(
            parts.drop_first(),
            (room - parts[0].payload.len()) as nat,
        )
    }
}

/// What reading the remaining parts of a message that is too big comes to.
proof fn lemma_excessive_parts(
    state: ConnectionState,
    opcode: Opcode,
    message_type: MessageType,
    parts: Seq<Fragment>,
    rest: Seq<u8>,
    end: Option<ErrorKind>,
)
    requires
        state.well_formed(),
        state.rx_close_code is None,
        parts.len() > 0,
        sendable_parts(parts),
        fits_in(state, opcode, message_type),
        (payload_before(state, opcode) + joined(parts)).len() > state.max_message_size,
    ensures
        is_refused(
            message_received(state, fragmented(opcode, parts) + rest, end),
            CLOSE_RX_MESSAGE_TOO_BIG,
            CLOSE_MESSAGE_TOO_BIG,
            pongs_before_excess(
                parts,
                (state.max_message_size - payload_before(state, opcode).len()) as nat,
            ),
        ),
    decreases parts.len(),
{
    lemma_first_part(state, opcode, message_type, parts, rest, end);
    let part = parts[0].payload;
    let owed = pongs(parts[0].controls);
    let others = parts.drop_first();
    let before = payload_before(state, opcode);
    assert(joined(parts) == part + joined(others));
    if before.len() + part.len() > state.max_message_size {
        let sent = seq![ReplyContents::Close(CLOSE_MESSAGE_TOO_BIG)];
        assert((owed + sent).drop_last() =~= owed);
    } else {
        let next = part_received(state, opcode, message_type, part);
        if parts.len() == 1 {
            assert(others.len() == 0);
        }
        lemma_excessive_parts(next, Opcode::Continuation, message_type, others, rest, end);
        let reading = message_received(
            next,
            fragmented(Opcode::Continuation, others) + rest,
            end,
        );
        assert((owed + reading.replies).drop_last() =~= owed + reading.replies.drop_last());
    }
}

/// Whether a reading ends the connection because of what the peer has sent: `reported` tells the
/// application why, and `sent`, after the replies in `owed`, tells the peer.
pub open spec fn is_refused(
    reading: Reading,
    reported: u16,
    sent: u16,
    owed: Seq<ReplyContents>,
) -> bool {
    &&& reading.state.rx_close_code == Some(reported)
    &&& reading.state.tx_closed
    &&& reading.replies.len() > 0
    &&& reading.replies.last() == ReplyContents::Close(sent)
    &&& reading.replies.drop_last() == owed
    &&& reading.outcome == Some(
        Err::<Option<MessageContents>, ErrorKind>(ErrorKind::InvalidData),
    )
}

/// The opcode of the first frame of a message.
pub open spec fn message_opcode(message_type: MessageType) -> Opcode {
    match message_type {
        MessageType::Text => Opcode::Text,
        MessageType::Binary => Opcode::Binary,
    }
}

/// What a peer sends is what is read: a message of either type, in however many fragments it comes,
/// however they are masked and whatever pings and pongs come between them, is received whole and
/// unchanged, with a pong for each ping in order, whatever follows it, provided that it is not
/// larger than the connection accepts and, for a text message, that it is UTF-8.
pub proof fn law_message_is_received(
    state: ConnectionState,
    message_type: MessageType,
    parts: Seq<Fragment>,
    rest: Seq<u8>,
    end: Option<ErrorKind>,
)
    requires
        state.well_formed(),
        state.rx_close_code is None,
        state.message_type is None,
        parts.len() > 0,
        sendable_parts(parts),
        joined(parts).len() <= state.max_message_size,
        message_type == MessageType::Text ==> vstd::utf8::valid_utf8(joined(parts)),
    ensures
        ({
            let src = fragmented(message_opcode(message_type), parts);
            message_received(state, src + rest, end) == (Reading {
                state: ConnectionState { message_type: None, payload: joined(parts), ..state },
                used: src.len(),
                replies: pongs_within(parts),
                outcome: Some(Ok(Some(message_contents(message_type, joined(parts))))),
            })
        }),
{
    assert(seq![] + joined(parts) =~= joined(parts));
    lemma_parts(state, message_opcode(message_type), message_type, parts, rest, end);
}

/// A message that is larger than the connection accepts is refused, in however many fragments it
/// comes and whatever its type: the peer is told so, after the pongs for the pings that came before
/// the excess, and the application is told under a code of its own.
pub proof fn law_too_big_message_is_refused(
    state: ConnectionState,
    message_type: MessageType,
    parts: Seq<Fragment>,
    rest: Seq<u8>,
    end: Option<ErrorKind>,
)
    requires
        state.well_formed(),
        state.rx_close_code is None,
        state.message_type is None,
        sendable_parts(parts),
        joined(parts).len() > state.max_message_size,
    ensures
        is_refused(
            message_received(
                state,
                fragmented(message_opcode(message_type), parts) + rest,
                end,
            ),
            CLOSE_RX_MESSAGE_TOO_BIG,
            CLOSE_MESSAGE_TOO_BIG,
            pongs_before_excess(parts, state.max_message_size),
        ),
{
    assert(seq![] + joined(parts) =~= joined(parts));
    lemma_excessive_parts(state, message_opcode(message_type), message_type, parts, rest, end);
}

/// A text message that is not UTF-8 is refused, in however many fragments it comes, provided that it
/// is not too big already: the peer is told so, after a pong for each ping in order, and the
/// application is told under a code of its own.
pub proof fn law_malformed_text_is_refused(
    state: ConnectionState,
    parts: Seq<Fragment>,
    rest: Seq<u8>,
    end: Option<ErrorKind>,
)
    requires
        state.well_formed(),
        state.rx_close_code is None,
        state.message_type is None,
        parts.len() > 0,
        sendable_parts(parts),
        joined(parts).len() <= state.max_message_size,
        !vstd::utf8::valid_utf8(joined(parts)),
    ensures
        is_refused(
            message_received(state, fragmented(Opcode::Text, parts) + rest, end),
            CLOSE_RX_INVALID_FRAME_PAYLOAD_DATA,
            CLOSE_INVALID_FRAME_PAYLOAD_DATA,
            pongs_within(parts),
        ),
{
    assert(seq![] + joined(parts) =~= joined(parts));
    lemma_parts(state, Opcode::Text, MessageType::Text, parts, rest, end);
}

/// A frame after which reading goes on has a size and lies within the received bytes.
proof fn lemma_next_size(state: ConnectionState, src: Seq<u8>, end: Option<ErrorKind>)
    ensures
        frame_received(state, src, end) matches Progress::Next { used, .. } ==> 0 < used
            <= src.len(),
{
    reveal(frame_received);
    if header_read(src) is Ok {
        law_header_is_canonical(src);
    }
}

/// Once the transport has ended, nothing is awaited any more: reading always gives an outcome.
pub proof fn law_end_of_transport_is_noticed(state: ConnectionState, src: Seq<u8>, kind: ErrorKind)
    ensures
        message_received(state, src, Some(kind)).outcome is Some,
    decreases src.len(),
{
    if state.rx_close_code is None {
        lemma_next_size(state, src, Some(kind));
        match frame_received(state, src, Some(kind)) {
            Progress::Next { state: next, used, .. } => {
                law_end_of_transport_is_noticed(next, src.skip(used as int), kind);
            },
            _ => {
                reveal(frame_received);
            },
        }
    }
}

/// The end of the transport decides only what is undecided: where reading has an outcome without it, it
/// makes no difference; and where more would have been awaited, the connection is closed abnormally,
/// without another word to the peer, which is the end of the messages if the peer has closed the
/// transport, and else the error of the transport. Data that the transport calls invalid are a
/// violation of the protocol.
pub proof fn law_end_of_transport_decides(state: ConnectionState, src: Seq<u8>, kind: ErrorKind)
    requires
        state.well_formed(),
        state.rx_close_code is None,
    ensures
        ({
            let open = message_received(state, src, None);
            let ended = message_received(state, src, Some(kind));
            &&& open.outcome is Some ==> ended == open
            &&& open.outcome is None ==> ended.used == open.used
            &&& open.outcome is None && kind != ErrorKind::InvalidData ==> {
                &&& ended.state == (ConnectionState { rx_close_code: Some(1006), ..open.state })
                &&& ended.replies == open.replies
                &&& kind == ErrorKind::UnexpectedEof ==> ended.outcome == Some(
                    Ok::<Option<MessageContents>, ErrorKind>(None),
                )
                &&& kind != ErrorKind::UnexpectedEof ==> ended.outcome == Some(
                    Err::<Option<MessageContents>, ErrorKind>(kind),
                )
            }
            &&& open.outcome is None && kind == ErrorKind::InvalidData ==> is_refused(
                ended,
                4358,
                1002,
                open.replies,
            )
        }),
    decreases src.len(),
{
    lemma_progress(state, src, None);
    match frame_received(state, src, None) {
        Progress::Wait => {
            reveal(frame_received);
            assert(Seq::<ReplyContents>::empty() =~= seq![ReplyContents::Close(1002)].drop_last());
        },
        Progress::Stop { .. } => {
            lemma_frame_needs_no_lookahead(state, src, seq![], Some(kind));
            assert(src + seq![] =~= src);
        },
        Progress::Next { state: next, used, replies } => {
            lemma_frame_needs_no_lookahead(state, src, seq![], Some(kind));
            assert(src + seq![] =~= src);
            lemma_next_stays_open(state, src, None);
            let tail = src.skip(used as int);
            law_end_of_transport_decides(next, tail, kind);
            let ended = message_received(next, tail, Some(kind));
            if ended.replies.len() > 0 {
                assert((replies + ended.replies).drop_last() =~= replies
                    + ended.replies.drop_last());
            }
        },
    }
}

/// A frame after which reading goes on does not close the connection.
proof fn lemma_next_stays_open(state: ConnectionState, src: Seq<u8>, end: Option<ErrorKind>)
    requires
        state.rx_close_code is None,
    ensures
        frame_received(state, src, end) matches Progress::Next { state: next, .. }
            ==> next.rx_close_code is None,
{
    reveal(frame_received);
}

/// Whether a frame with this header is in order on a connection: a continuation follows a part of a
/// message and a new message does not, the message does not become too big, and a close frame does not
/// hold half a code.
pub open spec fn in_order(state: ConnectionState, header: HeaderFields) -> bool {
    match header.opcode {
        Opcode::Continuation => state.message_type is Some && state.payload.len() + header.length
            <= state.max_message_size,
        Opcode::Text | Opcode::Binary => state.message_type is None && header.length
            <= state.max_message_size,
        Opcode::Close => header.length != 1,
        Opcode::Ping | Opcode::Pong => true,
    }
}

/// A frame of which any part is still missing is awaited, and nothing of it is used up; and if the
/// transport ends there, even before its first byte, the connection is closed abnormally: in an orderly
/// way for the application if the peer has closed the transport, and else with the error.
pub proof fn law_incomplete_frame(
    state: ConnectionState,
    header: HeaderFields,
    payload: Seq<u8>,
    size: int,
    kind: ErrorKind,
)
    requires
        state.rx_close_code is None,
        header.compliant(),
        header.length == payload.len(),
        in_order(state, header),
        0 <= size < frame_bytes(header, payload).len(),
        kind != ErrorKind::InvalidData,
    ensures
        ({
            let src = frame_bytes(header, payload).take(size);
            let open = message_received(state, src, None);
            let ended = message_received(state, src, Some(kind));
            &&& open.state == state
            &&& open.used == 0
            &&& open.replies.len() == 0
            &&& open.outcome is None
            &&& ended.state == (ConnectionState { rx_close_code: Some(1006), ..state })
            &&& ended.used == 0
            &&& ended.replies.len() == 0
            &&& kind == ErrorKind::UnexpectedEof ==> ended.outcome == Some(
                Ok::<Option<MessageContents>, ErrorKind>(None),
            )
            &&& kind != ErrorKind::UnexpectedEof ==> ended.outcome == Some(
                Err::<Option<MessageContents>, ErrorKind>(kind),
            )
        }),
{
    reveal(frame_received);
    let whole = frame_bytes(header, payload);
    let src = whole.take(size);
    let missing = whole.skip(size);
    lemma_frame_bytes(header, payload, seq![]);
    assert(whole + seq![] =~= whole);
    assert(src + missing =~= whole);
    if header_read(src) != Err::<(HeaderFields, nat), ErrorKind>(ErrorKind::UnexpectedEof) {
        law_header_needs_no_lookahead(src, missing);
    }
}

/// Before the first byte of a frame, the end of the transport closes the connection abnormally.
pub proof fn law_end_between_frames(state: ConnectionState, kind: ErrorKind)
    requires
        state.rx_close_code is None,
        kind != ErrorKind::InvalidData,
    ensures
        ({
            let src = Seq::<u8>::empty();
            &&& message_received(state, src, None).outcome is None
            &&& message_received(state, src, Some(kind)).state.rx_close_code == Some(1006u16)
            &&& message_received(state, src, Some(kind)).outcome == Some(
                if kind == ErrorKind::UnexpectedEof {
                    Ok(None)
                } else {
                    Err::<Option<MessageContents>, ErrorKind>(kind)
                },
            )
        }),
{
    let header = HeaderFields {
        fin: true,
        opcode: Opcode::Ping,
        length: 0,
        mask: seq![0, 0, 0, 0],
    };
    law_incomplete_frame(state, header, seq![], 0, kind);
    assert(frame_bytes(header, seq![]).take(0) =~= seq![]);
}

/// A header that violates the protocol is refused as such as soon as the violation is there.
pub proof fn law_malformed_header_is_refused(
    state: ConnectionState,
    src: Seq<u8>,
    end: Option<ErrorKind>,
)
    requires
        state.rx_close_code is None,
        header_read(src) == Err::<(HeaderFields, nat), ErrorKind>(ErrorKind::InvalidData),
    ensures
        is_refused(message_received(state, src, end), 4358, 1002, seq![]),
{
    reveal(frame_received);
    assert(Seq::<ReplyContents>::empty() =~= seq![ReplyContents::Close(1002)].drop_last());
}

/// Frames out of order are refused as soon as their header is there: a continuation of nothing, a new
/// message within another one, half a close code, and, under a code of its own, a message that becomes
/// too big.
pub proof fn law_frames_out_of_order_are_refused(
    state: ConnectionState,
    header: HeaderFields,
    rest: Seq<u8>,
    end: Option<ErrorKind>,
)
    requires
        state.rx_close_code is None,
        header.compliant(),
    ensures
        ({
            let reading = message_received(state, header.encoding() + rest, end);
            let before = if header.opcode is Continuation {
                state.payload.len()
            } else {
                0
            };
            let misplaced = match header.opcode {
                Opcode::Continuation => state.message_type is None,
                Opcode::Text | Opcode::Binary => state.message_type is Some,
                Opcode::Close => header.length == 1,
                Opcode::Ping | Opcode::Pong => false,
            };
            &&& misplaced ==> is_refused(reading, 4358, 1002, seq![])
            &&& !misplaced && !is_control(header.opcode) && before + header.length
                > state.max_message_size ==> is_refused(reading, 4360, 1009, seq![])
        }),
{
    reveal(frame_received);
    law_header_round_trip(header, rest);
    assert(Seq::<ReplyContents>::empty() =~= seq![ReplyContents::Close(1002)].drop_last());
    assert(Seq::<ReplyContents>::empty() =~= seq![ReplyContents::Close(1009)].drop_last());
}

/// A frame of a message that is in order adds its payload to the message: if it is not the last one,
/// reading goes on with what follows it; and if it is, the message is complete, unless it is a text
/// that is not UTF-8.
pub proof fn law_data_frame_extends_message(
    state: ConnectionState,
    header: HeaderFields,
    payload: Seq<u8>,
    rest: Seq<u8>,
    end: Option<ErrorKind>,
)
    requires
        state.rx_close_code is None,
        header.compliant(),
        header.length == payload.len(),
        in_order(state, header),
        !is_control(header.opcode),
    ensures
        ({
            let size = frame_bytes(header, payload).len();
            let reading = message_received(state, frame_bytes(header, payload) + rest, end);
            let message_type = if header.opcode is Continuation {
                state.message_type->Some_0
            } else if header.opcode is Text {
                MessageType::Text
            } else {
                MessageType::Binary
            };
            let extended = if header.opcode is Continuation {
                state.payload + payload
            } else {
                payload
            };
            let after = message_received(
                ConnectionState {
                    message_type: Some(message_type),
                    payload: extended,
                    ..state
                },
                rest,
                end,
            );
            let malformed = message_type is Text && !vstd::utf8::valid_utf8(extended);
            &&& !header.fin ==> {
                &&& reading.state == after.state
                &&& reading.used == size + after.used
                &&& reading.replies == after.replies
                &&& reading.outcome == after.outcome
            }
            &&& header.fin && malformed ==> is_refused(reading, 4359, 1007, seq![])
            &&& header.fin && !malformed ==> {
                &&& reading.state == (ConnectionState {
                    message_type: None,
                    payload: extended,
                    ..state
                })
                &&& reading.used == size
                &&& reading.replies.len() == 0
                &&& message_type is Binary ==> reading.outcome == Some(
                    Ok::<Option<MessageContents>, ErrorKind>(
                        Some(MessageContents::Binary(extended)),
                    ),
                )
                &&& message_type is Text ==> (reading.outcome matches Some(
                    Ok(Some(MessageContents::Text(text))),
                ) && vstd::utf8::encode_utf8(text) == extended)
            }
        }),
{
    reveal(frame_received);
    lemma_frame_bytes(header, payload, rest);
    let message_type = if header.opcode is Continuation {
        state.message_type->Some_0
    } else if header.opcode is Text {
        MessageType::Text
    } else {
        MessageType::Binary
    };
    let extended = if header.opcode is Continuation {
        state.payload + payload
    } else {
        payload
    };
    assert(Seq::<u8>::empty() + payload =~= payload);
    let next = ConnectionState { message_type: Some(message_type), payload: extended, ..state };
    let after = message_received(next, rest, end);
    assert(Seq::<ReplyContents>::empty() + after.replies =~= after.replies);
    assert(Seq::<ReplyContents>::empty() =~= seq![ReplyContents::Close(1007)].drop_last());
    if vstd::utf8::valid_utf8(extended) {
        vstd::utf8::decode_utf8_encode_utf8(extended);
    }
}

/// A ping is answered with its own payload and a pong is not; reading goes on after both as if they had
/// not been there.
pub proof fn law_pings_are_answered_and_pongs_ignored(
    state: ConnectionState,
    header: HeaderFields,
    payload: Seq<u8>,
    rest: Seq<u8>,
    end: Option<ErrorKind>,
)
    requires
        state.rx_close_code is None,
        header.compliant(),
        header.length == payload.len(),
        header.opcode is Ping || header.opcode is Pong,
    ensures
        ({
            let reading = message_received(state, frame_bytes(header, payload) + rest, end);
            let after = message_received(state, rest, end);
            &&& reading.state == after.state
            &&& reading.used == frame_bytes(header, payload).len() + after.used
            &&& reading.outcome == after.outcome
            &&& header.opcode is Ping ==> reading.replies == seq![ReplyContents::Pong(payload)]
                + after.replies
            &&& header.opcode is Pong ==> reading.replies == after.replies
        }),
{
    reveal(frame_received);
    lemma_frame_bytes(header, payload, rest);
    let after = message_received(state, rest, end);
    assert(Seq::<ReplyContents>::empty() + after.replies =~= after.replies);
}

/// The codes that a peer may give when it closes a connection.
pub proof fn law_codes_that_may_be_given(code: u16)
    ensures
        sendable(code) <==> 1000 <= code <= 1003 || 1007 <= code <= 1011 || 3000 <= code <= 4357
            || 4361 <= code <= 4999,
{
}

/// A close frame without a code closes the connection in an orderly way, and it is reported that there
/// was none.
pub proof fn law_close_without_code(
    state: ConnectionState,
    header: HeaderFields,
    rest: Seq<u8>,
    end: Option<ErrorKind>,
)
    requires
        state.rx_close_code is None,
        header.compliant(),
        header.opcode is Close,
        header.length == 0,
    ensures
        message_received(state, header.encoding() + rest, end) == (Reading {
            state: ConnectionState { rx_close_code: Some(1005), ..state },
            used: header.encoding().len(),
            replies: seq![],
            outcome: Some(Ok(None)),
        }),
{
    reveal(frame_received);
    law_header_round_trip(header, rest);
}

/// A close frame with a code closes the connection in an orderly way, and the code is reported, if a
/// peer may give it; any other code is a violation.
pub proof fn law_close_with_code(
    state: ConnectionState,
    header: HeaderFields,
    code: u16,
    reason: Seq<u8>,
    rest: Seq<u8>,
    end: Option<ErrorKind>,
)
    requires
        state.rx_close_code is None,
        header.compliant(),
        header.opcode is Close,
        header.length == 2 + reason.len(),
    ensures
        ({
            let payload = seq![(code / 256) as u8, (code % 256) as u8] + reason;
            let reading = message_received(state, frame_bytes(header, payload) + rest, end);
            let legal = 1000 <= code <= 1003 || 1007 <= code <= 1011 || 3000 <= code <= 4357 || 4361
                <= code <= 4999;
            &&& legal ==> {
                &&& reading.state == (ConnectionState { rx_close_code: Some(code), ..state })
                &&& reading.used == frame_bytes(header, payload).len()
                &&& reading.replies.len() == 0
                &&& reading.outcome == Some(Ok::<Option<MessageContents>, ErrorKind>(None))
            }
            &&& !legal ==> is_refused(reading, 4358, 1002, seq![])
        }),
{
    reveal(frame_received);
    let high = (code / 256) as u8;
    let low = (code % 256) as u8;
    let payload = seq![high, low] + reason;
    lemma_frame_bytes(header, payload, rest);
    assert(payload.take(2) =~= seq![].push(high).push(low));
    law_big_endian_is_positional(seq![], high);
    law_big_endian_is_positional(seq![].push(high), low);
    assert(Seq::<ReplyContents>::empty() =~= seq![ReplyContents::Close(1002)].drop_last());
}

/// What a payload is as a message: a binary message is its bytes, and a text message is the text whose
/// encoding they are.
pub proof fn law_contents_of_messages(payload: Seq<u8>)
    ensures
        message_contents(MessageType::Binary, payload) == MessageContents::Binary(payload),
        vstd::utf8::valid_utf8(payload) ==> (message_contents(
            MessageType::Text,
            payload,
        ) matches MessageContents::Text(text) && vstd::utf8::encode_utf8(text) == payload),
{
    if vstd::utf8::valid_utf8(payload) {
        vstd::utf8::decode_utf8_encode_utf8(payload);
    }
}

/// What is handed out stands for what it holds, and for nothing else.
pub proof fn law_outcomes_are_faithful(
    message: Message<'_>,
    reply: Reply,
    replies: Seq<Reply>,
    kind: ErrorKind,
)
    ensures
        message matches Message::Text(text) ==> message@ == MessageContents::Text(text@),
        message matches Message::Binary(data) ==> message@ == MessageContents::Binary(data@),
        reply matches Reply::Pong(payload) ==> reply@ == ReplyContents::Pong(payload@),
        reply matches Reply::Close(code) ==> reply@ == ReplyContents::Close(code),
        reply_contents(replies).len() == replies.len(),
        forall|i: int|
            0 <= i < replies.len() ==> #[trigger] reply_contents(replies)[i] == replies[i]@,
        outcome_contents(None) is None,
        outcome_contents(Some(Err(kind))) == Some(
            Err::<Option<MessageContents>, ErrorKind>(kind),
        ),
        outcome_contents(Some(Ok(None))) == Some(Ok::<Option<MessageContents>, ErrorKind>(None)),
        outcome_contents(Some(Ok(Some(message)))) == Some(
            Ok::<Option<MessageContents>, ErrorKind>(Some(message@)),
        ),
{
}

/// A header of which any part is still missing is awaited, whatever the state of the message; and if
/// the transport ends there, the connection is closed abnormally.
pub proof fn law_incomplete_header(state: ConnectionState, src: Seq<u8>, kind: ErrorKind)
    requires
        state.rx_close_code is None,
        header_read(src) == Err::<(HeaderFields, nat), ErrorKind>(ErrorKind::UnexpectedEof),
        kind != ErrorKind::InvalidData,
    ensures
        ({
            let open = message_received(state, src, None);
            let ended = message_received(state, src, Some(kind));
            &&& open == (Reading { state, used: 0, replies: seq![], outcome: None })
            &&& ended.state == (ConnectionState { rx_close_code: Some(1006), ..state })
            &&& ended.used == 0
            &&& ended.replies.len() == 0
            &&& kind == ErrorKind::UnexpectedEof ==> ended.outcome == Some(
                Ok::<Option<MessageContents>, ErrorKind>(None),
            )
            &&& kind != ErrorKind::UnexpectedEof ==> ended.outcome == Some(
                Err::<Option<MessageContents>, ErrorKind>(kind),
            )
        }),
{
    reveal(frame_received);
}

} // verus!
