use remote_mouse::fault::ErrorKind;
use remote_mouse::websocket::close::{
    CLOSE_ABNORMAL, CLOSE_GOING_AWAY, CLOSE_INTERNAL_SERVER_ERROR,
    CLOSE_INVALID_FRAME_PAYLOAD_DATA, CLOSE_MANDATORY_EXTENSION, CLOSE_MESSAGE_TOO_BIG,
    CLOSE_NORMAL, CLOSE_NO_STATUS_RECEIVED, CLOSE_POLICY_VIOLATION, CLOSE_PROTOCOL_ERROR,
    CLOSE_RX_INVALID_FRAME_PAYLOAD_DATA, CLOSE_RX_MESSAGE_TOO_BIG, CLOSE_RX_PROTOCOL_ERROR,
    CLOSE_UNSUPPORTED_DATA,
};
use remote_mouse::websocket::connection::{Connection, Message, Received, Reply};

const CONTINUATION: u8 = 0x00;
const TEXT: u8 = 0x01;
const BINARY: u8 = 0x02;
const CLOSE: u8 = 0x08;
const PING: u8 = 0x09;
const PONG: u8 = 0x0A;
const FIN: u8 = 0x80;

/// A masked frame with a payload of at most 125 bytes.
fn frame(first_byte: u8, payload: &[u8]) -> Vec<u8> {
    let mask = [0xDE, 0xAD, 0xBE, 0xEF];
    let mut bytes = vec![first_byte, 0x80 | payload.len() as u8];
    bytes.extend(mask);
    bytes.extend(payload.iter().enumerate().map(|(i, b)| b ^ mask[i % 4]));
    bytes
}

fn closing(code: u16) -> Vec<u8> {
    frame(FIN | CLOSE, &code.to_be_bytes())
}

fn nothing<'a>() -> Received<'a> {
    Received {
        used: 0,
        replies: vec![],
        outcome: None,
    }
}

fn closed<'a>(used: usize) -> Received<'a> {
    Received {
        used,
        replies: vec![],
        outcome: Some(Ok(None)),
    }
}

/// Reads `src`, which is refused, and checks the codes that are sent and reported.
fn refused(connection: &mut Connection, src: &[u8], sent: u16, reported: u16) {
    let received = connection.read(src, None);
    assert_eq!(received.replies, vec![Reply::Close(sent)]);
    assert_eq!(received.outcome, Some(Err(ErrorKind::InvalidData)));
    assert_eq!(connection.rx_close_code(), Some(reported));
    assert!(connection.tx_closed());
    // Nothing more is read.
    assert_eq!(connection.read(src, None), closed(0));
}

fn violation(src: &[u8]) {
    refused(
        &mut Connection::new(100),
        src,
        CLOSE_PROTOCOL_ERROR,
        CLOSE_RX_PROTOCOL_ERROR,
    );
}

#[test]
fn close_codes() {
    assert_eq!(CLOSE_NORMAL, 1000);
    assert_eq!(CLOSE_GOING_AWAY, 1001);
    assert_eq!(CLOSE_PROTOCOL_ERROR, 1002);
    assert_eq!(CLOSE_UNSUPPORTED_DATA, 1003);
    assert_eq!(CLOSE_NO_STATUS_RECEIVED, 1005);
    assert_eq!(CLOSE_ABNORMAL, 1006);
    assert_eq!(CLOSE_INVALID_FRAME_PAYLOAD_DATA, 1007);
    assert_eq!(CLOSE_POLICY_VIOLATION, 1008);
    assert_eq!(CLOSE_MESSAGE_TOO_BIG, 1009);
    assert_eq!(CLOSE_MANDATORY_EXTENSION, 1010);
    assert_eq!(CLOSE_INTERNAL_SERVER_ERROR, 1011);
    assert_eq!(CLOSE_RX_PROTOCOL_ERROR, 4358);
    assert_eq!(CLOSE_RX_INVALID_FRAME_PAYLOAD_DATA, 4359);
    assert_eq!(CLOSE_RX_MESSAGE_TOO_BIG, 4360);
}

#[test]
fn new_connection_is_open() {
    let connection = Connection::new(6);
    assert_eq!(connection.rx_close_code(), None);
    assert!(!connection.tx_closed());
}

#[test]
fn binary_message_is_received() {
    let mut connection = Connection::new(6);
    let src = frame(FIN | BINARY, &[1, 2, 3, 4, 5, 6]);
    assert_eq!(
        connection.read(&src, None),
        Received {
            used: 12,
            replies: vec![],
            outcome: Some(Ok(Some(Message::Binary(&[1, 2, 3, 4, 5, 6])))),
        }
    );
    assert_eq!(connection.rx_close_code(), None);
}

#[test]
fn text_message_is_received() {
    let mut connection = Connection::new(100);
    let src = frame(FIN | TEXT, "gr\u{fc}\u{df}e".as_bytes());
    assert_eq!(
        connection.read(&src, None).outcome,
        Some(Ok(Some(Message::Text("gr\u{fc}\u{df}e"))))
    );
}

#[test]
fn empty_message_is_received() {
    let mut connection = Connection::new(0);
    let src = frame(FIN | BINARY, &[]);
    assert_eq!(
        connection.read(&src, None).outcome,
        Some(Ok(Some(Message::Binary(&[]))))
    );
}

#[test]
fn fragments_are_joined() {
    let mut connection = Connection::new(6);
    let mut src = frame(TEXT, b"ab");
    src.extend(frame(CONTINUATION, b""));
    src.extend(frame(CONTINUATION, b"cd"));
    src.extend(frame(FIN | CONTINUATION, b"e"));
    let used = src.len();
    src.extend([1, 2, 3]);
    assert_eq!(
        connection.read(&src, None),
        Received {
            used,
            replies: vec![],
            outcome: Some(Ok(Some(Message::Text("abcde")))),
        }
    );
}

#[test]
fn character_split_between_fragments_is_joined() {
    let mut connection = Connection::new(6);
    let mut src = frame(TEXT, &[0xC3]);
    src.extend(frame(FIN | CONTINUATION, &[0xBC]));
    assert_eq!(
        connection.read(&src, None).outcome,
        Some(Ok(Some(Message::Text("\u{fc}"))))
    );
}

#[test]
fn messages_follow_each_other() {
    let mut connection = Connection::new(6);
    let first = frame(FIN | BINARY, &[1, 2, 3]);
    let mut src = first.clone();
    src.extend(frame(FIN | TEXT, b"x"));
    let used = connection.read(&src, None).used;
    assert_eq!(used, first.len());
    assert_eq!(
        connection.read(&src[used..], None).outcome,
        Some(Ok(Some(Message::Text("x"))))
    );
}

#[test]
fn reading_in_portions_makes_no_difference() {
    let mut src = frame(BINARY, &[1, 2]);
    src.extend(frame(FIN | PING, b"hi"));
    src.extend(frame(FIN | CONTINUATION, &[3, 4]));
    for split in 0..src.len() {
        let mut connection = Connection::new(6);
        let first = connection.read(&src[..split], None);
        assert_eq!(first.outcome, None);
        let (used, mut replies) = (first.used, first.replies);
        let rest = connection.read(&src[used..], None);
        assert_eq!(used + rest.used, src.len());
        assert_eq!(
            rest.outcome,
            Some(Ok(Some(Message::Binary(&[1, 2, 3, 4]))))
        );
        replies.extend(rest.replies);
        assert_eq!(replies, vec![Reply::Pong(b"hi".to_vec())]);
    }
}

#[test]
fn incomplete_frame_is_awaited() {
    let mut connection = Connection::new(6);
    let src = frame(FIN | BINARY, &[1, 2, 3]);
    assert_eq!(connection.read(&src[..8], None), nothing());
    assert_eq!(connection.read(&[], None), nothing());
    assert_eq!(connection.rx_close_code(), None);
}

#[test]
fn ping_is_answered() {
    let mut connection = Connection::new(6);
    let src = frame(FIN | PING, b"0123456789");
    assert_eq!(
        connection.read(&src, None),
        Received {
            used: src.len(),
            replies: vec![Reply::Pong(b"0123456789".to_vec())],
            outcome: None,
        }
    );
}

#[test]
fn pong_is_ignored() {
    let mut connection = Connection::new(6);
    let src = frame(FIN | PONG, b"x");
    assert_eq!(
        connection.read(&src, None),
        Received {
            used: src.len(),
            replies: vec![],
            outcome: None,
        }
    );
}

#[test]
fn close_without_code_is_reported() {
    let mut connection = Connection::new(6);
    let src = frame(FIN | CLOSE, &[]);
    assert_eq!(connection.read(&src, None), closed(6));
    assert_eq!(connection.rx_close_code(), Some(CLOSE_NO_STATUS_RECEIVED));
    assert!(!connection.tx_closed());
}

#[test]
fn close_with_half_a_code_is_refused() {
    violation(&frame(FIN | CLOSE, &[3]));
}

#[test]
fn close_with_code_and_reason_is_reported() {
    let mut connection = Connection::new(6);
    let mut payload = CLOSE_GOING_AWAY.to_be_bytes().to_vec();
    payload.extend(b"navigated away");
    let src = frame(FIN | CLOSE, &payload);
    assert_eq!(connection.read(&src, None), closed(src.len()));
    assert_eq!(connection.rx_close_code(), Some(CLOSE_GOING_AWAY));
    assert!(!connection.tx_closed());
}

#[test]
fn close_codes_of_a_peer() {
    for code in [
        1000, 1001, 1002, 1003, 1007, 1008, 1009, 1010, 1011, 3000, 4000, 4357, 4361, 4999,
    ] {
        let mut connection = Connection::new(6);
        assert_eq!(connection.read(&closing(code), None).outcome, Some(Ok(None)));
        assert_eq!(connection.rx_close_code(), Some(code));
    }
}

#[test]
fn close_codes_that_a_peer_must_not_send() {
    for code in [
        0, 999, 1004, 1005, 1006, 1012, 2999, 4358, 4359, 4360, 5000, 65535,
    ] {
        violation(&closing(code));
    }
}

#[test]
fn closed_connection_stays_closed() {
    let mut connection = Connection::new(6);
    connection.read(&closing(CLOSE_NORMAL), None);
    let src = frame(FIN | BINARY, &[1]);
    assert_eq!(connection.read(&src, None), closed(0));
    assert_eq!(
        connection.read(&src, Some(ErrorKind::ConnectionReset)),
        closed(0)
    );
    assert_eq!(connection.rx_close_code(), Some(CLOSE_NORMAL));
}

#[test]
fn message_of_the_largest_size_is_received() {
    let mut connection = Connection::new(3);
    let src = frame(FIN | BINARY, &[1, 2, 3]);
    assert_eq!(
        connection.read(&src, None).outcome,
        Some(Ok(Some(Message::Binary(&[1, 2, 3]))))
    );
}

#[test]
fn too_big_message_is_refused() {
    refused(
        &mut Connection::new(3),
        &frame(FIN | BINARY, &[1, 2, 3, 4]),
        CLOSE_MESSAGE_TOO_BIG,
        CLOSE_RX_MESSAGE_TOO_BIG,
    );
}

#[test]
fn too_big_message_is_refused_by_its_header() {
    refused(
        &mut Connection::new(3),
        &[0x82, 0xFF, 0x7F, 0xFF, 0xFF, 0xFF, 0xFF, 0xFF, 0xFF, 0xFF, 1, 2, 3, 4],
        CLOSE_MESSAGE_TOO_BIG,
        CLOSE_RX_MESSAGE_TOO_BIG,
    );
}

#[test]
fn too_big_sum_of_fragments_is_refused() {
    let mut src = frame(BINARY, &[1, 2]);
    src.extend(frame(FIN | CONTINUATION, &[3, 4]));
    refused(
        &mut Connection::new(3),
        &src,
        CLOSE_MESSAGE_TOO_BIG,
        CLOSE_RX_MESSAGE_TOO_BIG,
    );
}

#[test]
fn text_that_is_not_utf8_is_refused() {
    refused(
        &mut Connection::new(3),
        &frame(FIN | TEXT, &[0xFF]),
        CLOSE_INVALID_FRAME_PAYLOAD_DATA,
        CLOSE_RX_INVALID_FRAME_PAYLOAD_DATA,
    );
}

#[test]
fn continuation_of_nothing_is_refused() {
    violation(&frame(FIN | CONTINUATION, &[1]));
}

#[test]
fn text_within_a_message_is_refused() {
    let mut src = frame(BINARY, &[1]);
    src.extend(frame(FIN | TEXT, &[2]));
    violation(&src);
}

#[test]
fn binary_within_a_message_is_refused() {
    let mut src = frame(TEXT, &[1]);
    src.extend(frame(BINARY, &[2]));
    violation(&src);
}

#[test]
fn malformed_header_is_refused() {
    violation(&[0xF2]);
}

#[test]
fn end_of_the_transport_is_an_abnormal_closure() {
    let mut connection = Connection::new(6);
    assert_eq!(
        connection.read(&[0x82], Some(ErrorKind::UnexpectedEof)),
        closed(0)
    );
    assert_eq!(connection.rx_close_code(), Some(CLOSE_ABNORMAL));
    assert!(!connection.tx_closed());
}

#[test]
fn failure_of_the_transport_is_reported() {
    let mut connection = Connection::new(6);
    assert_eq!(
        connection.read(&[], Some(ErrorKind::ConnectionReset)),
        Received {
            used: 0,
            replies: vec![],
            outcome: Some(Err(ErrorKind::ConnectionReset)),
        }
    );
    assert_eq!(connection.rx_close_code(), Some(CLOSE_ABNORMAL));
}

#[test]
fn message_before_the_end_of_the_transport_is_received() {
    let mut connection = Connection::new(6);
    let src = frame(FIN | BINARY, &[1]);
    assert_eq!(
        connection
            .read(&src, Some(ErrorKind::UnexpectedEof))
            .outcome,
        Some(Ok(Some(Message::Binary(&[1]))))
    );
    assert_eq!(connection.rx_close_code(), None);
}

#[test]
fn control_frames_between_fragments_are_answered_in_order() {
    let mut connection = Connection::new(6);
    let mut src = frame(FIN | PING, b"0");
    src.extend(frame(TEXT, b"ab"));
    src.extend(frame(FIN | PING, b"1"));
    src.extend(frame(FIN | PONG, b"x"));
    src.extend(frame(FIN | PING, b"2"));
    src.extend(frame(CONTINUATION, b"cd"));
    src.extend(frame(FIN | PING, b"3"));
    src.extend(frame(FIN | CONTINUATION, b"ef"));
    let used = src.len();
    src.extend(frame(FIN | PING, b"4"));
    assert_eq!(
        connection.read(&src, None),
        Received {
            used,
            replies: vec![
                Reply::Pong(b"0".to_vec()),
                Reply::Pong(b"1".to_vec()),
                Reply::Pong(b"2".to_vec()),
                Reply::Pong(b"3".to_vec()),
            ],
            outcome: Some(Ok(Some(Message::Text("abcdef")))),
        }
    );
}

#[test]
fn pings_before_the_excess_are_answered() {
    let mut connection = Connection::new(3);
    let mut src = frame(TEXT, b"ab");
    src.extend(frame(FIN | PING, b"1"));
    src.extend(frame(CONTINUATION, b"cd"));
    src.extend(frame(FIN | PING, b"2"));
    src.extend(frame(FIN | CONTINUATION, b"ef"));
    let received = connection.read(&src, None);
    assert_eq!(
        received.replies,
        vec![
            Reply::Pong(b"1".to_vec()),
            Reply::Close(CLOSE_MESSAGE_TOO_BIG)
        ]
    );
    assert_eq!(received.outcome, Some(Err(ErrorKind::InvalidData)));
    assert_eq!(connection.rx_close_code(), Some(CLOSE_RX_MESSAGE_TOO_BIG));
    assert!(connection.tx_closed());
}

#[test]
fn malformed_text_in_fragments_is_refused_at_its_end() {
    let mut connection = Connection::new(6);
    let mut src = frame(TEXT, &[0xC3]);
    src.extend(frame(FIN | PING, b"1"));
    src.extend(frame(FIN | CONTINUATION, &[0xC3]));
    let received = connection.read(&src, None);
    assert_eq!(
        received.replies,
        vec![
            Reply::Pong(b"1".to_vec()),
            Reply::Close(CLOSE_INVALID_FRAME_PAYLOAD_DATA)
        ]
    );
    assert_eq!(received.outcome, Some(Err(ErrorKind::InvalidData)));
    assert_eq!(
        connection.rx_close_code(),
        Some(CLOSE_RX_INVALID_FRAME_PAYLOAD_DATA)
    );
}
