use remote_mouse::event::{InvalidOpcode, MouseEvent};
use remote_mouse::fault::{is_fatal, ErrorKind};

/// A packet as a client sends it.
fn encode(event: MouseEvent) -> [u8; 6] {
    let (opcode, x, y) = match event {
        MouseEvent::Click => (0_u16, 0, 0),
        MouseEvent::Move(x, y) => (1, x, y),
    };
    let [a, b] = opcode.to_be_bytes();
    let [c, d] = x.to_be_bytes();
    let [e, f] = y.to_be_bytes();
    [a, b, c, d, e, f]
}

#[test]
fn encoded_size_is_six_bytes() {
    assert_eq!(MouseEvent::ENCODED_SIZE, 6);
}

#[test]
fn click_packet_decodes() {
    assert_eq!(
        MouseEvent::try_from([0, 0, 0, 0, 0, 0]),
        Ok(MouseEvent::Click)
    );
}

#[test]
fn click_packet_parameters_are_ignored() {
    assert_eq!(
        MouseEvent::try_from([0, 0, 0x12, 0x34, 0xFF, 0xFF]),
        Ok(MouseEvent::Click)
    );
}

#[test]
fn motion_packet_decodes() {
    assert_eq!(
        MouseEvent::try_from([0, 1, 0x01, 0x02, 0xFF, 0xFE]),
        Ok(MouseEvent::Move(258, -2))
    );
}

#[test]
fn motion_packet_decodes_extremes() {
    assert_eq!(
        MouseEvent::try_from([0, 1, 0x80, 0x00, 0x7F, 0xFF]),
        Ok(MouseEvent::Move(i16::MIN, i16::MAX))
    );
}

#[test]
fn unknown_opcode_is_refused() {
    assert_eq!(
        MouseEvent::try_from([0, 2, 0, 0, 0, 0]),
        Err(InvalidOpcode)
    );
    // The high byte counts as well.
    assert_eq!(
        MouseEvent::try_from([1, 0, 0, 0, 0, 0]),
        Err(InvalidOpcode)
    );
    assert_eq!(
        MouseEvent::try_from([1, 1, 0, 0, 0, 0]),
        Err(InvalidOpcode)
    );
}

#[test]
fn invalid_opcode_describes_itself() {
    assert_eq!(InvalidOpcode.message(), "Invalid opcode in packet");
}

#[test]
fn decoding_inverts_encoding() {
    for x in [i16::MIN, -256, -255, -1, 0, 1, 127, 128, 255, 256, i16::MAX] {
        for y in [i16::MIN, -1, 0, 1, i16::MAX] {
            let event = MouseEvent::Move(x, y);
            assert_eq!(MouseEvent::try_from(encode(event)), Ok(event));
        }
    }
    assert_eq!(
        MouseEvent::try_from(encode(MouseEvent::Click)),
        Ok(MouseEvent::Click)
    );
}

#[test]
fn fatal_errors_are_those_of_this_side() {
    for kind in [
        ErrorKind::NotConnected,
        ErrorKind::AddrInUse,
        ErrorKind::AddrNotAvailable,
        ErrorKind::InvalidInput,
        ErrorKind::InvalidData,
        ErrorKind::Unsupported,
        ErrorKind::OutOfMemory,
    ] {
        assert!(is_fatal(kind), "{kind:?}");
    }
}

#[test]
fn errors_of_a_peer_are_not_fatal() {
    for kind in [
        ErrorKind::NotFound,
        ErrorKind::PermissionDenied,
        ErrorKind::ConnectionRefused,
        ErrorKind::ConnectionReset,
        ErrorKind::ConnectionAborted,
        ErrorKind::BrokenPipe,
        ErrorKind::AlreadyExists,
        ErrorKind::WouldBlock,
        ErrorKind::TimedOut,
        ErrorKind::WriteZero,
        ErrorKind::Interrupted,
        ErrorKind::UnexpectedEof,
        ErrorKind::Other,
    ] {
        assert!(!is_fatal(kind), "{kind:?}");
    }
}
