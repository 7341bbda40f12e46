use remote_mouse::bytes::{append_unmasked, read_big_endian};
use remote_mouse::fault::ErrorKind;
use remote_mouse::websocket::frame::{FrameHeader, Opcode};

const MASK: [u8; 4] = [1, 2, 3, 4];

/// The encoding of a header.
fn encode(header: &FrameHeader) -> Vec<u8> {
    let number = match header.opcode {
        Opcode::Continuation => 0x00,
        Opcode::Text => 0x01,
        Opcode::Binary => 0x02,
        Opcode::Close => 0x08,
        Opcode::Ping => 0x09,
        Opcode::Pong => 0x0A,
    };
    let mut bytes = vec![number | if header.fin { 0x80 } else { 0 }];
    if header.length <= 125 {
        bytes.push(0x80 | header.length as u8);
    } else if header.length <= 65535 {
        bytes.push(0x80 | 126);
        bytes.extend((header.length as u16).to_be_bytes());
    } else {
        bytes.push(0x80 | 127);
        bytes.extend(header.length.to_be_bytes());
    }
    bytes.extend(header.mask);
    bytes
}

#[test]
fn control_opcodes() {
    assert!(!Opcode::Continuation.control());
    assert!(!Opcode::Text.control());
    assert!(!Opcode::Binary.control());
    assert!(Opcode::Close.control());
    assert!(Opcode::Ping.control());
    assert!(Opcode::Pong.control());
}

#[test]
fn opcode_numbers() {
    for raw in 0..=255_u8 {
        let expected = match raw {
            0 => Ok(Opcode::Continuation),
            1 => Ok(Opcode::Text),
            2 => Ok(Opcode::Binary),
            8 => Ok(Opcode::Close),
            9 => Ok(Opcode::Ping),
            10 => Ok(Opcode::Pong),
            _ => Err(ErrorKind::InvalidData),
        };
        assert_eq!(Opcode::try_from(raw), expected);
    }
}

#[test]
fn short_header_is_read() {
    assert_eq!(
        FrameHeader::read(&[0x82, 0x86, 1, 2, 3, 4, 99]),
        Ok((
            FrameHeader {
                fin: true,
                opcode: Opcode::Binary,
                length: 6,
                mask: MASK
            },
            6
        ))
    );
}

#[test]
fn medium_header_is_read() {
    assert_eq!(
        FrameHeader::read(&[0x01, 0xFE, 0x12, 0x34, 1, 2, 3, 4]),
        Ok((
            FrameHeader {
                fin: false,
                opcode: Opcode::Text,
                length: 0x1234,
                mask: MASK
            },
            8
        ))
    );
}

#[test]
fn long_header_is_read() {
    assert_eq!(
        FrameHeader::read(&[0x80, 0xFF, 0, 0, 0, 0, 0, 1, 0, 0, 1, 2, 3, 4]),
        Ok((
            FrameHeader {
                fin: true,
                opcode: Opcode::Continuation,
                length: 65536,
                mask: MASK
            },
            14
        ))
    );
}

#[test]
fn headers_round_trip() {
    for fin in [false, true] {
        for opcode in [
            Opcode::Continuation,
            Opcode::Text,
            Opcode::Binary,
            Opcode::Close,
            Opcode::Ping,
            Opcode::Pong,
        ] {
            for length in [0, 1, 125, 126, 127, 65535, 65536, 0x7FFF_FFFF_FFFF_FFFF] {
                if opcode.control() && (!fin || length > 125) {
                    continue;
                }
                let header = FrameHeader {
                    fin,
                    opcode,
                    length,
                    mask: MASK,
                };
                let mut bytes = encode(&header);
                let size = bytes.len();
                bytes.extend([7, 7, 7]);
                assert_eq!(FrameHeader::read(&bytes), Ok((header, size)));
            }
        }
    }
}

#[test]
fn truncated_header_is_an_unexpected_end() {
    for length in [5, 300, 70000] {
        let bytes = encode(&FrameHeader {
            fin: true,
            opcode: Opcode::Binary,
            length,
            mask: MASK,
        });
        for size in 0..bytes.len() {
            assert_eq!(
                FrameHeader::read(&bytes[..size]),
                Err(ErrorKind::UnexpectedEof)
            );
        }
    }
}

#[test]
fn unknown_opcode_in_a_header_is_refused() {
    assert_eq!(FrameHeader::read(&[0x83]), Err(ErrorKind::InvalidData));
    assert_eq!(FrameHeader::read(&[0x8B]), Err(ErrorKind::InvalidData));
}

#[test]
fn reserved_bits_are_refused() {
    assert_eq!(FrameHeader::read(&[0xC2]), Err(ErrorKind::InvalidData));
    assert_eq!(FrameHeader::read(&[0xA2]), Err(ErrorKind::InvalidData));
    assert_eq!(FrameHeader::read(&[0x92]), Err(ErrorKind::InvalidData));
}

#[test]
fn fragmented_control_frame_is_refused() {
    assert_eq!(FrameHeader::read(&[0x08]), Err(ErrorKind::InvalidData));
    assert_eq!(FrameHeader::read(&[0x09]), Err(ErrorKind::InvalidData));
    assert_eq!(FrameHeader::read(&[0x0A]), Err(ErrorKind::InvalidData));
}

#[test]
fn unmasked_frame_is_refused() {
    assert_eq!(
        FrameHeader::read(&[0x82, 0x06]),
        Err(ErrorKind::InvalidData)
    );
}

#[test]
fn long_control_frame_is_refused() {
    assert_eq!(
        FrameHeader::read(&[0x89, 0xFE]),
        Err(ErrorKind::InvalidData)
    );
    assert_eq!(
        FrameHeader::read(&[0x88, 0xFF]),
        Err(ErrorKind::InvalidData)
    );
}

#[test]
fn overlong_medium_length_is_refused() {
    assert_eq!(
        FrameHeader::read(&[0x82, 0xFE, 0, 125]),
        Err(ErrorKind::InvalidData)
    );
    assert!(FrameHeader::read(&[0x82, 0xFE, 0, 126, 1, 2, 3, 4]).is_ok());
}

#[test]
fn overlong_long_length_is_refused() {
    assert_eq!(
        FrameHeader::read(&[0x82, 0xFF, 0, 0, 0, 0, 0, 0, 0xFF, 0xFF]),
        Err(ErrorKind::InvalidData)
    );
}

#[test]
fn length_with_the_top_bit_is_refused() {
    assert_eq!(
        FrameHeader::read(&[0x82, 0xFF, 0x80, 0, 0, 0, 0, 0, 0, 0]),
        Err(ErrorKind::InvalidData)
    );
}

#[test]
fn big_endian_numbers_are_read() {
    assert_eq!(read_big_endian(&[9, 0x12, 0x34, 9], 1, 2), 0x1234);
    assert_eq!(read_big_endian(&[], 0, 0), 0);
    assert_eq!(read_big_endian(&[0xFF; 8], 0, 8), u64::MAX);
}

#[test]
fn masking_is_an_involution() {
    let payload = [10, 20, 30, 40, 50, 60];
    let mut masked = vec![0xAA];
    append_unmasked(&mut masked, &payload, 0, 6, &MASK);
    assert_eq!(masked, vec![0xAA, 11, 22, 29, 44, 51, 62]);
    let mut unmasked = Vec::new();
    append_unmasked(&mut unmasked, &masked, 1, 6, &MASK);
    assert_eq!(unmasked, payload.to_vec());
}
