//! Frame headers.

use crate::bytes::{
    big_endian, big_endian_bytes, law_big_endian_is_positional, law_bytes_round_trip,
    law_number_round_trip, lemma_big_endian_bound, lemma_widths, read_big_endian,
};
use crate::fault::ErrorKind;
use vstd::prelude::*;
use vstd::std_specs::convert::TryFromSpec;

verus! {

/// An opcode that defines the type of a WebSocket frame.
#[derive(Clone, Copy, Debug, Eq, Hash, PartialEq, Structural)]
pub enum Opcode {
    /// The frame contains application data that is appended to an existing, unfinished message.
    Continuation,
    /// The frame contains the start of a new text message.
    Text,
    /// The frame contains the start of a new binary message.
    Binary,
    /// The connection is being closed.
    Close,
    /// The recipient should reply with a [`Pong`](Opcode::Pong).
    Ping,
    /// The reply to a [`Ping`](Opcode::Ping).
    Pong,
}

/// Whether an opcode is a control opcode.
pub open spec fn is_control(opcode: Opcode) -> bool {
    opcode == Opcode::Close || opcode == Opcode::Ping || opcode == Opcode::Pong
}

/// The number that stands for an opcode in a frame header.
pub open spec fn opcode_number(opcode: Opcode) -> u8 {
    match opcode {
        Opcode::Continuation => 0x00,
        Opcode::Text => 0x01,
        Opcode::Binary => 0x02,
        Opcode::Close => 0x08,
        Opcode::Ping => 0x09,
        Opcode::Pong => 0x0A,
    }
}

/// The opcode that a number stands for.
pub open spec fn opcode_of(number: u8) -> Result<Opcode, ErrorKind> {
    if number == 0x00 {
        Ok(Opcode::Continuation)
    } else if number == 0x01 {
        Ok(Opcode::Text)
    } else if number == 0x02 {
        Ok(Opcode::Binary)
    } else if number == 0x08 {
        Ok(Opcode::Close)
    } else if number == 0x09 {
        Ok(Opcode::Ping)
    } else if number == 0x0A {
        Ok(Opcode::Pong)
    } else {
        Err(ErrorKind::InvalidData)
    }
}

/// Each opcode has one number, and no other number stands for an opcode.
pub proof fn law_opcode_numbers(opcode: Opcode, number: u8)
    ensures
        opcode_of(number) == Ok::<Opcode, ErrorKind>(opcode) <==> number == opcode_number(opcode),
{
}

impl Opcode {
    /// Indicates whether this opcode is a control opcode.
    pub fn control(self) -> (control: bool)
        ensures
            control == is_control(self),
    {
        match self {
            Opcode::Continuation | Opcode::Text | Opcode::Binary => false,
            Opcode::Close | Opcode::Ping | Opcode::Pong => true,
        }
    }
}

impl TryFrom<u8> for Opcode {
    type Error = ErrorKind;

    fn try_from(raw: u8) -> (result: Result<Self, Self::Error>) {
        match raw {
            0x00 => Ok(Opcode::Continuation),
            0x01 => Ok(Opcode::Text),
            0x02 => Ok(Opcode::Binary),
            0x08 => Ok(Opcode::Close),
            0x09 => Ok(Opcode::Ping),
            0x0A => Ok(Opcode::Pong),
            _ => Err(ErrorKind::InvalidData),
        }
    }
}

impl vstd::std_specs::convert::TryFromSpecImpl<u8> for Opcode {
    open spec fn obeys_try_from_spec() -> bool {
        true
    }

    open spec fn try_from_spec(v: u8) -> Result<Self, Self::Error> {
        opcode_of(v)
    }
}

/// The header of a single frame.
#[derive(Clone, Copy, Debug, Eq, Hash, PartialEq)]
pub struct FrameHeader {
    /// Whether this frame is the last one in a message.
    ///
    /// This will always be `true` for control frames.
    pub fin: bool,
    /// The opcode.
    pub opcode: Opcode,
    /// The length, in bytes, of the frame payload.
    pub length: u64,
    /// The mask to XOR with the frame payload.
    pub mask: [u8; 4],
}

/// The contents of a [`FrameHeader`].
#[verifier::ext_equal]
pub struct HeaderFields {
    /// Whether the frame is the last one in a message.
    pub fin: bool,
    /// The opcode.
    pub opcode: Opcode,
    /// The length, in bytes, of the frame payload.
    pub length: nat,
    /// The four bytes of the mask.
    pub mask: Seq<u8>,
}

impl View for FrameHeader {
    type V = HeaderFields;

    open spec fn view(&self) -> HeaderFields {
        HeaderFields {
            fin: self.fin,
            opcode: self.opcode,
            length: self.length as nat,
            mask: self.mask@,
        }
    }
}

impl HeaderFields {
    /// What the protocol demands of a header: a control frame is never fragmented and at most 125
    /// bytes long, and a length fits in 63 bits.
    pub open spec fn compliant(self) -> bool {
        &&& is_control(self.opcode) ==> self.fin && self.length <= 125
        &&& self.length < 0x8000_0000_0000_0000
        &&& self.mask.len() == 4
    }

    /// The one encoding of a header that the protocol allows for a frame from client to server.
    pub open spec fn encoding(self) -> Seq<u8> {
        seq![self.first_byte()] + self.encoded_length() + self.mask
    }

    /// The first byte: the FIN bit, three zero bits, and the opcode.
    pub open spec fn first_byte(self) -> u8 {
        (opcode_number(self.opcode) + if self.fin {
            128int
        } else {
            0int
        }) as u8
    }

    /// The MASK bit and the length, in the shortest of the three forms that holds it.
    pub open spec fn encoded_length(self) -> Seq<u8> {
        if self.length <= 125 {
            seq![(128 + self.length) as u8]
        } else if self.length <= 65535 {
            seq![254u8] + big_endian_bytes(self.length, 2)
        } else {
            seq![255u8] + big_endian_bytes(self.length, 8)
        }
    }
}

/// What the first byte of a header says, if it complies with the protocol: whether the frame is the
/// last of its message, and its opcode.
pub open spec fn first_byte_read(byte: u8) -> Result<(bool, Opcode), ErrorKind> {
    let fin = byte >= 128;
    match opcode_of((byte % 16) as u8) {
        Err(e) => Err(e),
        Ok(opcode) => if (byte / 16) % 8 != 0 || (is_control(opcode) && !fin) {
            Err(ErrorKind::InvalidData)
        } else {
            Ok((fin, opcode))
        },
    }
}

/// The length that the bytes of `src` from the second on give for the payload, and how many of them
/// there are.
pub open spec fn length_read(src: Seq<u8>, opcode: Opcode) -> Result<(nat, nat), ErrorKind> {
    if src.len() < 2 {
        Err(ErrorKind::UnexpectedEof)
    } else {
        let short = (src[1] % 128) as nat;
        if src[1] < 128 || (is_control(opcode) && short >= 126) {
            Err(ErrorKind::InvalidData)
        } else if short <= 125 {
            Ok((short, 1))
        } else {
            let width: nat = if short == 126 {
                2
            } else {
                8
            };
            if src.len() < 2 + width {
                Err(ErrorKind::UnexpectedEof)
            } else {
                let length = big_endian(src.subrange(2, (2 + width) as int));
                if length <= if short == 126 {
                    125int
                } else {
                    65535int
                } || length >= 0x8000_0000_0000_0000 {
                    Err(ErrorKind::InvalidData)
                } else {
                    Ok((length, 1 + width))
                }
            }
        }
    }
}

/// What there is to read at the start of `src`: a frame header and its size, or the reason why there
/// is none.
pub open spec fn header_read(src: Seq<u8>) -> Result<(HeaderFields, nat), ErrorKind> {
    if src.len() < 1 {
        Err(ErrorKind::UnexpectedEof)
    } else {
        match first_byte_read(src[0]) {
            Err(e) => Err(e),
            Ok((fin, opcode)) => match length_read(src, opcode) {
                Err(e) => Err(e),
                Ok((length, width)) => if src.len() < 1 + width + 4 {
                    Err(ErrorKind::UnexpectedEof)
                } else {
                    Ok(
                        (
                            HeaderFields {
                                fin,
                                opcode,
                                length,
                                mask: src.subrange((1 + width) as int, (1 + width + 4) as int),
                            },
                            1 + width + 4,
                        ),
                    )
                },
            },
        }
    }
}

/// The contents of a header that was read, with its size.
pub open spec fn header_view(read: Result<(FrameHeader, usize), ErrorKind>) -> Result<
    (HeaderFields, nat),
    ErrorKind,
> {
    match read {
        Ok((header, size)) => Ok((header@, size as nat)),
        Err(e) => Err(e),
    }
}

impl FrameHeader {
    /// Reads one frame header.
    ///
    /// On success, the second part of the result is the position of the frame payload in `src`.
    ///
    /// # Errors
    /// * [`UnexpectedEof`](ErrorKind::UnexpectedEof) if `src` ends before the header does.
    /// * [`InvalidData`](ErrorKind::InvalidData) if the peer sends non-compliant data.
    pub fn read(src: &[u8]) -> (result: Result<(Self, usize), ErrorKind>)
        ensures
            header_view(result) == header_read(src@),
    {
        // The first byte contains the FIN bit, three reserved bits, and four opcode bits.
        if src.len() < 1 {
            return Err(ErrorKind::UnexpectedEof);
        }
        let first_byte: u8 = src[0];
        let fin: bool = (first_byte & 0x80) != 0;
        proof {
            assert((first_byte & 0x80) != 0 <==> first_byte >= 128) by (bit_vector);
            assert(first_byte & 0x0F == first_byte % 16) by (bit_vector);
            assert((first_byte & 0x70) != 0 <==> (first_byte / 16) % 8 != 0) by (bit_vector);
        }
        let opcode: Opcode = match Opcode::try_from(first_byte & 0x0F) {
            Ok(opcode) => opcode,
            Err(e) => {
                return Err(e);
            },
        };

        // The reserved bits must not be set.
        if (first_byte & 0x70) != 0 {
            return Err(ErrorKind::InvalidData);
        }

        // A control message must never be fragmented, and therefore a frame with a control opcode
        // must always have the FIN bit set.
        if opcode.control() && !fin {
            return Err(ErrorKind::InvalidData);
        }

        // The second byte contains the MASK bit and the payload length (or indication of longer
        // length).
        if src.len() < 2 {
            return Err(ErrorKind::UnexpectedEof);
        }
        let second_byte: u8 = src[1];
        let masked: bool = (second_byte & 0x80) != 0;
        let short: u8 = second_byte & 0x7F;
        proof {
            assert((second_byte & 0x80) != 0 <==> second_byte >= 128) by (bit_vector);
            assert(second_byte & 0x7F == second_byte % 128) by (bit_vector);
        }

        // All frames from client to server must be masked.
        if !masked {
            return Err(ErrorKind::InvalidData);
        }

        // A control message must always be at most 125 bytes long.
        if opcode.control() && short >= 126 {
            return Err(ErrorKind::InvalidData);
        }

        // Get the actual length, if it is encoded using more bytes.
        let mut length: u64 = short as u64;
        let mut position: usize = 2;
        if short == 126 {
            if src.len() < 4 {
                return Err(ErrorKind::UnexpectedEof);
            }
            length = read_big_endian(src, 2, 2);
            position = 4;
            if length <= 125 {
                // A 16-bit form was used to encode a value that would have fit into a 7-bit form.
                // Overlong encodings are illegal.
                return Err(ErrorKind::InvalidData);
            }
        } else if short == 127 {
            if src.len() < 10 {
                return Err(ErrorKind::UnexpectedEof);
            }
            length = read_big_endian(src, 2, 8);
            position = 10;
            if length <= 65535 {
                // A 64-bit form was used to encode a value that would have fit into a 16-bit form.
                // Overlong encodings are illegal.
                return Err(ErrorKind::InvalidData);
            }
        }

        // A 64-bit length must not have its most significant bit set.
        if length >= 0x8000_0000_0000_0000 {
            return Err(ErrorKind::InvalidData);
        }

        // The mask value is the next four bytes.
        if src.len() < position + 4 {
            return Err(ErrorKind::UnexpectedEof);
        }
        let mask: [u8; 4] = [
            src[position],
            src[position + 1],
            src[position + 2],
            src[position + 3],
        ];
        proof {
            assert(mask@ =~= src@.subrange(position as int, position + 4));
        }
        Ok((FrameHeader { fin, opcode, length, mask }, position + 4))
    }
}

/// A verdict on a header never changes when more bytes arrive: a header can be read from a stream as
/// soon as its last byte is there, and a violation is noticed as soon as its byte is there.
pub proof fn law_header_needs_no_lookahead(src: Seq<u8>, more: Seq<u8>)
    requires
        header_read(src) != Err::<(HeaderFields, nat), ErrorKind>(ErrorKind::UnexpectedEof),
    ensures
        header_read(src + more) == header_read(src),
{
    let whole = src + more;
    if first_byte_read(src[0]) is Ok {
        if src.len() >= 4 {
            assert(whole.subrange(2, 4) =~= src.subrange(2, 4));
        }
        if src.len() >= 10 {
            assert(whole.subrange(2, 10) =~= src.subrange(2, 10));
        }
        if let Ok((length, width)) = length_read(src, first_byte_read(src[0])->Ok_0.1) {
            if src.len() >= 1 + width + 4 {
                let start = (1 + width) as int;
                assert(whole.subrange(start, start + 4) =~= src.subrange(start, start + 4));
            }
        }
    }
}

/// What the shortest encoding of a length reads as.
proof fn lemma_length_round_trip(header: HeaderFields, src: Seq<u8>)
    requires
        header.compliant(),
        src.len() >= 1 + header.encoded_length().len(),
        src.subrange(1, (1 + header.encoded_length().len()) as int) == header.encoded_length(),
    ensures
        length_read(src, header.opcode) == Ok::<(nat, nat), ErrorKind>(
            (header.length, header.encoded_length().len()),
        ),
{
    let form = header.encoded_length();
    let part = src.subrange(1, (1 + form.len()) as int);
    lemma_widths();
    assert(part[0] == src[1]);
    if header.length > 125 {
        let width: nat = if header.length <= 65535 {
            2
        } else {
            8
        };
        let number = big_endian_bytes(header.length, width);
        law_number_round_trip(header.length, width);
        assert(form.subrange(1, (1 + width) as int) =~= number);
        assert(src.subrange(2, (2 + width) as int) =~= part.subrange(1, (1 + width) as int));
    }
}

/// A compliant header is read back from its encoding, whatever follows it.
pub proof fn law_header_round_trip(header: HeaderFields, rest: Seq<u8>)
    requires
        header.compliant(),
    ensures
        header_read(header.encoding() + rest) == Ok::<(HeaderFields, nat), ErrorKind>(
            (header, header.encoding().len()),
        ),
{
    let src = header.encoding() + rest;
    let form = header.encoded_length();
    let start = (1 + form.len()) as int;
    assert(src.subrange(1, start) =~= form);
    lemma_length_round_trip(header, src);
    assert(src.subrange(start, start + 4) =~= header.mask);
    law_opcode_numbers(header.opcode, opcode_number(header.opcode));
    assert(src[0] == header.first_byte());
    assert(first_byte_read(src[0]) == Ok::<(bool, Opcode), ErrorKind>((header.fin, header.opcode)));
}

/// Whatever is accepted as a header is compliant, and is the one encoding of what it says: overlong
/// lengths, reserved bits and unmasked frames are all refused.
pub proof fn law_header_is_canonical(src: Seq<u8>)
    requires
        header_read(src) is Ok,
    ensures
        ({
            let (header, size) = header_read(src)->Ok_0;
            &&& header.compliant()
            &&& size <= src.len()
            &&& src.take(size as int) == header.encoding()
        }),
{
    let (header, size) = header_read(src)->Ok_0;
    let form = header.encoded_length();
    lemma_widths();
    let short = src[1] % 128;
    if short == 126 {
        let number = src.subrange(2, 4);
        lemma_big_endian_bound(number);
        law_bytes_round_trip(number);
        assert(form =~= src.subrange(1, 4));
    } else if short == 127 {
        let number = src.subrange(2, 10);
        law_bytes_round_trip(number);
        assert(form =~= src.subrange(1, 10));
    } else {
        assert(form =~= src.subrange(1, 2));
    }
    assert(src[0] == header.first_byte());
    assert(src.take(size as int) =~= header.encoding());
}

/// A header is never longer than fourteen bytes.
pub proof fn law_header_is_short(src: Seq<u8>)
    ensures
        header_read(src) == Err::<(HeaderFields, nat), ErrorKind>(ErrorKind::UnexpectedEof)
            ==> src.len() < 14,
        header_read(src) matches Ok((_, size)) ==> 6 <= size <= 14,
{
}

/// The numbers of the opcodes, and no others, stand for an opcode; the upper half of them are control
/// opcodes.
pub proof fn law_numbers_of_opcodes(number: u8, opcode: Opcode)
    ensures
        opcode_of(number) == Ok::<Opcode, ErrorKind>(Opcode::Continuation) <==> number == 0,
        opcode_of(number) == Ok::<Opcode, ErrorKind>(Opcode::Text) <==> number == 1,
        opcode_of(number) == Ok::<Opcode, ErrorKind>(Opcode::Binary) <==> number == 2,
        opcode_of(number) == Ok::<Opcode, ErrorKind>(Opcode::Close) <==> number == 8,
        opcode_of(number) == Ok::<Opcode, ErrorKind>(Opcode::Ping) <==> number == 9,
        opcode_of(number) == Ok::<Opcode, ErrorKind>(Opcode::Pong) <==> number == 10,
        opcode_of(number) == Err::<Opcode, ErrorKind>(ErrorKind::InvalidData) <==> 3 <= number <= 7
            || number >= 11,
        is_control(opcode) <==> opcode is Close || opcode is Ping || opcode is Pong,
        <Opcode as TryFromSpec<u8>>::obeys_try_from_spec(),
        <Opcode as TryFromSpec<u8>>::try_from_spec(number) == opcode_of(number),
{
}

/// Whether a byte can begin a header: its lower half is the number of an opcode, the three bits above
/// that are clear, and for a control opcode the topmost bit is set.
pub open spec fn can_begin(byte: u8) -> bool {
    ||| byte == 0x00 || byte == 0x01 || byte == 0x02
    ||| byte == 0x80 || byte == 0x81 || byte == 0x82
    ||| byte == 0x88 || byte == 0x89 || byte == 0x8A
}

/// A header that begins in any other way is a violation, whatever follows; and without any byte there
/// is no header yet.
pub proof fn law_first_byte(src: Seq<u8>)
    ensures
        src.len() == 0 ==> header_read(src) == Err::<(HeaderFields, nat), ErrorKind>(
            ErrorKind::UnexpectedEof,
        ),
        src.len() > 0 && !can_begin(src[0]) ==> header_read(src) == Err::<
            (HeaderFields, nat),
            ErrorKind,
        >(ErrorKind::InvalidData),
        src.len() == 1 && can_begin(src[0]) ==> header_read(src) == Err::<
            (HeaderFields, nat),
            ErrorKind,
        >(ErrorKind::UnexpectedEof),
{
}

/// A frame that is not masked, or a control frame with a long length, is a violation, whatever follows.
pub proof fn law_second_byte(src: Seq<u8>)
    requires
        src.len() >= 2,
        can_begin(src[0]),
        src[1] < 0x80 || (src[0] >= 0x88 && src[1] >= 0x80 + 126),
    ensures
        header_read(src) == Err::<(HeaderFields, nat), ErrorKind>(ErrorKind::InvalidData),
{
}

/// What the first byte of a header says about it.
pub open spec fn begins_as(byte: u8, header: HeaderFields) -> bool {
    &&& header.fin <==> byte >= 0x80
    &&& header.opcode is Continuation <==> byte % 16 == 0
    &&& header.opcode is Text <==> byte % 16 == 1
    &&& header.opcode is Binary <==> byte % 16 == 2
    &&& header.opcode is Close <==> byte % 16 == 8
    &&& header.opcode is Ping <==> byte % 16 == 9
    &&& header.opcode is Pong <==> byte % 16 == 10
}

/// A length of up to 125 stands in the second byte, and the mask follows it.
pub proof fn law_short_header(src: Seq<u8>)
    requires
        src.len() >= 2,
        can_begin(src[0]),
        0x80 <= src[1] <= 0x80 + 125,
    ensures
        src.len() < 6 ==> header_read(src) == Err::<(HeaderFields, nat), ErrorKind>(
            ErrorKind::UnexpectedEof,
        ),
        src.len() >= 6 ==> (header_read(src) matches Ok((header, size)) && size == 6 && begins_as(
            src[0],
            header,
        ) && header.length == src[1] - 0x80 && header.mask == seq![
            src[2],
            src[3],
            src[4],
            src[5],
        ]),
{
    if src.len() >= 6 {
        assert(src.subrange(2, 6) =~= seq![src[2], src[3], src[4], src[5]]);
    }
}

/// A length of up to 65535 stands in the two bytes after the second, unless it is so short that it need
/// not, and the mask follows it.
pub proof fn law_medium_header(src: Seq<u8>)
    requires
        src.len() >= 2,
        can_begin(src[0]),
        src[0] < 0x88,
        src[1] == 0x80 + 126,
    ensures
        ({
            let length = 256 * src[2] + src[3];
            let short = Err::<(HeaderFields, nat), ErrorKind>(ErrorKind::UnexpectedEof);
            let invalid = Err::<(HeaderFields, nat), ErrorKind>(ErrorKind::InvalidData);
            &&& src.len() < 4 ==> header_read(src) == short
            &&& src.len() >= 4 && length <= 125 ==> header_read(src) == invalid
            &&& 4 <= src.len() < 8 && length >= 126 ==> header_read(src) == short
            &&& src.len() >= 8 && length >= 126 ==> (header_read(src) matches Ok((header, size))
                && size == 8 && begins_as(src[0], header) && header.length == length && header.mask
                == seq![src[4], src[5], src[6], src[7]])
        }),
{
    if src.len() >= 4 {
        let bytes = src.subrange(2, 4);
        assert(bytes =~= seq![].push(src[2]).push(src[3]));
        law_big_endian_is_positional(seq![], src[2]);
        law_big_endian_is_positional(seq![].push(src[2]), src[3]);
    }
    if src.len() >= 8 {
        assert(src.subrange(4, 8) =~= seq![src[4], src[5], src[6], src[7]]);
    }
}

/// Any other length stands in the eight bytes after the second, unless it is so short that it need not
/// or so long that it must not, and the mask follows it.
pub proof fn law_long_header(src: Seq<u8>)
    requires
        src.len() >= 2,
        can_begin(src[0]),
        src[0] < 0x88,
        src[1] == 0x80 + 127,
    ensures
        ({
            let length = big_endian(
                seq![src[2], src[3], src[4], src[5], src[6], src[7], src[8], src[9]],
            );
            let short = Err::<(HeaderFields, nat), ErrorKind>(ErrorKind::UnexpectedEof);
            let invalid = Err::<(HeaderFields, nat), ErrorKind>(ErrorKind::InvalidData);
            let legal = 65536 <= length <= 9223372036854775807;
            &&& src.len() < 10 ==> header_read(src) == short
            &&& src.len() >= 10 && !legal ==> header_read(src) == invalid
            &&& 10 <= src.len() < 14 && legal ==> header_read(src) == short
            &&& src.len() >= 14 && legal ==> (header_read(src) matches Ok((header, size)) && size
                == 14 && begins_as(src[0], header) && header.length == length && header.mask
                == seq![src[10], src[11], src[12], src[13]])
        }),
{
    if src.len() >= 10 {
        assert(src.subrange(2, 10) =~= seq![
            src[2],
            src[3],
            src[4],
            src[5],
            src[6],
            src[7],
            src[8],
            src[9],
        ]);
    }
    if src.len() >= 14 {
        assert(src.subrange(10, 14) =~= seq![src[10], src[11], src[12], src[13]]);
    }
}

/// A header that is read holds what its contents say, with its size, and an error is handed on.
pub proof fn law_header_contents(header: FrameHeader, size: usize, e: ErrorKind)
    ensures
        header_view(Ok((header, size))) == Ok::<(HeaderFields, nat), ErrorKind>(
            (header@, size as nat),
        ),
        header_view(Err(e)) == Err::<(HeaderFields, nat), ErrorKind>(e),
        header@.fin == header.fin,
        header@.opcode == header.opcode,
        header@.length == header.length,
        header@.mask == header.mask@,
{
}

} // verus!
