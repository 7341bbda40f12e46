//! Mouse events and their encoded form.

use vstd::prelude::*;
use vstd::std_specs::convert::TryFromSpec;

verus! {

/// An individual mouse event.
#[derive(Clone, Copy, Debug, Eq, Hash, PartialEq, Structural)]
pub enum MouseEvent {
    /// A click.
    Click,
    /// A motion.
    Move(i16, i16),
}

/// A packet whose opcode is neither that of a click nor that of a motion.
#[derive(Clone, Copy, Debug, Eq, Hash, PartialEq, Structural)]
pub struct InvalidOpcode;

/// The unsigned 16-bit number with the given high and low bytes.
pub open spec fn unsigned_word(high: u8, low: u8) -> int {
    high * 256 + low
}

/// The two's-complement 16-bit number with the given high and low bytes.
pub open spec fn signed_word(high: u8, low: u8) -> int {
    if high < 128 {
        unsigned_word(high, low)
    } else {
        unsigned_word(high, low) - 65536
    }
}

/// What a packet means: a big-endian opcode, then two big-endian signed parameters, of which only a
/// motion makes use.
pub open spec fn decoded(packet: Seq<u8>) -> Result<MouseEvent, InvalidOpcode> {
    let opcode = unsigned_word(packet[0], packet[1]);
    if opcode == 0 {
        Ok(MouseEvent::Click)
    } else if opcode == 1 {
        Ok(
            MouseEvent::Move(
                signed_word(packet[2], packet[3]) as i16,
                signed_word(packet[4], packet[5]) as i16,
            ),
        )
    } else {
        Err(InvalidOpcode)
    }
}

/// The two bytes, high byte first, of a 16-bit number in two's complement.
pub open spec fn word_bytes(word: int) -> Seq<u8> {
    let unsigned = if word < 0 {
        word + 65536
    } else {
        word
    };
    seq![(unsigned / 256) as u8, (unsigned % 256) as u8]
}

/// A packet that stands for an event; a click carries two zero parameters.
pub open spec fn encoded(event: MouseEvent) -> Seq<u8> {
    match event {
        MouseEvent::Click => word_bytes(0) + word_bytes(0) + word_bytes(0),
        MouseEvent::Move(x, y) => word_bytes(1) + word_bytes(x as int) + word_bytes(y as int),
    }
}

/// Every event has an encoded form, of [`MouseEvent::ENCODED_SIZE`] bytes, and decoding it gives
/// the event back.
pub proof fn law_decoding_inverts_encoding(event: MouseEvent)
    ensures
        encoded(event).len() == MouseEvent::ENCODED_SIZE,
        decoded(encoded(event)) == Ok::<MouseEvent, InvalidOpcode>(event),
{
}

/// Two packets decode to the same motion only if they are the same packet.
pub proof fn law_motion_packets_are_unique(p: Seq<u8>, q: Seq<u8>, x: i16, y: i16)
    requires
        p.len() == MouseEvent::ENCODED_SIZE,
        q.len() == MouseEvent::ENCODED_SIZE,
        decoded(p) == Ok::<MouseEvent, InvalidOpcode>(MouseEvent::Move(x, y)),
        decoded(q) == Ok::<MouseEvent, InvalidOpcode>(MouseEvent::Move(x, y)),
    ensures
        p == q,
{
    assert(p =~= q);
}

impl InvalidOpcode {
    /// The text that describes the error.
    pub fn message(&self) -> (text: String)
        ensures
            text@ == "Invalid opcode in packet"@,
    {
        "Invalid opcode in packet".to_owned()
    }
}

impl MouseEvent {
    /// The length, in bytes, of a mouse event's encoded form.
    pub const ENCODED_SIZE: usize = 6;
}

/// Reads a big-endian unsigned 16-bit number.
fn read_u16(high: u8, low: u8) -> (word: u16)
    ensures
        word == unsigned_word(high, low),
{
    high as u16 * 256 + low as u16
}

/// Reads a big-endian signed 16-bit number.
fn read_i16(high: u8, low: u8) -> (word: i16)
    ensures
        word == signed_word(high, low),
{
    let unsigned: i32 = high as i32 * 256 + low as i32;
    if high < 128 {
        unsigned as i16
    } else {
        (unsigned - 65536) as i16
    }
}

impl TryFrom<[u8; 6]> for MouseEvent {
    type Error = InvalidOpcode;

    fn try_from(value: [u8; 6]) -> (result: Result<Self, Self::Error>) {
        let opcode: u16 = read_u16(value[0], value[1]);
        let param1: i16 = read_i16(value[2], value[3]);
        let param2: i16 = read_i16(value[4], value[5]);
        match opcode {
            0 => Ok(MouseEvent::Click),
            1 => Ok(MouseEvent::Move(param1, param2)),
            _ => Err(InvalidOpcode),
        }
    }
}

impl vstd::std_specs::convert::TryFromSpecImpl<[u8; 6]> for MouseEvent {
    open spec fn obeys_try_from_spec() -> bool {
        true
    }

    open spec fn try_from_spec(v: [u8; 6]) -> Result<Self, Self::Error> {
        decoded(v@)
    }
}

/// What the bytes of a packet say: a zero first byte followed by a zero is a click, whatever the
/// parameters are; followed by a one, it is a motion, whose coordinates are the two big-endian
/// numbers that come next, in two's complement; and every other packet is refused.
pub proof fn law_packet_bytes(p: Seq<u8>)
    requires
        p.len() == 6,
    ensures
        decoded(p) == Ok::<MouseEvent, InvalidOpcode>(MouseEvent::Click) <==> p[0] == 0 && p[1]
            == 0,
        (decoded(p) matches Ok(MouseEvent::Move(_, _))) <==> p[0] == 0 && p[1] == 1,
        decoded(p) matches Ok(MouseEvent::Move(x, y)) ==> {
            &&& x == 256 * p[2] + p[3] || x == 256 * p[2] + p[3] - 65536
            &&& y == 256 * p[4] + p[5] || y == 256 * p[4] + p[5] - 65536
        },
        decoded(p) is Err <==> p[0] > 0 || p[1] > 1,
{
}

/// Packets are converted to events by their meaning.
pub proof fn law_conversion_decodes(packet: [u8; 6])
    ensures
        <MouseEvent as TryFromSpec<[u8; 6]>>::obeys_try_from_spec(),
        <MouseEvent as TryFromSpec<[u8; 6]>>::try_from_spec(packet) == decoded(packet@),
{
}

} // verus!
