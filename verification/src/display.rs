//! Requests to the X11 display.

use crate::bytes::big_endian_bytes;
use x11rb::protocol::xtest::FakeInputRequest;
use vstd::prelude::*;

verus! {

/// The order in which a machine keeps the bytes of a number.
pub enum ByteOrder {
    /// The least significant byte comes first.
    Little,
    /// The most significant byte comes first.
    Big,
}

/// The bytes of a number in a byte order.
pub open spec fn number_bytes(number: nat, width: nat, order: ByteOrder) -> Seq<u8> {
    match order {
        ByteOrder::Little => big_endian_bytes(number, width).reverse(),
        ByteOrder::Big => big_endian_bytes(number, width),
    }
}

/// The number of 16 bits that stands for a coordinate in two's complement.
pub open spec fn coordinate(value: i16) -> nat {
    if value < 0 {
        (value + 65536) as nat
    } else {
        value as nat
    }
}

/// The contents of a request to act as if an input device had been used.
pub struct FakeInput {
    /// The major opcode of the XTEST extension.
    pub major_opcode: u8,
    /// The type of the event.
    pub event: u8,
    /// The button or key.
    pub detail: u8,
    /// The delay, in milliseconds.
    pub time: u32,
    /// The root window.
    pub root: u32,
    /// The position on the root window.
    pub root_x: i16,
    /// The position on the root window.
    pub root_y: i16,
    /// The input device.
    pub device: u8,
}

/// The encoded form of a request, which is nine words of four bytes long.
pub open spec fn fake_input_bytes(request: FakeInput, order: ByteOrder) -> Seq<u8> {
    seq![request.major_opcode, 2] + number_bytes(9, 2, order) + seq![
        request.event,
        request.detail,
        0,
        0,
    ] + number_bytes(request.time as nat, 4, order) + number_bytes(request.root as nat, 4, order)
        + seq![0u8, 0, 0, 0, 0, 0, 0, 0] + number_bytes(coordinate(request.root_x), 2, order)
        + number_bytes(coordinate(request.root_y), 2, order) + seq![
        0u8,
        0,
        0,
        0,
        0,
        0,
        0,
        request.device,
    ]
}

/// Whether `bytes` are the encoded form of a request, in either byte order.
pub open spec fn is_encoded(bytes: Seq<u8>, request: FakeInput) -> bool {
    ||| bytes == fake_input_bytes(request, ByteOrder::Little)
    ||| bytes == fake_input_bytes(request, ByteOrder::Big)
}

/// Encodes a request: `FakeInputRequest::serialize` gives the bytes of the request, with its numbers
/// in the byte order of the machine, whichever that is, and no file descriptors to go with them.
#[verifier::external_body]
fn serialize_fake_input(request: FakeInput) -> (bytes: Vec<u8>)
    ensures
        is_encoded(bytes@, request),
{
    let ([bytes], _) = FakeInputRequest {
        type_: request.event,
        detail: request.detail,
        time: request.time,
        root: request.root,
        root_x: request.root_x,
        root_y: request.root_y,
        deviceid: request.device,
    }
    .serialize(request.major_opcode);
    bytes.into_owned()
}

/// The event of a button being pressed.
pub const BUTTON_PRESS_EVENT: u8 = 4;

/// The event of a button being released.
pub const BUTTON_RELEASE_EVENT: u8 = 5;

/// The X11 server does not support the XTEST extension.
#[derive(Clone, Copy, Debug, Eq, Hash, PartialEq, Structural)]
pub struct MissingExtension;

impl MissingExtension {
    /// The text that describes the error.
    pub fn message(&self) -> (text: String)
        ensures
            text@ == "X11 server does not support XTEST extension"@,
    {
        "X11 server does not support XTEST extension".to_owned()
    }
}

/// A pointer warp.
#[derive(Clone, Copy, Debug, Eq, Hash, PartialEq, Structural)]
pub struct WarpPointer {
    /// The window that the pointer must be in, or zero for any.
    pub src_window: u32,
    /// The window that the destination is relative to, or zero for the pointer itself.
    pub dst_window: u32,
    /// The part of the source window that the pointer must be in.
    pub src_x: i16,
    /// The part of the source window that the pointer must be in.
    pub src_y: i16,
    /// The part of the source window that the pointer must be in.
    pub src_width: u16,
    /// The part of the source window that the pointer must be in.
    pub src_height: u16,
    /// The horizontal destination.
    pub dst_x: i16,
    /// The vertical destination.
    pub dst_y: i16,
}

/// A connection to the X11 display, as far as the requests depend on it.
#[derive(Clone, Copy, Debug, Eq, Hash, PartialEq, Structural)]
pub struct Connection {
    /// The major opcode of the XTEST extension.
    pub xtest_opcode: u8,
}

impl Connection {
    /// Sets a connection up, given what the display says about the XTEST extension: whether it is
    /// present, and its major opcode.
    pub fn new(present: bool, major_opcode: u8) -> (result: Result<Self, MissingExtension>)
        ensures
            result == if present {
                Ok::<Connection, MissingExtension>(Connection { xtest_opcode: major_opcode })
            } else {
                Err(MissingExtension)
            },
    {
        if !present {
            return Err(MissingExtension);
        }
        Ok(Connection { xtest_opcode: major_opcode })
    }

    /// The contents of an XTEST event for the first button.
    pub open spec fn button_event(self, event: u8, time: u32) -> FakeInput {
        FakeInput {
            major_opcode: self.xtest_opcode,
            event,
            detail: 1,
            time,
            root: 0,
            root_x: 0,
            root_y: 0,
            device: 0,
        }
    }

    /// Encodes an XTEST button event.
    fn xtest_event(&self, event: u8, time: u32) -> (bytes: Vec<u8>)
        ensures
            is_encoded(bytes@, self.button_event(event, time)),
    {
        serialize_fake_input(
            FakeInput {
                major_opcode: self.xtest_opcode,
                event,
                detail: 1,
                time,
                root: 0,
                root_x: 0,
                root_y: 0,
                device: 0,
            },
        )
    }

    /// Begins a button click: returns the request to send first, and the click that waits for what
    /// becomes of it.
    pub fn click(&self) -> (begun: (Click, Vec<u8>))
        ensures
            begun.0 == (Click { connection: *self, stage: ClickStage::Pressing }),
            is_encoded(begun.1@, self.press()),
    {
        (
            Click { connection: *self, stage: ClickStage::Pressing },
            self.xtest_event(BUTTON_PRESS_EVENT, 0),
        )
    }

    /// The contents of the request that presses the button.
    pub open spec fn press(self) -> FakeInput {
        self.button_event(BUTTON_PRESS_EVENT, 0)
    }

    /// The contents of the request that releases the button, a moment later.
    pub open spec fn release(self) -> FakeInput {
        self.button_event(BUTTON_RELEASE_EVENT, 20)
    }

    /// Makes a pointer warp by a distance.
    pub fn warp(&self, x: i16, y: i16) -> (request: WarpPointer)
        ensures
            request == (WarpPointer {
                src_window: 0,
                dst_window: 0,
                src_x: 0,
                src_y: 0,
                src_width: 0,
                src_height: 0,
                dst_x: x,
                dst_y: y,
            }),
    {
        WarpPointer {
            src_window: 0,
            dst_window: 0,
            src_x: 0,
            src_y: 0,
            src_width: 0,
            src_height: 0,
            dst_x: x,
            dst_y: y,
        }
    }
}

/// How far a click has come.
#[derive(Clone, Copy, Debug, Eq, Hash, PartialEq, Structural)]
pub enum ClickStage {
    /// The button is being pressed.
    Pressing,
    /// The button is being released.
    Releasing,
    /// The click is over.
    Finished,
}

/// A button click that is being carried out: the press first, and the release once the display has
/// carried out the press.
#[derive(Clone, Copy, Debug, Eq, Hash, PartialEq, Structural)]
pub struct Click {
    /// The connection to the display.
    pub connection: Connection,
    /// How far the click has come.
    pub stage: ClickStage,
}

/// What is to be done for a click.
#[derive(Debug, Eq, Hash, PartialEq)]
pub enum ClickAction {
    /// Send this request.
    Send(Vec<u8>),
    /// Stop: the click has been carried out.
    Finish,
    /// Stop: the display has failed.
    Fail,
}

/// The contents of a [`ClickAction`].
pub enum ClickContents {
    /// Send a request with these contents.
    Send(FakeInput),
    /// Stop: the click has been carried out.
    Finish,
    /// Stop: the display has failed.
    Fail,
}

/// Whether `action` is what `contents` say.
pub open spec fn carries_out(action: ClickAction, contents: ClickContents) -> bool {
    match contents {
        ClickContents::Send(request) => action matches ClickAction::Send(bytes) && is_encoded(
            bytes@,
            request,
        ),
        ClickContents::Finish => action is Finish,
        ClickContents::Fail => action is Fail,
    }
}

/// How a click goes on after the display has carried out the last request, or has failed to.
pub open spec fn click_step(click: Click, sent: bool) -> (Click, ClickContents) {
    let over = Click { stage: ClickStage::Finished, ..click };
    if !sent {
        (over, ClickContents::Fail)
    } else if click.stage == ClickStage::Pressing {
        (
            Click { stage: ClickStage::Releasing, ..click },
            ClickContents::Send(click.connection.release()),
        )
    } else {
        (over, ClickContents::Finish)
    }
}

impl Click {
    /// Takes note of whether the display has carried out the last request, and returns what is to
    /// be done.
    pub fn step(&mut self, sent: bool) -> (action: ClickAction)
        requires
            old(self).stage != ClickStage::Finished,
        ensures
            *final(self) == click_step(*old(self), sent).0,
            carries_out(action, click_step(*old(self), sent).1),
    {
        if !sent {
            self.stage = ClickStage::Finished;
            return ClickAction::Fail;
        }
        if self.stage == ClickStage::Pressing {
            self.stage = ClickStage::Releasing;
            ClickAction::Send(self.connection.xtest_event(BUTTON_RELEASE_EVENT, 20))
        } else {
            self.stage = ClickStage::Finished;
            ClickAction::Finish
        }
    }
}

/// The requests that are sent for a click, in order, where `pressed` says whether the display
/// carries out the first of them.
pub open spec fn click_requests(click: Click, pressed: bool) -> Seq<FakeInput> {
    let first = seq![click.connection.press()];
    match click_step(click, pressed).1 {
        ClickContents::Send(request) => first.push(request),
        _ => first,
    }
}

/// The button is released exactly if it was pressed: after a press that has failed nothing more is
/// sent, and else the release is, after which the click is over. The click succeeds exactly if both
/// requests do.
pub proof fn law_release_follows_press(connection: Connection, pressed: bool, released: bool)
    ensures
        ({
            let click = Click { connection, stage: ClickStage::Pressing };
            let (second, action) = click_step(click, pressed);
            let (third, last) = click_step(second, released);
            &&& click_requests(click, pressed) == if pressed {
                seq![connection.press(), connection.release()]
            } else {
                seq![connection.press()]
            }
            &&& !pressed ==> second.stage == ClickStage::Finished && action is Fail
            &&& pressed ==> third.stage == ClickStage::Finished && last == if released {
                ClickContents::Finish
            } else {
                ClickContents::Fail
            }
        }),
{
    let click = Click { connection, stage: ClickStage::Pressing };
    assert(click_requests(click, true) =~= seq![connection.press(), connection.release()]);
}

/// Every encoded request has the length that it states.
pub proof fn law_request_length(request: FakeInput, order: ByteOrder)
    ensures
        fake_input_bytes(request, order).len() == 9 * 4,
{
    reveal_with_fuel(big_endian_bytes, 5);
}

/// A click uses the first button, wherever the pointer is: it is pressed at once and released 20
/// milliseconds later, by requests to the extension whose opcode the display has given.
pub proof fn law_click_uses_first_button(connection: Connection)
    ensures
        connection.press() == (FakeInput {
            major_opcode: connection.xtest_opcode,
            event: 4,
            detail: 1,
            time: 0,
            root: 0,
            root_x: 0,
            root_y: 0,
            device: 0,
        }),
        connection.release() == (FakeInput {
            major_opcode: connection.xtest_opcode,
            event: 5,
            detail: 1,
            time: 20,
            root: 0,
            root_x: 0,
            root_y: 0,
            device: 0,
        }),
{
}

/// A click goes on while the display carries out its requests: what follows the press is the release,
/// over the same connection, what follows the release is the end, and a failure ends the click at once.
pub proof fn law_click_goes_on(click: Click, sent: bool)
    requires
        click.stage !is Finished,
    ensures
        ({
            let (after, action) = click_step(click, sent);
            &&& after.connection == click.connection
            &&& !sent ==> action is Fail && after.stage is Finished
            &&& sent && click.stage is Pressing ==> action == ClickContents::Send(
                click.connection.release(),
            ) && after.stage is Releasing
            &&& sent && click.stage is Releasing ==> action is Finish && after.stage is Finished
        }),
{
}

/// An action that sends a request holds the bytes of that request, and no other action stands for it.
pub proof fn law_actions_carry_requests(action: ClickAction, request: FakeInput)
    ensures
        carries_out(action, ClickContents::Send(request)) <==> (action matches ClickAction::Send(
            bytes,
        ) && (bytes@ == fake_input_bytes(request, ByteOrder::Little) || bytes@ == fake_input_bytes(
            request,
            ByteOrder::Big,
        ))),
        carries_out(action, ClickContents::Finish) <==> action is Finish,
        carries_out(action, ClickContents::Fail) <==> action is Fail,
{
}

} // verus!
