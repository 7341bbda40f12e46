use remote_mouse::display::{
    ClickAction, ClickStage, Connection, MissingExtension, WarpPointer, BUTTON_PRESS_EVENT,
    BUTTON_RELEASE_EVENT,
};
use x11rb::protocol::xproto;

/// An XTEST request for the first button, with the numbers in the byte order of the machine.
fn button_request(opcode: u8, event: u8, time: u32) -> Vec<u8> {
    let mut bytes = vec![opcode, 2];
    bytes.extend(9_u16.to_ne_bytes());
    bytes.extend([event, 1, 0, 0]);
    bytes.extend(time.to_ne_bytes());
    bytes.extend([0; 24]);
    bytes
}

#[test]
fn event_numbers_are_those_of_the_protocol() {
    assert_eq!(BUTTON_PRESS_EVENT, xproto::BUTTON_PRESS_EVENT);
    assert_eq!(BUTTON_RELEASE_EVENT, xproto::BUTTON_RELEASE_EVENT);
}

#[test]
fn extension_must_be_present() {
    assert_eq!(
        Connection::new(true, 132),
        Ok(Connection { xtest_opcode: 132 })
    );
    assert_eq!(Connection::new(false, 132), Err(MissingExtension));
    assert_eq!(
        MissingExtension.message(),
        "X11 server does not support XTEST extension"
    );
}

#[test]
fn click_is_a_press_and_a_release() {
    let connection = Connection::new(true, 132).unwrap();
    let (mut click, press) = connection.click();
    assert_eq!(click.stage, ClickStage::Pressing);
    assert_eq!(press.len(), 36);
    assert_eq!(press, button_request(132, 4, 0));
    assert_eq!(
        click.step(true),
        ClickAction::Send(button_request(132, 5, 20))
    );
    assert_eq!(click.step(true), ClickAction::Finish);
    assert_eq!(click.stage, ClickStage::Finished);
}

#[test]
fn failed_press_is_not_released() {
    let connection = Connection::new(true, 132).unwrap();
    let (mut click, _) = connection.click();
    assert_eq!(click.step(false), ClickAction::Fail);
    assert_eq!(click.stage, ClickStage::Finished);
}

#[test]
fn failed_release_fails_the_click() {
    let connection = Connection::new(true, 132).unwrap();
    let (mut click, _) = connection.click();
    click.step(true);
    assert_eq!(click.step(false), ClickAction::Fail);
    assert_eq!(click.stage, ClickStage::Finished);
}

#[test]
fn warp_is_relative() {
    let connection = Connection::new(true, 132).unwrap();
    assert_eq!(
        connection.warp(-3, 4),
        WarpPointer {
            src_window: 0,
            dst_window: 0,
            src_x: 0,
            src_y: 0,
            src_width: 0,
            src_height: 0,
            dst_x: -3,
            dst_y: 4,
        }
    );
}
