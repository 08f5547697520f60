use terminal_curses::mouse::{
    decode_mouse, BUTTON1_PRESSED, BUTTON1_RELEASED, BUTTON3_CLICKED, BUTTON4_PRESSED,
    BUTTON5_PRESSED, REPORT_MOUSE_POSITION,
};
use terminal_curses::types::{MouseButton, MouseEvent};

#[test]
fn press_is_remembered() {
    let d = decode_mouse(BUTTON1_PRESSED, 4, 9, None);
    assert_eq!(d.event, Some(MouseEvent::Down(MouseButton::Left, 4, 9)));
    assert_eq!(d.last_button, Some(MouseButton::Left));
    let r = decode_mouse(BUTTON3_CLICKED, 1, 2, Some(MouseButton::Left));
    assert_eq!(r.event, Some(MouseEvent::Down(MouseButton::Right, 1, 2)));
    assert_eq!(r.last_button, Some(MouseButton::Right));
}

#[test]
fn motion_drags_the_remembered_button() {
    let d = decode_mouse(REPORT_MOUSE_POSITION, 5, 6, Some(MouseButton::Middle));
    assert_eq!(d.event, Some(MouseEvent::Drag(MouseButton::Middle, 5, 6)));
    assert_eq!(d.last_button, Some(MouseButton::Middle));
    let none = decode_mouse(REPORT_MOUSE_POSITION, 5, 6, None);
    assert_eq!(none.event, None);
}

#[test]
fn release_keeps_the_remembered_button() {
    let d = decode_mouse(BUTTON1_RELEASED, 3, 3, Some(MouseButton::Left));
    assert_eq!(d.event, Some(MouseEvent::Up(MouseButton::Left, 3, 3)));
    assert_eq!(d.last_button, Some(MouseButton::Left));
}

#[test]
fn wheel_scrolls() {
    assert_eq!(decode_mouse(BUTTON4_PRESSED, 0, 1, None).event, Some(MouseEvent::ScrollUp(0, 1)));
    assert_eq!(decode_mouse(BUTTON5_PRESSED, 2, 0, None).event, Some(MouseEvent::ScrollDown(2, 0)));
    assert_eq!(decode_mouse(0, 2, 0, None).event, None);
}
