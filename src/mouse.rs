//! Decoding of the driver's mouse reports, with the remembered button
//! that gives motion and release reports their button.
use vstd::prelude::*;
use crate::types::{MouseButton, MouseEvent};

verus! {

// The driver's mouse-mask layout: five bits per button, released in the
// lowest, pressed in the next, clicked in the third.
pub const BUTTON1_RELEASED: u64 = 0x1;
pub const BUTTON1_PRESSED: u64 = 0x2;
pub const BUTTON1_CLICKED: u64 = 0x4;
pub const BUTTON2_RELEASED: u64 = 0x20;
pub const BUTTON2_PRESSED: u64 = 0x40;
pub const BUTTON2_CLICKED: u64 = 0x80;
pub const BUTTON3_RELEASED: u64 = 0x400;
pub const BUTTON3_PRESSED: u64 = 0x800;
pub const BUTTON3_CLICKED: u64 = 0x1000;
pub const BUTTON4_PRESSED: u64 = 0x10000;
pub const BUTTON5_PRESSED: u64 = 0x200000;
pub const REPORT_MOUSE_POSITION: u64 = 0x10000000;

/// What a mouse report turns into: the event, if any, and the button
/// remembered afterwards.
#[derive(Clone, Copy, Debug, PartialEq, Eq, Structural)]
pub struct MouseDecode {
    pub event: Option<MouseEvent>,
    pub last_button: Option<MouseButton>,
}

pub open spec fn has(bstate: u64, mask: u64) -> bool {
    bstate & mask != 0
}

/// The button a report presses (or clicks), lowest-numbered first.
pub open spec fn pressed_button(bstate: u64) -> Option<MouseButton> {
    if has(bstate, BUTTON1_PRESSED) || has(bstate, BUTTON1_CLICKED) {
        Some(MouseButton::Left)
    } else if has(bstate, BUTTON2_PRESSED) || has(bstate, BUTTON2_CLICKED) {
        Some(MouseButton::Middle)
    } else if has(bstate, BUTTON3_PRESSED) || has(bstate, BUTTON3_CLICKED) {
        Some(MouseButton::Right)
    } else {
        None
    }
}

/// The button a report releases.
pub open spec fn released_button(bstate: u64) -> Option<MouseButton> {
    if has(bstate, BUTTON1_RELEASED) {
        Some(MouseButton::Left)
    } else if has(bstate, BUTTON2_RELEASED) {
        Some(MouseButton::Middle)
    } else if has(bstate, BUTTON3_RELEASED) {
        Some(MouseButton::Right)
    } else {
        None
    }
}

/// The meaning of a report at column `x`, row `y`, given the last button
/// seen going down. A press is remembered; a release or a scroll keeps
/// what was remembered; motion is a drag of the remembered button, and
/// nothing when no button was seen.
pub open spec fn decode(bstate: u64, x: i32, y: i32, last: Option<MouseButton>) -> MouseDecode {
    let (cx, cy) = (x as u16, y as u16);
    match pressed_button(bstate) {
        Some(b) => MouseDecode { event: Some(MouseEvent::Down(b, cx, cy)), last_button: Some(b) },
        None => match released_button(bstate) {
            Some(b) => MouseDecode { event: Some(MouseEvent::Up(b, cx, cy)), last_button: last },
            None => if has(bstate, BUTTON4_PRESSED) {
                MouseDecode { event: Some(MouseEvent::ScrollUp(cx, cy)), last_button: last }
            } else if has(bstate, BUTTON5_PRESSED) {
                MouseDecode { event: Some(MouseEvent::ScrollDown(cx, cy)), last_button: last }
            } else if has(bstate, REPORT_MOUSE_POSITION) {
                match last {
                    Some(b) => MouseDecode {
                        event: Some(MouseEvent::Drag(b, cx, cy)),
                        last_button: last,
                    },
                    None => MouseDecode { event: None, last_button: last },
                }
            } else {
                MouseDecode { event: None, last_button: last }
            },
        },
    }
}

fn pressed_button_of(bstate: u64) -> (r: Option<MouseButton>)
    ensures
        r == pressed_button(bstate),
{
    if bstate & BUTTON1_PRESSED != 0 || bstate & BUTTON1_CLICKED != 0 {
        Some(MouseButton::Left)
    } else if bstate & BUTTON2_PRESSED != 0 || bstate & BUTTON2_CLICKED != 0 {
        Some(MouseButton::Middle)
    } else if bstate & BUTTON3_PRESSED != 0 || bstate & BUTTON3_CLICKED != 0 {
        Some(MouseButton::Right)
    } else {
        None
    }
}

fn released_button_of(bstate: u64) -> (r: Option<MouseButton>)
    ensures
        r == released_button(bstate),
{
    if bstate & BUTTON1_RELEASED != 0 {
        Some(MouseButton::Left)
    } else if bstate & BUTTON2_RELEASED != 0 {
        Some(MouseButton::Middle)
    } else if bstate & BUTTON3_RELEASED != 0 {
        Some(MouseButton::Right)
    } else {
        None
    }
}

/// Decodes one mouse report.
pub fn decode_mouse(bstate: u64, x: i32, y: i32, last: Option<MouseButton>) -> (r: MouseDecode)
    ensures
        r == decode(bstate, x, y, last),
{
    let cx = x as u16;
    let cy = y as u16;
    match pressed_button_of(bstate) {
        Some(b) => MouseDecode { event: Some(MouseEvent::Down(b, cx, cy)), last_button: Some(b) },
        None => match released_button_of(bstate) {
            Some(b) => MouseDecode { event: Some(MouseEvent::Up(b, cx, cy)), last_button: last },
            None => if bstate & BUTTON4_PRESSED != 0 {
                MouseDecode { event: Some(MouseEvent::ScrollUp(cx, cy)), last_button: last }
            } else if bstate & BUTTON5_PRESSED != 0 {
                MouseDecode { event: Some(MouseEvent::ScrollDown(cx, cy)), last_button: last }
            } else if bstate & REPORT_MOUSE_POSITION != 0 {
                match last {
                    Some(b) => MouseDecode {
                        event: Some(MouseEvent::Drag(b, cx, cy)),
                        last_button: last,
                    },
                    None => MouseDecode { event: None, last_button: last },
                }
            } else {
                MouseDecode { event: None, last_button: last }
            },
        },
    }
}

} // verus!
