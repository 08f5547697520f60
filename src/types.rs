use vstd::prelude::*;

verus! {

/// A logical colour request.
#[derive(Clone, Copy, Debug, PartialEq, Eq, Structural)]
pub enum Color {
    Reset,
    Black,
    DarkGrey,
    Red,
    DarkRed,
    Green,
    DarkGreen,
    Yellow,
    DarkYellow,
    Blue,
    DarkBlue,
    Magenta,
    DarkMagenta,
    Cyan,
    DarkCyan,
    White,
    Grey,
    Rgb { r: u8, g: u8, b: u8 },
    AnsiValue(u8),
}

/// Logical key identity.
#[derive(Clone, Copy, Debug, PartialEq, Eq, Structural)]
pub enum KeyCode {
    Backspace,
    Enter,
    Left,
    Right,
    Up,
    Down,
    Home,
    End,
    PageUp,
    PageDown,
    Tab,
    BackTab,
    Delete,
    Insert,
    F(u8),
    Char(char),
    Null,
    Esc,
}

pub const MOD_SHIFT: u8 = 1;
pub const MOD_CONTROL: u8 = 2;
pub const MOD_ALT: u8 = 4;

/// A combinable set of modifier keys, one bit per modifier.
#[derive(Clone, Copy, Debug, PartialEq, Eq, Structural)]
pub struct KeyModifiers {
    pub bits: u8,
}

impl KeyModifiers {
    pub open spec fn has(self, flag: u8) -> bool {
        self.bits & flag != 0
    }

    pub fn empty() -> (r: KeyModifiers)
        ensures
            r.bits == 0,
    {
        KeyModifiers { bits: 0 }
    }

    pub fn from_bits(bits: u8) -> (r: KeyModifiers)
        ensures
            r.bits == bits,
    {
        KeyModifiers { bits }
    }

    /// The union of two modifier sets.
    pub fn union(self, other: KeyModifiers) -> (r: KeyModifiers)
        ensures
            r.bits == self.bits | other.bits,
    {
        KeyModifiers { bits: self.bits | other.bits }
    }

    pub fn contains(self, flag: u8) -> (r: bool)
        ensures
            r == self.has(flag),
    {
        self.bits & flag != 0
    }
}

#[derive(Clone, Copy, Debug, PartialEq, Eq, Structural)]
pub struct KeyEvent {
    pub code: KeyCode,
    pub modifiers: KeyModifiers,
}

#[derive(Clone, Copy, Debug, PartialEq, Eq, Structural)]
pub enum MouseButton {
    Left,
    Right,
    Middle,
}

/// A mouse report in column-major `(x, y)` coordinates.
#[derive(Clone, Copy, Debug, PartialEq, Eq, Structural)]
pub enum MouseEvent {
    Down(MouseButton, u16, u16),
    Up(MouseButton, u16, u16),
    Drag(MouseButton, u16, u16),
    ScrollUp(u16, u16),
    ScrollDown(u16, u16),
}

#[derive(Clone, Copy, Debug, PartialEq, Eq, Structural)]
pub enum Event {
    Key(KeyEvent),
    Mouse(MouseEvent),
    Resize,
    Unknown,
}

#[derive(Clone, Copy, Debug, PartialEq, Eq, Structural)]
pub enum Clear {
    All,
    FromCursorDown,
    FromCursorUp,
    CurrentLine,
    UntilNewLine,
}

#[derive(Clone, Copy, Debug, PartialEq, Eq, Structural)]
pub enum Attribute {
    Reset,
    Bold,
    BoldOff,
    Italic,
    ItalicOff,
    Underlined,
    UnderlinedOff,
    SlowBlink,
    RapidBlink,
    BlinkOff,
    Crossed,
    CrossedOff,
    Reversed,
    ReversedOff,
    Conceal,
    ConcealOff,
    Fraktur,
    NormalIntensity,
    Framed,
}

/// An imperative terminal operation.
#[derive(Clone, Copy, Debug, PartialEq, Eq, Structural)]
pub enum Action {
    MoveCursorTo(u16, u16),
    HideCursor,
    ShowCursor,
    EnableBlinking,
    DisableBlinking,
    ClearTerminal(Clear),
    SetTerminalSize(u16, u16),
    ScrollUp(u16),
    ScrollDown(u16),
    EnableRawMode,
    DisableRawMode,
    EnterAlternateScreen,
    LeaveAlternateScreen,
    EnableMouseCapture,
    DisableMouseCapture,
    SetForegroundColor(Color),
    SetBackgroundColor(Color),
    SetAttribute(Attribute),
    ResetColor,
}

/// A query; the timeout of `Event` is in milliseconds, `None` blocks.
#[derive(Clone, Copy, Debug, PartialEq, Eq, Structural)]
pub enum Value {
    TerminalSize,
    CursorPosition,
    Event(Option<u64>),
}

/// The answer to a `Value` query.
#[derive(Clone, Copy, Debug, PartialEq, Eq, Structural)]
pub enum Retrieved {
    TerminalSize(u16, u16),
    CursorPosition(u16, u16),
    Event(Option<Event>),
}

/// The two ways an operation can fail.
#[derive(Clone, Copy, Debug, PartialEq, Eq, Structural)]
pub enum ErrorKind {
    AttributeNotSupported(Attribute),
    IoError,
}

} // verus!
