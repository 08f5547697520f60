//! The calls this library makes into the curses driver and the terminal's
//! output stream, and a record of them for stating what each operation does.
//! Each call that changes the driver's state returns the driver's status,
//! `ERR` where the driver could not carry it out.
use std::io::Write;
use pancurses::Input as I;
use self::RawInput as R;
use self::DriverAttribute as D;
use pancurses::Attribute as A;
use vstd::prelude::*;

verus! {

#[verifier::external_type_specification]
#[verifier::external_body]
pub struct ExWindow(pancurses::Window);

#[verifier::external_type_specification]
#[verifier::external_body]
pub struct ExIoError(std::io::Error);

/// A text attribute as the driver knows it.
#[derive(Clone, Copy, Debug, PartialEq, Eq, Structural)]
pub enum DriverAttribute {
    Normal,
    Bold,
    Italic,
    Underline,
    Blink,
    Overline,
    Reverse,
    Invisible,
}

/// One unit of input as the driver reports it.
#[derive(Clone, Copy, Debug, PartialEq, Eq, Structural)]
pub enum RawInput {
    Character(char),
    Unknown(i32),
    KeyUp,
    KeyDown,
    KeyLeft,
    KeyRight,
    KeyHome,
    KeyEnd,
    KeyNPage,
    KeyPPage,
    KeyDC,
    KeyIC,
    KeyBackspace,
    KeyResize,
    KeyMouse,
    Other,
}

/// The status the driver returns for a call it could not carry out.
pub const ERR: i32 = -1;

/// A call made into the driver or the output stream, in the order made,
/// with what a query returned.
pub enum DriverCall {
    Keypad,
    KeyName(i32, Option<Seq<char>>),
    QueryMaxYX(i32, i32),
    QueryCurYX(i32, i32),
    StartColor,
    UseDefaultColors,
    MouseMask,
    Move { y: i32, x: i32 },
    CursorVisibility(i32),
    Blink(bool),
    ClearAll,
    ClearToBottom,
    ClearToEol,
    ResizeTerm { rows: i32, cols: i32 },
    Echo(bool),
    Raw(bool),
    Newline(bool),
    InitPair { pair: i16, fg: i16, bg: i16 },
    PairOn(i32),
    AttrOn(DriverAttribute),
    AttrOff(DriverAttribute),
    Print(Seq<char>),
    AddChar(char),
    Refresh,
    Timeout(i32),
    ReadInput(Option<RawInput>),
    ReadMouse(Option<(u64, i32, i32)>),
    Write(Seq<char>),
    FlushOut,
    EndWin,
}

/// Relies on pancurses::Window::keypad: turns on decoding of extended keys.
#[verifier::external_body]
pub(crate) fn keypad_on(w: &pancurses::Window) {
    w.keypad(true);
}

/// Relies on pancurses::start_color.
#[verifier::external_body]
pub(crate) fn start_color() {
    pancurses::start_color();
}

/// Relies on pancurses::use_default_colors: -1 then stands for the
/// terminal's own colour in a pair.
#[verifier::external_body]
pub(crate) fn use_default_colors() {
    pancurses::use_default_colors();
}

/// Relies on pancurses::mousemask: reports every mouse event and position.
#[verifier::external_body]
pub(crate) fn mouse_mask_all() {
    pancurses::mousemask(pancurses::ALL_MOUSE_EVENTS | pancurses::REPORT_MOUSE_POSITION, None);
}

/// Relies on pancurses::COLORS: the size of the terminal's palette.
#[verifier::external_body]
pub(crate) fn palette_size() -> i32 {
    pancurses::COLORS()
}

/// Relies on pancurses::keyname: the driver's symbolic name of a key code.
#[verifier::external_body]
pub(crate) fn key_name(code: i32) -> Option<String> {
    pancurses::keyname(code)
}

/// Relies on pancurses::Window::mv: moves the cursor to row `y`, column `x`.
#[verifier::external_body]
pub(crate) fn move_to(w: &pancurses::Window, y: i32, x: i32) -> i32 {
    w.mv(y, x)
}

/// Relies on pancurses::curs_set.
#[verifier::external_body]
pub(crate) fn cursor_visibility(visibility: i32) -> i32 {
    pancurses::curs_set(visibility)
}

/// Relies on pancurses::set_blink.
#[verifier::external_body]
pub(crate) fn set_blink(enabled: bool) -> i32 {
    pancurses::set_blink(enabled)
}

/// Relies on pancurses::Window::clear.
#[verifier::external_body]
pub(crate) fn clear_all(w: &pancurses::Window) -> i32 {
    w.clear()
}

/// Relies on pancurses::Window::clrtobot.
#[verifier::external_body]
pub(crate) fn clear_to_bottom(w: &pancurses::Window) -> i32 {
    w.clrtobot()
}

/// Relies on pancurses::Window::clrtoeol.
#[verifier::external_body]
pub(crate) fn clear_to_eol(w: &pancurses::Window) -> i32 {
    w.clrtoeol()
}

/// Relies on pancurses::resize_term.
#[verifier::external_body]
pub(crate) fn resize_term(rows: i32, cols: i32) -> i32 {
    pancurses::resize_term(rows, cols)
}

/// Relies on pancurses::echo: turns echo of typed characters on.
#[verifier::external_body]
pub(crate) fn echo_on() -> i32 {
    pancurses::echo()
}

/// Relies on pancurses::noecho: turns echo of typed characters off.
#[verifier::external_body]
pub(crate) fn echo_off() -> i32 {
    pancurses::noecho()
}

/// Relies on pancurses::raw: turns raw mode on.
#[verifier::external_body]
pub(crate) fn raw_on() -> i32 {
    pancurses::raw()
}

/// Relies on pancurses::noraw: turns raw mode off.
#[verifier::external_body]
pub(crate) fn raw_off() -> i32 {
    pancurses::noraw()
}

/// Relies on pancurses::nl: turns newline translation on.
#[verifier::external_body]
pub(crate) fn newline_on() -> i32 {
    pancurses::nl()
}

/// Relies on pancurses::nonl: turns newline translation off.
#[verifier::external_body]
pub(crate) fn newline_off() -> i32 {
    pancurses::nonl()
}

/// Relies on pancurses::init_pair: registers pair `pair` as (`fg`, `bg`).
#[verifier::external_body]
pub(crate) fn init_pair(pair: i16, fg: i16, bg: i16) -> i32 {
    pancurses::init_pair(pair, fg, bg)
}

/// Relies on pancurses::Window::attron of pancurses::COLOR_PAIR: makes
/// pair `index` the colour of what is written next.
#[verifier::external_body]
pub(crate) fn pair_on(w: &pancurses::Window, index: i32) -> i32 {
    w.attron(pancurses::COLOR_PAIR(index as pancurses::chtype))
}

/// Relies on pancurses::Window::attron: turns one attribute on.
#[verifier::external_body]
pub(crate) fn attr_on(w: &pancurses::Window, a: DriverAttribute) -> i32 {
    w.attron(match a {
        D::Normal => A::Normal, D::Bold => A::Bold, D::Italic => A::Italic,
        D::Underline => A::Underline, D::Blink => A::Blink, D::Overline => A::Overline,
        D::Reverse => A::Reverse, D::Invisible => A::Invisible,
    })
}

/// Relies on pancurses::Window::attroff: turns one attribute off.
#[verifier::external_body]
pub(crate) fn attr_off(w: &pancurses::Window, a: DriverAttribute) -> i32 {
    w.attroff(match a {
        D::Normal => A::Normal, D::Bold => A::Bold, D::Italic => A::Italic,
        D::Underline => A::Underline, D::Blink => A::Blink, D::Overline => A::Overline,
        D::Reverse => A::Reverse, D::Invisible => A::Invisible,
    })
}

/// Relies on pancurses::Window::addstr: writes the text at the cursor as
/// it is; the text goes to the driver as a C string, which cannot hold a
/// NUL character (`CString::new(..).unwrap()` panics on one).
#[verifier::external_body]
pub(crate) fn print_str(w: &pancurses::Window, s: &str) -> i32
    requires
        !s@.contains('\0'),
{
    w.addstr(s)
}

/// Relies on pancurses::Window::addch: writes one character at the cursor.
#[verifier::external_body]
pub(crate) fn add_char(w: &pancurses::Window, c: char) -> i32 {
    w.addch(c)
}

/// Relies on pancurses::Window::refresh: shows the window's changes.
#[verifier::external_body]
pub(crate) fn refresh(w: &pancurses::Window) -> i32 {
    w.refresh()
}

/// Relies on pancurses::Window::get_max_yx: rows and columns of the window.
#[verifier::external_body]
pub(crate) fn max_yx(w: &pancurses::Window) -> (i32, i32) {
    w.get_max_yx()
}

/// Relies on pancurses::Window::get_cur_yx: row and column of the cursor.
#[verifier::external_body]
pub(crate) fn cur_yx(w: &pancurses::Window) -> (i32, i32) {
    w.get_cur_yx()
}

/// Relies on pancurses::Window::timeout: how long the next read waits, in
/// milliseconds; negative waits without limit, zero does not wait.
#[verifier::external_body]
pub(crate) fn set_timeout(w: &pancurses::Window, ms: i32) {
    w.timeout(ms);
}

/// Relies on pancurses::Window::getch: one unit of input, `None` when none
/// came within the timeout.
#[verifier::external_body]
pub(crate) fn read_input(w: &pancurses::Window) -> Option<RawInput> {
    w.getch().map(|i| match i {
        I::Character(c) => R::Character(c), I::Unknown(n) => R::Unknown(n),
        I::KeyUp => R::KeyUp, I::KeyDown => R::KeyDown, I::KeyLeft => R::KeyLeft,
        I::KeyRight => R::KeyRight, I::KeyHome => R::KeyHome, I::KeyEnd => R::KeyEnd,
        I::KeyNPage => R::KeyNPage, I::KeyPPage => R::KeyPPage, I::KeyDC => R::KeyDC,
        I::KeyIC => R::KeyIC, I::KeyBackspace => R::KeyBackspace,
        I::KeyResize => R::KeyResize, I::KeyMouse => R::KeyMouse, _ => R::Other,
    })
}

/// Relies on pancurses::getmouse: the pending mouse report as its button
/// state mask, column and row; `None` where the driver has none.
#[verifier::external_body]
pub(crate) fn read_mouse() -> Option<(u64, i32, i32)> {
    pancurses::getmouse().ok().map(|m| (m.bstate as u64, m.x, m.y))
}

/// Relies on pancurses::endwin: ends the curses session.
#[verifier::external_body]
pub(crate) fn end_window() {
    pancurses::endwin();
}

/// Relies on std::io::Write::write_all on the process's standard output.
#[verifier::external_body]
pub(crate) fn write_out(s: &str) -> Result<(), std::io::Error> {
    std::io::stdout().write_all(s.as_bytes())
}

/// Relies on std::io::Write::flush on the process's standard output.
#[verifier::external_body]
pub(crate) fn flush_out() -> Result<(), std::io::Error> {
    std::io::stdout().flush()
}

} // verus!
