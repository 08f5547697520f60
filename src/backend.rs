//! The curses backend: one terminal session, its colour pairs, its key
//! table, and the event held back for the next retrieval.
use std::collections::HashMap;
use vstd::prelude::*;
use crate::driver::{self, DriverAttribute, DriverCall, RawInput, ERR};
use crate::keymap::{fill_key_codes, key_table, names_view, KEY_CODES_COUNT, KEY_CODES_START};
use crate::mouse::{decode, decode_mouse};
use crate::pairs::{after_request, index_for, registers, slots_wf, ColorPairs, PairKey};
use crate::palette::{closest, find_closest};
use crate::types::{
    Action, Attribute, Clear, Color, ErrorKind, Event, KeyCode, KeyEvent, KeyModifiers,
    MouseButton, Retrieved, Value,
};

verus! {

broadcast use vstd::std_specs::hash::group_hash_axioms;

/// Escape sequence that turns on the terminal's mouse reports.
pub const ENABLE_MOUSE_CAPTURE: &'static str = "\x1B[?1000h\x1b[?1002h\x1b[?1015h\x1b[?1006h";

/// Escape sequence that turns them off again, in the reverse order.
pub const DISABLE_MOUSE_CAPTURE: &'static str = "\x1B[?1006l\x1b[?1015l\x1b[?1002l\x1b[?1000l";

/// The driver attribute that setting `a` turns on.
pub open spec fn attribute_on(a: Attribute) -> Option<DriverAttribute> {
    match a {
        Attribute::Reset => Some(DriverAttribute::Normal),
        Attribute::Bold => Some(DriverAttribute::Bold),
        Attribute::Italic => Some(DriverAttribute::Italic),
        Attribute::Underlined => Some(DriverAttribute::Underline),
        Attribute::SlowBlink | Attribute::RapidBlink => Some(DriverAttribute::Blink),
        Attribute::Crossed => Some(DriverAttribute::Overline),
        Attribute::Reversed => Some(DriverAttribute::Reverse),
        Attribute::Conceal => Some(DriverAttribute::Invisible),
        _ => None,
    }
}

/// The driver attribute that setting `a` turns off.
pub open spec fn attribute_off(a: Attribute) -> Option<DriverAttribute> {
    match a {
        Attribute::BoldOff => Some(DriverAttribute::Bold),
        Attribute::ItalicOff => Some(DriverAttribute::Italic),
        Attribute::UnderlinedOff => Some(DriverAttribute::Underline),
        Attribute::BlinkOff => Some(DriverAttribute::Blink),
        Attribute::CrossedOff => Some(DriverAttribute::Overline),
        Attribute::ReversedOff => Some(DriverAttribute::Reverse),
        Attribute::ConcealOff => Some(DriverAttribute::Invisible),
        _ => None,
    }
}

/// Whether the driver can show attribute `a`, turning it on or off.
pub open spec fn attribute_supported(a: Attribute) -> bool {
    attribute_on(a) is Some || attribute_off(a) is Some
}

/// The driver calls that setting attribute `a` makes.
pub open spec fn attribute_calls(a: Attribute) -> Seq<DriverCall> {
    match attribute_on(a) {
        Some(d) => seq![DriverCall::AttrOn(d)],
        None => match attribute_off(a) {
            Some(d) => seq![DriverCall::AttrOff(d)],
            None => seq![],
        },
    }
}

/// The driver calls that activating the pair of `k` makes: a registration
/// where the table does not hold `k` yet, then the activation.
pub open spec fn pair_calls(s: Seq<PairKey>, max: int, k: PairKey) -> Seq<DriverCall> {
    let index = index_for(s, max, k);
    if registers(s, k) {
        seq![
            DriverCall::InitPair { pair: index as i16, fg: k.fg, bg: k.bg },
            DriverCall::PairOn(index as i32),
        ]
    } else {
        seq![DriverCall::PairOn(index as i32)]
    }
}

/// The driver calls of an action that needs neither the colour table nor
/// the output stream; actions the driver cannot express make none.
pub open spec fn plain_calls(a: Action) -> Seq<DriverCall> {
    match a {
        Action::MoveCursorTo(x, y) => seq![DriverCall::Move { y: y as i32, x: x as i32 }],
        Action::HideCursor => seq![DriverCall::CursorVisibility(0)],
        Action::ShowCursor => seq![DriverCall::CursorVisibility(1)],
        Action::EnableBlinking => seq![DriverCall::Blink(true)],
        Action::DisableBlinking => seq![DriverCall::Blink(false)],
        Action::ClearTerminal(Clear::All) => seq![DriverCall::ClearAll],
        Action::ClearTerminal(Clear::FromCursorDown) => seq![DriverCall::ClearToBottom],
        Action::ClearTerminal(Clear::UntilNewLine) => seq![DriverCall::ClearToEol],
        Action::SetTerminalSize(cols, rows) => seq![
            DriverCall::ResizeTerm { rows: rows as i32, cols: cols as i32 },
        ],
        Action::EnableRawMode => seq![
            DriverCall::Echo(false),
            DriverCall::Raw(true),
            DriverCall::Newline(false),
        ],
        Action::DisableRawMode => seq![
            DriverCall::Echo(true),
            DriverCall::Raw(false),
            DriverCall::Newline(true),
        ],
        _ => seq![],
    }
}

/// Whether an action goes through the colour table.
pub open spec fn is_color_action(a: Action) -> bool {
    a is SetForegroundColor || a is SetBackgroundColor
}

/// The timeout handed to the driver: `-1` waits without limit, longer
/// waits than the driver takes are cut to the longest it takes.
pub open spec fn timeout_ms(t: Option<u64>) -> i32 {
    match t {
        None => -1i32,
        Some(ms) => if ms > i32::MAX { i32::MAX } else { ms as i32 },
    }
}

/// The event that a unit of input other than a mouse report stands for.
pub open spec fn input_event(raw: RawInput, keys: Map<i32, Event>) -> Event {
    let plain = |code: KeyCode| Event::Key(KeyEvent { code, modifiers: KeyModifiers { bits: 0 } });
    match raw {
        RawInput::Character(c) => plain(KeyCode::Char(c)),
        RawInput::Unknown(n) => if keys.contains_key(n) { keys[n] } else { Event::Unknown },
        RawInput::KeyUp => plain(KeyCode::Up),
        RawInput::KeyDown => plain(KeyCode::Down),
        RawInput::KeyLeft => plain(KeyCode::Left),
        RawInput::KeyRight => plain(KeyCode::Right),
        RawInput::KeyHome => plain(KeyCode::Home),
        RawInput::KeyEnd => plain(KeyCode::End),
        RawInput::KeyNPage => plain(KeyCode::PageDown),
        RawInput::KeyPPage => plain(KeyCode::PageUp),
        RawInput::KeyDC => plain(KeyCode::Delete),
        RawInput::KeyIC => plain(KeyCode::Insert),
        RawInput::KeyBackspace => plain(KeyCode::Backspace),
        RawInput::KeyResize => Event::Resize,
        RawInput::KeyMouse | RawInput::Other => Event::Unknown,
    }
}

/// The event a mouse report stands for, with the button remembered after it.
pub open spec fn mouse_outcome(
    report: Option<(u64, i32, i32)>,
    last: Option<MouseButton>,
) -> (Option<Event>, Option<MouseButton>) {
    match report {
        Some((bstate, x, y)) => {
            let d = decode(bstate, x, y, last);
            (
                match d.event {
                    Some(m) => Some(Event::Mouse(m)),
                    None => None,
                },
                d.last_button,
            )
        },
        None => (None, last),
    }
}

/// The input that a recorded read returned.
pub open spec fn polled_input(c: DriverCall) -> Option<RawInput> {
    match c {
        DriverCall::ReadInput(i) => i,
        _ => None,
    }
}

/// The mouse report that a recorded mouse read returned.
pub open spec fn mouse_report(c: DriverCall) -> Option<(u64, i32, i32)> {
    match c {
        DriverCall::ReadMouse(m) => m,
        _ => None,
    }
}

/// What a retrieval delivers from the staging slot without polling.
pub open spec fn delivers_staged(staged: Option<Event>) -> Option<Event> {
    staged
}

/// Whether a retrieval polls the driver: only when nothing is staged.
pub open spec fn retrieval_polls(staged: Option<Event>) -> bool {
    staged is None
}

/// No code among `codes` reports a failure: `Ok`, else the driver's error.
pub open spec fn status_of(codes: Seq<i32>) -> Result<(), ErrorKind> {
    if exists|i: int| 0 <= i < codes.len() && codes[i] == ERR {
        Err(ErrorKind::IoError)
    } else {
        Ok(())
    }
}

/// `after` is `before` with `k` more entries at its end.
pub open spec fn appended<T>(before: Seq<T>, after: Seq<T>, k: int) -> bool {
    &&& after.len() == before.len() + k
    &&& after.take(before.len() as int) == before
}

/// The status codes a session gained between `before` and `after`.
pub open spec fn new_codes(before: &BackendImpl, after: &BackendImpl) -> Seq<i32> {
    after.codes().skip(before.codes().len() as int)
}

/// The calls that write an escape sequence and flush it out.
pub open spec fn stream_calls(text: Seq<char>) -> Seq<DriverCall> {
    seq![DriverCall::Write(text), DriverCall::FlushOut]
}

/// The calls of the end of a session, in their order.
pub open spec fn teardown_calls() -> Seq<DriverCall> {
    seq![DriverCall::Write(DISABLE_MOUSE_CAPTURE@), DriverCall::FlushOut, DriverCall::EndWin]
}

/// The calls that ask the driver for the name of each code of the
/// extended-key window, in increasing order, with the names it gave.
pub open spec fn key_queries(names: Seq<Option<Seq<char>>>) -> Seq<DriverCall> {
    Seq::new(names.len(), |i: int| DriverCall::KeyName((KEY_CODES_START + i) as i32, names[i]))
}

/// The names that recorded key-name queries returned.
pub open spec fn logged_names(calls: Seq<DriverCall>) -> Seq<Option<Seq<char>>> {
    calls.map_values(|c: DriverCall| match c {
        DriverCall::KeyName(_, n) => n,
        _ => None,
    })
}

/// The calls that set a session up, before its key-name queries.
pub open spec fn setup_calls() -> Seq<DriverCall> {
    seq![
        DriverCall::Keypad,
        DriverCall::StartColor,
        DriverCall::UseDefaultColors,
        DriverCall::MouseMask,
    ]
}

/// The rows and columns a recorded size or cursor query returned.
pub open spec fn yx_answer(c: DriverCall) -> (i32, i32) {
    match c {
        DriverCall::QueryMaxYX(y, x) => (y, x),
        DriverCall::QueryCurYX(y, x) => (y, x),
        _ => (0, 0),
    }
}

/// What `batch` does to a session: the state `after` and result `r` of
/// applying `action` to `before`. Every driver call that changes state
/// leaves a status code, and any failure among them makes the result an
/// error.
pub open spec fn batch_post(
    before: &BackendImpl,
    action: Action,
    after: &BackendImpl,
    r: Result<(), ErrorKind>,
) -> bool {
    &&& after.wf()
    &&& after.same_session(before)
    &&& match action {
        Action::SetForegroundColor(c) => {
            let k = PairKey { fg: closest(c, before.colors()) as i16, bg: before.bg() };
            let calls = pair_calls(before.pairs(), before.max_pairs(), k);
            &&& after.fg() == k.fg
            &&& after.bg() == before.bg()
            &&& after.pairs() == after_request(before.pairs(), before.max_pairs(), k)
            &&& after.calls() == before.calls() + calls
            &&& appended(before.codes(), after.codes(), calls.len() as int)
            &&& r == status_of(new_codes(before, after))
        },
        Action::SetBackgroundColor(c) => {
            let k = PairKey { fg: before.fg(), bg: closest(c, before.colors()) as i16 };
            let calls = pair_calls(before.pairs(), before.max_pairs(), k);
            &&& after.fg() == before.fg()
            &&& after.bg() == k.bg
            &&& after.pairs() == after_request(before.pairs(), before.max_pairs(), k)
            &&& after.calls() == before.calls() + calls
            &&& appended(before.codes(), after.codes(), calls.len() as int)
            &&& r == status_of(new_codes(before, after))
        },
        Action::SetAttribute(a) => {
            &&& after.calls() == before.calls() + attribute_calls(a)
            &&& appended(before.codes(), after.codes(), attribute_calls(a).len() as int)
            &&& r == if attribute_supported(a) {
                status_of(new_codes(before, after))
            } else {
                Err(ErrorKind::AttributeNotSupported(a))
            }
        },
        Action::EnableMouseCapture => {
            &&& after.codes() == before.codes()
            &&& (r is Ok || r == Err::<(), ErrorKind>(ErrorKind::IoError))
            &&& r is Ok ==> after.calls() == before.calls() + stream_calls(ENABLE_MOUSE_CAPTURE@)
            &&& r is Err ==> after.calls() == before.calls() + stream_calls(ENABLE_MOUSE_CAPTURE@)
                || after.calls() == before.calls().push(DriverCall::Write(ENABLE_MOUSE_CAPTURE@))
        },
        Action::DisableMouseCapture => {
            &&& after.codes() == before.codes()
            &&& (r is Ok || r == Err::<(), ErrorKind>(ErrorKind::IoError))
            &&& r is Ok ==> after.calls() == before.calls() + stream_calls(DISABLE_MOUSE_CAPTURE@)
            &&& r is Err ==> after.calls() == before.calls() + stream_calls(DISABLE_MOUSE_CAPTURE@)
                || after.calls() == before.calls().push(DriverCall::Write(DISABLE_MOUSE_CAPTURE@))
        },
        _ => {
            &&& after.calls() == before.calls() + plain_calls(action)
            &&& appended(before.codes(), after.codes(), plain_calls(action).len() as int)
            &&& r == status_of(new_codes(before, after))
        },
    }
    &&& !is_color_action(action) ==> after.pairs() == before.pairs() && after.fg()
        == before.fg() && after.bg() == before.bg()
}

/// What `flush_batch` does: one redraw, whose failure is the result.
pub open spec fn flush_post(before: &BackendImpl, after: &BackendImpl, r: Result<(), ErrorKind>) -> bool {
    &&& after.wf()
    &&& after.same_session(before)
    &&& after.pairs() == before.pairs()
    &&& after.fg() == before.fg()
    &&& after.bg() == before.bg()
    &&& after.calls() == before.calls().push(DriverCall::Refresh)
    &&& appended(before.codes(), after.codes(), 1)
    &&& r == status_of(new_codes(before, after))
}

/// What `act` does: `batch`, then `flush_batch` where the batch succeeded.
pub open spec fn act_post(
    before: &BackendImpl,
    action: Action,
    after: &BackendImpl,
    r: Result<(), ErrorKind>,
) -> bool {
    exists|mid: BackendImpl, rb: Result<(), ErrorKind>|
        #![trigger batch_post(before, action, &mid, rb)]
        {
            &&& batch_post(before, action, &mid, rb)
            &&& rb is Ok ==> flush_post(&mid, after, r)
            &&& rb is Err ==> r == rb && *after == mid
        }
}

/// What `get` does to a session: the state `after` and answer `r` of
/// the query `q` on `before`. Sizes and positions are answered columns
/// first, though the driver reports rows first.
pub open spec fn get_post(
    before: &BackendImpl,
    q: Value,
    after: &BackendImpl,
    r: Result<Retrieved, ErrorKind>,
) -> bool {
    &&& after.wf()
    &&& after.keys() == before.keys()
    &&& after.codes() == before.codes()
    &&& after.colors() == before.colors()
    &&& after.max_pairs() == before.max_pairs()
    &&& after.pairs() == before.pairs()
    &&& after.fg() == before.fg()
    &&& after.bg() == before.bg()
    &&& match q {
        Value::TerminalSize => {
            let (y, x) = yx_answer(after.calls().last());
            &&& after.calls() == before.calls().push(DriverCall::QueryMaxYX(y, x))
            &&& r == Ok::<Retrieved, ErrorKind>(Retrieved::TerminalSize(x as u16, y as u16))
            &&& after.staged() == before.staged()
            &&& after.last_button() == before.last_button()
        },
        Value::CursorPosition => {
            let (y, x) = yx_answer(after.calls().last());
            &&& after.calls() == before.calls().push(DriverCall::QueryCurYX(y, x))
            &&& r == Ok::<Retrieved, ErrorKind>(Retrieved::CursorPosition(x as u16, y as u16))
            &&& after.staged() == before.staged()
            &&& after.last_button() == before.last_button()
        },
        Value::Event(t) => {
            let n = before.calls().len() as int;
            &&& after.staged() is None
            &&& !retrieval_polls(before.staged()) ==> {
                &&& r == Ok::<Retrieved, ErrorKind>(
                    Retrieved::Event(delivers_staged(before.staged())),
                )
                &&& after.calls() == before.calls()
                &&& after.last_button() == before.last_button()
            }
            &&& retrieval_polls(before.staged()) ==> {
                &&& after.calls().len() >= n + 2
                &&& after.calls().take(n + 1) == before.calls().push(
                    DriverCall::Timeout(timeout_ms(t)),
                )
                &&& after.calls()[n + 1] == DriverCall::ReadInput(
                    polled_input(after.calls()[n + 1]),
                )
                &&& match polled_input(after.calls()[n + 1]) {
                    None => {
                        &&& r == Ok::<Retrieved, ErrorKind>(Retrieved::Event(None))
                        &&& after.calls().len() == n + 2
                        &&& after.last_button() == before.last_button()
                    },
                    Some(RawInput::KeyMouse) => {
                        let report = mouse_report(after.calls()[n + 2]);
                        let outcome = mouse_outcome(report, before.last_button());
                        &&& after.calls().len() == n + 3
                        &&& after.calls()[n + 2] == DriverCall::ReadMouse(report)
                        &&& r == Ok::<Retrieved, ErrorKind>(Retrieved::Event(outcome.0))
                        &&& after.last_button() == outcome.1
                    },
                    Some(raw) => {
                        &&& r == Ok::<Retrieved, ErrorKind>(
                            Retrieved::Event(Some(input_event(raw, before.keys()))),
                        )
                        &&& after.calls().len() == n + 2
                        &&& after.last_button() == before.last_button()
                    },
                }
            }
        },
    }
}

/// What requesting `k` did: the index handed out, the registration
/// made where it was new, and its status.
spec fn register_post(
    before: &BackendImpl,
    after: &BackendImpl,
    k: PairKey,
    r: (i32, Option<i32>),
) -> bool {
    let calls = pair_calls(before.pairs(), before.max_pairs(), k).drop_last();
    &&& r.0 == index_for(before.pairs(), before.max_pairs(), k)
    &&& 1 <= r.0 < before.max_pairs()
    &&& after.pairs() == after_request(before.pairs(), before.max_pairs(), k)
    &&& after.calls() == before.calls() + calls
    &&& (r.1 is Some <==> registers(before.pairs(), k))
    &&& after.codes() == match r.1 {
        Some(c) => before.codes().push(c),
        None => before.codes(),
    }
    &&& appended(before.codes(), after.codes(), calls.len() as int)
    &&& after.wf()
    &&& after.same_session(before)
}

/// A curses terminal session.
pub struct BackendImpl {
    window: pancurses::Window,
    last_mouse_button: Option<MouseButton>,
    stored_event: Option<Event>,
    color_pairs: ColorPairs,
    colors: i16,
    fg: i16,
    bg: i16,
    key_codes: HashMap<i32, Event>,
    calls: Ghost<Seq<DriverCall>>,
    codes: Ghost<Seq<i32>>,
}

/// `Ok` when no code is the driver's failure status.
fn status_result(codes: &Vec<i32>) -> (r: Result<(), ErrorKind>)
    ensures
        r == status_of(codes@),
{
    let mut i: usize = 0;
    while i < codes.len()
        invariant
            i <= codes@.len(),
            forall|j: int| 0 <= j < i ==> codes@[j] != ERR,
        decreases codes@.len() - i,
    {
        if codes[i] == ERR {
            return Err(ErrorKind::IoError);
        }
        i = i + 1;
    }
    Ok(())
}

impl BackendImpl {
    /// The driver calls made so far, oldest first.
    pub closed spec fn calls(&self) -> Seq<DriverCall> {
        self.calls@
    }

    /// The status codes the driver returned so far, oldest first.
    pub closed spec fn codes(&self) -> Seq<i32> {
        self.codes@
    }

    pub closed spec fn staged(&self) -> Option<Event> {
        self.stored_event
    }

    pub closed spec fn last_button(&self) -> Option<MouseButton> {
        self.last_mouse_button
    }

    /// The registered combinations, pair `i + 1` in slot `i`.
    pub closed spec fn pairs(&self) -> Seq<PairKey> {
        self.color_pairs@
    }

    pub closed spec fn max_pairs(&self) -> int {
        self.color_pairs.max()
    }

    /// The palette size that colours are reduced to.
    pub closed spec fn colors(&self) -> int {
        self.colors as int
    }

    /// The current foreground and background palette colours.
    pub closed spec fn fg(&self) -> i16 {
        self.fg
    }

    pub closed spec fn bg(&self) -> i16 {
        self.bg
    }

    pub closed spec fn keys(&self) -> Map<i32, Event> {
        self.key_codes@
    }

    /// Well-formed: the pair table is.
    pub open spec fn wf(&self) -> bool {
        slots_wf(self.pairs(), self.max_pairs())
    }

    /// The staged event, the remembered button, the key table, the palette
    /// size and the pair limit are as in `other`.
    pub open spec fn same_session(&self, other: &BackendImpl) -> bool {
        &&& self.staged() == other.staged()
        &&& self.last_button() == other.last_button()
        &&& self.keys() == other.keys()
        &&& self.colors() == other.colors()
        &&& self.max_pairs() == other.max_pairs()
    }

    /// Resolves `fg_color` against the palette and the current background
    /// to a pair index, registering the pair with the driver when new.
    pub fn store_fg(&mut self, fg_color: Color) -> (r: i32)
        requires
            old(self).wf(),
        ensures
            ({
                let k = PairKey { fg: closest(fg_color, old(self).colors()) as i16, bg: old(self).bg() };
                let calls = pair_calls(old(self).pairs(), old(self).max_pairs(), k).drop_last();
                &&& r == index_for(old(self).pairs(), old(self).max_pairs(), k)
                &&& final(self).pairs() == after_request(old(self).pairs(), old(self).max_pairs(), k)
                &&& final(self).fg() == k.fg
                &&& final(self).calls() == old(self).calls() + calls
                &&& appended(old(self).codes(), final(self).codes(), calls.len() as int)
            }),
            final(self).wf(),
            final(self).bg() == old(self).bg(),
            final(self).same_session(old(self)),
    {
        self.resolve_fg(fg_color).0
    }

    /// Resolves `bg_color` against the palette and the current foreground
    /// to a pair index, registering the pair with the driver when new.
    pub fn store_bg(&mut self, bg_color: Color) -> (r: i32)
        requires
            old(self).wf(),
        ensures
            ({
                let k = PairKey { fg: old(self).fg(), bg: closest(bg_color, old(self).colors()) as i16 };
                let calls = pair_calls(old(self).pairs(), old(self).max_pairs(), k).drop_last();
                &&& r == index_for(old(self).pairs(), old(self).max_pairs(), k)
                &&& final(self).pairs() == after_request(old(self).pairs(), old(self).max_pairs(), k)
                &&& final(self).bg() == k.bg
                &&& final(self).calls() == old(self).calls() + calls
                &&& appended(old(self).codes(), final(self).codes(), calls.len() as int)
            }),
            final(self).wf(),
            final(self).fg() == old(self).fg(),
            final(self).same_session(old(self)),
    {
        self.resolve_bg(bg_color).0
    }

    fn resolve_fg(&mut self, fg_color: Color) -> (r: (i32, Option<i32>))
        requires
            old(self).wf(),
        ensures
            ({
                let k = PairKey { fg: closest(fg_color, old(self).colors()) as i16, bg: old(self).bg() };
                &&& final(self).fg() == k.fg
                &&& final(self).bg() == old(self).bg()
                &&& register_post(old(self), final(self), k, r)
            }),
    {
        let fg = find_closest(fg_color, self.colors);
        let k = PairKey { fg, bg: self.bg };
        let r = self.register(k);
        self.fg = fg;
        r
    }

    fn resolve_bg(&mut self, bg_color: Color) -> (r: (i32, Option<i32>))
        requires
            old(self).wf(),
        ensures
            ({
                let k = PairKey { fg: old(self).fg(), bg: closest(bg_color, old(self).colors()) as i16 };
                &&& final(self).fg() == old(self).fg()
                &&& final(self).bg() == k.bg
                &&& register_post(old(self), final(self), k, r)
            }),
    {
        let bg = find_closest(bg_color, self.colors);
        let k = PairKey { fg: self.fg, bg };
        let r = self.register(k);
        self.bg = bg;
        r
    }

    fn register(&mut self, k: PairKey) -> (r: (i32, Option<i32>))
        requires
            old(self).wf(),
        ensures
            register_post(old(self), final(self), k, r),
            final(self).fg() == old(self).fg(),
            final(self).bg() == old(self).bg(),
    {
        let req = self.color_pairs.request(k);
        let mut status: Option<i32> = None;
        if req.registered {
            let c = driver::init_pair(req.index as i16, k.fg, k.bg);
            self.record_status(
                Ghost(DriverCall::InitPair { pair: req.index as i16, fg: k.fg, bg: k.bg }),
                c,
            );
            status = Some(c);
        }
        proof {
            let pc = pair_calls(old(self).pairs(), old(self).max_pairs(), k);
            if req.registered {
                assert(pc.drop_last() =~= seq![DriverCall::InitPair { pair: req.index as i16, fg: k.fg, bg: k.bg }]);
            } else {
                assert(pc.drop_last() =~= Seq::<DriverCall>::empty());
            }
            assert(self.calls@ =~= old(self).calls() + pc.drop_last());
            assert(self.codes@.take(old(self).codes().len() as int) =~= old(self).codes());
        }
        (req.index, status)
    }

    /// Adds one call to the record.
    fn record(&mut self, c: Ghost<DriverCall>)
        ensures
            final(self).calls() == old(self).calls().push(c@),
            final(self).codes() == old(self).codes(),
            final(self).pairs() == old(self).pairs(),
            final(self).fg() == old(self).fg(),
            final(self).bg() == old(self).bg(),
            final(self).same_session(old(self)),
    {
        self.calls = Ghost(self.calls@.push(c@));
    }

    /// Adds one call to the record, with the status it returned.
    fn record_status(&mut self, c: Ghost<DriverCall>, code: i32)
        ensures
            final(self).calls() == old(self).calls().push(c@),
            final(self).codes() == old(self).codes().push(code),
            final(self).pairs() == old(self).pairs(),
            final(self).fg() == old(self).fg(),
            final(self).bg() == old(self).bg(),
            final(self).same_session(old(self)),
    {
        self.calls = Ghost(self.calls@.push(c@));
        self.codes = Ghost(self.codes@.push(code));
    }

    /// Writes an escape sequence to the terminal and flushes it.
    fn send(&mut self, text: &'static str) -> (r: Result<(), ErrorKind>)
        requires
            old(self).wf(),
        ensures
            final(self).wf(),
            final(self).pairs() == old(self).pairs(),
            final(self).fg() == old(self).fg(),
            final(self).bg() == old(self).bg(),
            final(self).codes() == old(self).codes(),
            final(self).same_session(old(self)),
            r is Ok || r == Err::<(), ErrorKind>(ErrorKind::IoError),
            r is Ok ==> final(self).calls() == old(self).calls() + stream_calls(text@),
            r is Err ==> final(self).calls() == old(self).calls() + stream_calls(text@)
                || final(self).calls() == old(self).calls().push(DriverCall::Write(text@)),
    {
        let written = driver::write_out(text);
        self.record(Ghost(DriverCall::Write(text@)));
        if written.is_err() {
            return Err(ErrorKind::IoError);
        }
        let flushed = driver::flush_out();
        self.record(Ghost(DriverCall::FlushOut));
        assert(self.calls@ =~= old(self).calls() + stream_calls(text@));
        if flushed.is_err() {
            return Err(ErrorKind::IoError);
        }
        Ok(())
    }

    /// Applies `action` to the driver's state without forcing a redraw.
    /// Colours go through the pair table and activate the pair of the
    /// current (foreground, background); an attribute the driver lacks is
    /// an error, and so is a failure the driver reports. Clearing above
    /// the cursor or the current line, scrolling, the alternate screen
    /// (curses runs in it already) and resetting the colour are not
    /// expressible here and do nothing.
    pub fn batch(&mut self, action: Action) -> (r: Result<(), ErrorKind>)
        requires
            old(self).wf(),
        ensures
            batch_post(old(self), action, final(self), r),
    {
        let mut st: Vec<i32> = Vec::new();
        match action {
            Action::MoveCursorTo(x, y) => {
                let c = driver::move_to(&self.window, y as i32, x as i32);
                self.record_status(Ghost(DriverCall::Move { y: y as i32, x: x as i32 }), c);
                st.push(c);
            },
            Action::HideCursor => {
                let c = driver::cursor_visibility(0);
                self.record_status(Ghost(DriverCall::CursorVisibility(0)), c);
                st.push(c);
            },
            Action::ShowCursor => {
                let c = driver::cursor_visibility(1);
                self.record_status(Ghost(DriverCall::CursorVisibility(1)), c);
                st.push(c);
            },
            Action::EnableBlinking => {
                let c = driver::set_blink(true);
                self.record_status(Ghost(DriverCall::Blink(true)), c);
                st.push(c);
            },
            Action::DisableBlinking => {
                let c = driver::set_blink(false);
                self.record_status(Ghost(DriverCall::Blink(false)), c);
                st.push(c);
            },
            Action::ClearTerminal(clear_type) => match clear_type {
                Clear::All => {
                    let c = driver::clear_all(&self.window);
                    self.record_status(Ghost(DriverCall::ClearAll), c);
                    st.push(c);
                },
                Clear::FromCursorDown => {
                    let c = driver::clear_to_bottom(&self.window);
                    self.record_status(Ghost(DriverCall::ClearToBottom), c);
                    st.push(c);
                },
                Clear::UntilNewLine => {
                    let c = driver::clear_to_eol(&self.window);
                    self.record_status(Ghost(DriverCall::ClearToEol), c);
                    st.push(c);
                },
                Clear::FromCursorUp | Clear::CurrentLine => {},
            },
            Action::SetTerminalSize(cols, rows) => {
                let c = driver::resize_term(rows as i32, cols as i32);
                self.record_status(Ghost(DriverCall::ResizeTerm { rows: rows as i32, cols: cols as i32 }), c);
                st.push(c);
            },
            Action::ScrollUp(_) | Action::ScrollDown(_) => {},
            Action::EnableRawMode => {
                let c = driver::echo_off();
                self.record_status(Ghost(DriverCall::Echo(false)), c);
                st.push(c);
                let c = driver::raw_on();
                self.record_status(Ghost(DriverCall::Raw(true)), c);
                st.push(c);
                let c = driver::newline_off();
                self.record_status(Ghost(DriverCall::Newline(false)), c);
                st.push(c);
            },
            Action::DisableRawMode => {
                let c = driver::echo_on();
                self.record_status(Ghost(DriverCall::Echo(true)), c);
                st.push(c);
                let c = driver::raw_off();
                self.record_status(Ghost(DriverCall::Raw(false)), c);
                st.push(c);
                let c = driver::newline_on();
                self.record_status(Ghost(DriverCall::Newline(true)), c);
                st.push(c);
            },
            Action::EnterAlternateScreen | Action::LeaveAlternateScreen => {},
            Action::EnableMouseCapture => {
                return self.send(ENABLE_MOUSE_CAPTURE);
            },
            Action::DisableMouseCapture => {
                return self.send(DISABLE_MOUSE_CAPTURE);
            },
            Action::SetForegroundColor(color) => {
                let (index, registration) = self.resolve_fg(color);
                if let Some(c) = registration {
                    st.push(c);
                }
                let c = driver::pair_on(&self.window, index);
                self.record_status(Ghost(DriverCall::PairOn(index)), c);
                st.push(c);
            },
            Action::SetBackgroundColor(color) => {
                let (index, registration) = self.resolve_bg(color);
                if let Some(c) = registration {
                    st.push(c);
                }
                let c = driver::pair_on(&self.window, index);
                self.record_status(Ghost(DriverCall::PairOn(index)), c);
                st.push(c);
            },
            Action::SetAttribute(attr) => {
                return self.set_attribute(attr);
            },
            Action::ResetColor => {},
        }
        proof {
            if is_color_action(action) {
                let k = match action {
                    Action::SetForegroundColor(c) => PairKey { fg: closest(c, old(self).colors()) as i16, bg: old(self).bg() },
                    Action::SetBackgroundColor(c) => PairKey { fg: old(self).fg(), bg: closest(c, old(self).colors()) as i16 },
                    _ => arbitrary(),
                };
                let pc = pair_calls(old(self).pairs(), old(self).max_pairs(), k);
                assert(pc =~= pc.drop_last().push(pc.last()));
                assert(self.calls@ =~= old(self).calls() + pc);
            } else {
                assert(self.calls@ =~= old(self).calls() + plain_calls(action));
            }
            assert(self.codes@ =~= old(self).codes() + st@);
            assert(self.codes@.skip(old(self).codes().len() as int) =~= st@);
            assert(self.codes@.take(old(self).codes().len() as int) =~= old(self).codes());
        }
        status_result(&st)
    }

    fn set_attribute(&mut self, attr: Attribute) -> (r: Result<(), ErrorKind>)
        requires
            old(self).wf(),
        ensures
            final(self).wf(),
            final(self).same_session(old(self)),
            final(self).pairs() == old(self).pairs(),
            final(self).fg() == old(self).fg(),
            final(self).bg() == old(self).bg(),
            final(self).calls() == old(self).calls() + attribute_calls(attr),
            appended(old(self).codes(), final(self).codes(), attribute_calls(attr).len() as int),
            r == if attribute_supported(attr) {
                status_of(new_codes(old(self), final(self)))
            } else {
                Err(ErrorKind::AttributeNotSupported(attr))
            },
    {
        let on = match attr {
            Attribute::Reset => Some(DriverAttribute::Normal),
            Attribute::Bold => Some(DriverAttribute::Bold),
            Attribute::Italic => Some(DriverAttribute::Italic),
            Attribute::Underlined => Some(DriverAttribute::Underline),
            Attribute::SlowBlink | Attribute::RapidBlink => Some(DriverAttribute::Blink),
            Attribute::Crossed => Some(DriverAttribute::Overline),
            Attribute::Reversed => Some(DriverAttribute::Reverse),
            Attribute::Conceal => Some(DriverAttribute::Invisible),
            _ => None,
        };
        let off = match attr {
            Attribute::BoldOff => Some(DriverAttribute::Bold),
            Attribute::ItalicOff => Some(DriverAttribute::Italic),
            Attribute::UnderlinedOff => Some(DriverAttribute::Underline),
            Attribute::BlinkOff => Some(DriverAttribute::Blink),
            Attribute::CrossedOff => Some(DriverAttribute::Overline),
            Attribute::ReversedOff => Some(DriverAttribute::Reverse),
            Attribute::ConcealOff => Some(DriverAttribute::Invisible),
            _ => None,
        };
        match on {
            Some(d) => {
                let c = driver::attr_on(&self.window, d);
                self.record_status(Ghost(DriverCall::AttrOn(d)), c);
                assert(self.calls@ =~= old(self).calls() + attribute_calls(attr));
                assert(self.codes@.skip(old(self).codes().len() as int) =~= seq![c]);
                assert(self.codes@.skip(old(self).codes().len() as int)[0] == c);
                assert(self.codes@.take(old(self).codes().len() as int) =~= old(self).codes());
                if c == ERR { Err(ErrorKind::IoError) } else { Ok(()) }
            },
            None => match off {
                Some(d) => {
                    let c = driver::attr_off(&self.window, d);
                    self.record_status(Ghost(DriverCall::AttrOff(d)), c);
                    assert(self.calls@ =~= old(self).calls() + attribute_calls(attr));
                    assert(self.codes@.skip(old(self).codes().len() as int) =~= seq![c]);
                    assert(self.codes@.skip(old(self).codes().len() as int)[0] == c);
                    assert(self.codes@.take(old(self).codes().len() as int) =~= old(self).codes());
                    if c == ERR { Err(ErrorKind::IoError) } else { Ok(()) }
                },
                None => {
                    assert(self.calls@ =~= old(self).calls() + attribute_calls(attr));
                    assert(self.codes@.take(old(self).codes().len() as int) =~= old(self).codes());
                    Err(ErrorKind::AttributeNotSupported(attr))
                },
            },
        }
    }


    /// Makes the driver show every change batched so far; with nothing
    /// pending this redraws nothing.
    pub fn flush_batch(&mut self) -> (r: Result<(), ErrorKind>)
        requires
            old(self).wf(),
        ensures
            flush_post(old(self), final(self), r),
    {
        let c = driver::refresh(&self.window);
        self.record_status(Ghost(DriverCall::Refresh), c);
        assert(self.codes@.skip(old(self).codes().len() as int) =~= seq![c]);
        assert(self.codes@.skip(old(self).codes().len() as int)[0] == c);
        assert(self.codes@.take(old(self).codes().len() as int) =~= old(self).codes());
        if c == ERR {
            Err(ErrorKind::IoError)
        } else {
            Ok(())
        }
    }

    /// `batch` followed by `flush_batch` when the batch succeeded.
    pub fn act(&mut self, action: Action) -> (r: Result<(), ErrorKind>)
        requires
            old(self).wf(),
        ensures
            act_post(old(self), action, final(self), r),
    {
        let rb = self.batch(action);
        let ghost mid = *self;
        assert(batch_post(old(self), action, &mid, rb));
        if rb.is_err() {
            return rb;
        }
        self.flush_batch()
    }

    /// Writes `text` into the window at the cursor, as it is. The driver
    /// takes text as a C string, so it may not hold a NUL character.
    pub fn print(&mut self, text: &str)
        requires
            old(self).wf(),
            !text@.contains('\0'),
        ensures
            final(self).wf(),
            final(self).same_session(old(self)),
            final(self).pairs() == old(self).pairs(),
            final(self).fg() == old(self).fg(),
            final(self).bg() == old(self).bg(),
            final(self).calls() == old(self).calls().push(DriverCall::Print(text@)),
            appended(old(self).codes(), final(self).codes(), 1),
    {
        let c = driver::print_str(&self.window, text);
        self.record_status(Ghost(DriverCall::Print(text@)), c);
        assert(self.codes@.take(old(self).codes().len() as int) =~= old(self).codes());
    }

    /// Writes one character into the window at the cursor; `false` where
    /// the driver reports a failure.
    pub fn print_char(&mut self, character: char) -> (r: bool)
        requires
            old(self).wf(),
        ensures
            final(self).wf(),
            final(self).same_session(old(self)),
            final(self).pairs() == old(self).pairs(),
            final(self).fg() == old(self).fg(),
            final(self).bg() == old(self).bg(),
            final(self).calls() == old(self).calls().push(DriverCall::AddChar(character)),
            appended(old(self).codes(), final(self).codes(), 1),
            r == (final(self).codes().last() != ERR),
    {
        let c = driver::add_char(&self.window, character);
        self.record_status(Ghost(DriverCall::AddChar(character)), c);
        assert(self.codes@.take(old(self).codes().len() as int) =~= old(self).codes());
        c != ERR
    }

    /// Holds `event` back for the next event retrieval, in place of any
    /// event held before.
    pub fn update_input_buffer(&mut self, event: Event)
        ensures
            final(self).staged() == Some(event),
            final(self).last_button() == old(self).last_button(),
            final(self).keys() == old(self).keys(),
            final(self).colors() == old(self).colors(),
            final(self).max_pairs() == old(self).max_pairs(),
            final(self).pairs() == old(self).pairs(),
            final(self).fg() == old(self).fg(),
            final(self).bg() == old(self).bg(),
            final(self).calls() == old(self).calls(),
            final(self).codes() == old(self).codes(),
    {
        self.stored_event = Some(event);
    }

    /// Takes the held-back event, leaving none.
    pub fn try_take(&mut self) -> (r: Option<Event>)
        ensures
            r == old(self).staged(),
            final(self).staged() is None,
            final(self).last_button() == old(self).last_button(),
            final(self).keys() == old(self).keys(),
            final(self).colors() == old(self).colors(),
            final(self).max_pairs() == old(self).max_pairs(),
            final(self).pairs() == old(self).pairs(),
            final(self).fg() == old(self).fg(),
            final(self).bg() == old(self).bg(),
            final(self).calls() == old(self).calls(),
            final(self).codes() == old(self).codes(),
    {
        self.stored_event.take()
    }

    /// Remembers `btn` as the last mouse button seen going down.
    pub fn update_last_btn(&mut self, btn: MouseButton)
        ensures
            final(self).last_button() == Some(btn),
            final(self).staged() == old(self).staged(),
            final(self).keys() == old(self).keys(),
            final(self).colors() == old(self).colors(),
            final(self).max_pairs() == old(self).max_pairs(),
            final(self).pairs() == old(self).pairs(),
            final(self).fg() == old(self).fg(),
            final(self).bg() == old(self).bg(),
            final(self).calls() == old(self).calls(),
            final(self).codes() == old(self).codes(),
    {
        self.last_mouse_button = Some(btn);
    }

    /// The last mouse button seen going down, if any.
    pub fn get_last_btn(&self) -> (r: Option<MouseButton>)
        ensures
            r == self.last_button(),
    {
        self.last_mouse_button
    }

    /// The event for one unit of input that is not a mouse report.
    pub fn event_from_input(&self, raw: RawInput) -> (r: Event)
        ensures
            r == input_event(raw, self.keys()),
    {
        let plain = KeyModifiers { bits: 0 };
        match raw {
            RawInput::Character(c) => Event::Key(KeyEvent { code: KeyCode::Char(c), modifiers: plain }),
            RawInput::Unknown(n) => match self.key_codes.get(&n) {
                Some(e) => *e,
                None => Event::Unknown,
            },
            RawInput::KeyUp => Event::Key(KeyEvent { code: KeyCode::Up, modifiers: plain }),
            RawInput::KeyDown => Event::Key(KeyEvent { code: KeyCode::Down, modifiers: plain }),
            RawInput::KeyLeft => Event::Key(KeyEvent { code: KeyCode::Left, modifiers: plain }),
            RawInput::KeyRight => Event::Key(KeyEvent { code: KeyCode::Right, modifiers: plain }),
            RawInput::KeyHome => Event::Key(KeyEvent { code: KeyCode::Home, modifiers: plain }),
            RawInput::KeyEnd => Event::Key(KeyEvent { code: KeyCode::End, modifiers: plain }),
            RawInput::KeyNPage => Event::Key(KeyEvent { code: KeyCode::PageDown, modifiers: plain }),
            RawInput::KeyPPage => Event::Key(KeyEvent { code: KeyCode::PageUp, modifiers: plain }),
            RawInput::KeyDC => Event::Key(KeyEvent { code: KeyCode::Delete, modifiers: plain }),
            RawInput::KeyIC => Event::Key(KeyEvent { code: KeyCode::Insert, modifiers: plain }),
            RawInput::KeyBackspace => Event::Key(KeyEvent { code: KeyCode::Backspace, modifiers: plain }),
            RawInput::KeyResize => Event::Resize,
            RawInput::KeyMouse | RawInput::Other => Event::Unknown,
        }
    }

    /// Answers a query. For an event, a held-back event is delivered at
    /// once whatever the timeout; otherwise the driver is given the
    /// timeout and polled for one unit of input, which is translated
    /// (mouse reports through the remembered button); no input within the
    /// timeout is no event.
    pub fn get(&mut self, retrieve_operation: Value) -> (r: Result<Retrieved, ErrorKind>)
        requires
            old(self).wf(),
        ensures
            get_post(old(self), retrieve_operation, final(self), r),
    {
        match retrieve_operation {
            Value::TerminalSize => {
                let (y, x) = driver::max_yx(&self.window);
                self.record(Ghost(DriverCall::QueryMaxYX(y, x)));
                Ok(Retrieved::TerminalSize(#[verifier::truncate] (x as u16), #[verifier::truncate] (y as u16)))
            },
            Value::CursorPosition => {
                let (y, x) = driver::cur_yx(&self.window);
                self.record(Ghost(DriverCall::QueryCurYX(y, x)));
                Ok(Retrieved::CursorPosition(#[verifier::truncate] (x as u16), #[verifier::truncate] (y as u16)))
            },
            Value::Event(duration) => {
                if let Some(event) = self.try_take() {
                    return Ok(Retrieved::Event(Some(event)));
                }
                let ms: i32 = match duration {
                    None => -1,
                    Some(ms) => if ms > i32::MAX as u64 { i32::MAX } else { ms as i32 },
                };
                driver::set_timeout(&self.window, ms);
                self.record(Ghost(DriverCall::Timeout(ms)));
                let input = driver::read_input(&self.window);
                self.record(Ghost(DriverCall::ReadInput(input)));
                let ghost n = old(self).calls().len() as int;
                assert(self.calls@.take(n + 1) =~= old(self).calls().push(DriverCall::Timeout(ms)));
                match input {
                    None => Ok(Retrieved::Event(None)),
                    Some(RawInput::KeyMouse) => {
                        let report = driver::read_mouse();
                        self.record(Ghost(DriverCall::ReadMouse(report)));
                        assert(self.calls@.take(n + 1) =~= old(self).calls().push(
                            DriverCall::Timeout(ms),
                        ));
                        match report {
                            Some((bstate, x, y)) => {
                                let d = decode_mouse(bstate, x, y, self.last_mouse_button);
                                self.last_mouse_button = d.last_button;
                                match d.event {
                                    Some(m) => Ok(Retrieved::Event(Some(Event::Mouse(m)))),
                                    None => Ok(Retrieved::Event(None)),
                                }
                            },
                            None => Ok(Retrieved::Event(None)),
                        }
                    },
                    Some(raw) => Ok(Retrieved::Event(Some(self.event_from_input(raw)))),
                }
            },
        }
    }


    fn release(&mut self)
        requires
            old(self).wf(),
        ensures
            final(self).calls() == old(self).calls() + teardown_calls(),
    {
        let _ = driver::write_out(DISABLE_MOUSE_CAPTURE);
        self.record(Ghost(DriverCall::Write(DISABLE_MOUSE_CAPTURE@)));
        let _ = driver::flush_out();
        self.record(Ghost(DriverCall::FlushOut));
        driver::end_window();
        self.record(Ghost(DriverCall::EndWin));
        assert(self.calls@ =~= old(self).calls() + teardown_calls());
    }

    /// Ends the session: writes the sequence that turns the mouse reports
    /// off, flushes it out and then ends the driver's session, whether or
    /// not the writes succeed. It consumes the backend, so it runs once;
    /// the result is the whole record of the session's calls.
    pub fn close(self) -> (log: Ghost<Seq<DriverCall>>)
        requires
            self.wf(),
        ensures
            log@ == self.calls() + teardown_calls(),
    {
        let mut me = self;
        me.release();
        Ghost(me.calls@)
    }

    /// Sets up a session on the driver's window: extended keys decoded,
    /// colours on with the terminal's own colour as default, every mouse
    /// event reported, and the key table built from the names the driver
    /// gives for each code of the extended-key window.
    pub fn with_window(window: pancurses::Window, max_pairs: i16) -> (r: BackendImpl)
        requires
            2 <= max_pairs,
        ensures
            r.wf(),
            r.calls().len() == setup_calls().len() + KEY_CODES_COUNT,
            r.calls().take(setup_calls().len() as int) == setup_calls(),
            r.calls().skip(setup_calls().len() as int) == key_queries(
                logged_names(r.calls().skip(setup_calls().len() as int)),
            ),
            r.keys() == key_table(logged_names(r.calls().skip(setup_calls().len() as int))),
            r.codes() == Seq::<i32>::empty(),
            r.staged() is None,
            r.last_button() is None,
            r.pairs() == Seq::<PairKey>::empty(),
            r.max_pairs() == max_pairs,
            r.fg() == -1 && r.bg() == -1,
            0 <= r.colors(),
    {
        driver::keypad_on(&window);
        driver::start_color();
        driver::use_default_colors();
        driver::mouse_mask_all();
        let n = driver::palette_size();
        let colors: i16 = if n < 0 {
            0
        } else if n > i16::MAX as i32 {
            i16::MAX
        } else {
            n as i16
        };
        let (key_codes, names) = initialize_keymap();
        let ghost made = setup_calls() + key_queries(names@);
        proof {
            assert(made.take(setup_calls().len() as int) =~= setup_calls());
            assert(made.skip(setup_calls().len() as int) =~= key_queries(names@));
            assert(logged_names(key_queries(names@)) =~= names@);
        }
        BackendImpl {
            window,
            last_mouse_button: None,
            stored_event: None,
            color_pairs: ColorPairs::new(max_pairs),
            colors,
            fg: -1,
            bg: -1,
            key_codes,
            calls: Ghost(made),
            codes: Ghost(Seq::empty()),
        }
    }
}

/// Asks the driver for the name of every code of the extended-key window,
/// in increasing order, and builds the key table from the answers; the
/// answers come back beside the table.
fn initialize_keymap() -> (r: (HashMap<i32, Event>, Ghost<Seq<Option<Seq<char>>>>))
    ensures
        r.1@.len() == KEY_CODES_COUNT,
        r.0@ == key_table(r.1@),
{
    let mut names: Vec<Option<String>> = Vec::new();
    let mut i: usize = 0;
    while i < KEY_CODES_COUNT
        invariant
            i <= KEY_CODES_COUNT,
            names@.len() == i,
        decreases KEY_CODES_COUNT - i,
    {
        names.push(driver::key_name(KEY_CODES_START + i as i32));
        i = i + 1;
    }
    let mut map: HashMap<i32, Event> = HashMap::new();
    fill_key_codes(&mut map, &names);
    let ghost answers = names_view(names@);
    assert(map@ =~= key_table(answers));
    (map, Ghost(answers))
}

/// Interface to a terminal driver: actions applied in batches, a flush
/// that shows them, and queries. Each operation is described by a
/// relation between the session before and after it and its result.
pub trait Backend {
    /// The session is in a state the operations accept.
    spec fn ready(&self) -> bool;

    spec fn act_spec(&self, action: Action, after: &Self, r: Result<(), ErrorKind>) -> bool;

    spec fn batch_spec(&self, action: Action, after: &Self, r: Result<(), ErrorKind>) -> bool;

    spec fn flush_spec(&self, after: &Self, r: Result<(), ErrorKind>) -> bool;

    spec fn get_spec(&self, q: Value, after: &Self, r: Result<Retrieved, ErrorKind>) -> bool;

    fn act(&mut self, action: Action) -> (r: Result<(), ErrorKind>)
        requires
            old(self).ready(),
        ensures
            final(self).ready(),
            old(self).act_spec(action, final(self), r),
    ;

    fn batch(&mut self, action: Action) -> (r: Result<(), ErrorKind>)
        requires
            old(self).ready(),
        ensures
            final(self).ready(),
            old(self).batch_spec(action, final(self), r),
    ;

    fn flush_batch(&mut self) -> (r: Result<(), ErrorKind>)
        requires
            old(self).ready(),
        ensures
            final(self).ready(),
            old(self).flush_spec(final(self), r),
    ;

    fn get(&mut self, retrieve_operation: Value) -> (r: Result<Retrieved, ErrorKind>)
        requires
            old(self).ready(),
        ensures
            final(self).ready(),
            old(self).get_spec(retrieve_operation, final(self), r),
    ;
}

impl Backend for BackendImpl {
    open spec fn ready(&self) -> bool {
        self.wf()
    }

    open spec fn act_spec(&self, action: Action, after: &Self, r: Result<(), ErrorKind>) -> bool {
        act_post(self, action, after, r)
    }

    open spec fn batch_spec(&self, action: Action, after: &Self, r: Result<(), ErrorKind>) -> bool {
        batch_post(self, action, after, r)
    }

    open spec fn flush_spec(&self, after: &Self, r: Result<(), ErrorKind>) -> bool {
        flush_post(self, after, r)
    }

    open spec fn get_spec(&self, q: Value, after: &Self, r: Result<Retrieved, ErrorKind>) -> bool {
        get_post(self, q, after, r)
    }

    fn act(&mut self, action: Action) -> (r: Result<(), ErrorKind>) {
        BackendImpl::act(self, action)
    }

    fn batch(&mut self, action: Action) -> (r: Result<(), ErrorKind>) {
        BackendImpl::batch(self, action)
    }

    fn flush_batch(&mut self) -> (r: Result<(), ErrorKind>) {
        BackendImpl::flush_batch(self)
    }

    fn get(&mut self, retrieve_operation: Value) -> (r: Result<Retrieved, ErrorKind>) {
        BackendImpl::get(self, retrieve_operation)
    }
}

/// An event put back with `update_input_buffer` is delivered by the next
/// event retrieval, whatever its timeout, without a driver call; the
/// retrieval after that finds nothing staged and polls the driver with
/// its own timeout.
pub proof fn lemma_staged_event_delivered_once(
    b0: BackendImpl,
    b1: BackendImpl,
    b2: BackendImpl,
    e: Event,
    t1: Option<u64>,
    t2: Option<u64>,
    r1: Result<Retrieved, ErrorKind>,
    r2: Result<Retrieved, ErrorKind>,
)
    requires
        b0.wf(),
        b0.staged() == Some(e),
        get_post(&b0, Value::Event(t1), &b1, r1),
        get_post(&b1, Value::Event(t2), &b2, r2),
    ensures
        r1 == Ok::<Retrieved, ErrorKind>(Retrieved::Event(Some(e))),
        b1.calls() == b0.calls(),
        b1.staged() is None,
        b2.calls().len() >= b1.calls().len() + 2,
        b2.calls()[b1.calls().len() as int] == DriverCall::Timeout(timeout_ms(t2)),
        b2.calls()[b1.calls().len() + 1int] is ReadInput,
{
    let n = b1.calls().len() as int;
    assert(b2.calls().take(n + 1)[n] == b2.calls()[n]);
}

/// An event retrieval with a zero timeout and nothing staged hands the
/// driver a timeout of zero, under which a read does not wait, and when
/// the read brings no input the answer is no event, not an error.
pub proof fn lemma_zero_timeout_polls_without_waiting(
    b0: BackendImpl,
    b1: BackendImpl,
    r: Result<Retrieved, ErrorKind>,
)
    requires
        b0.wf(),
        b0.staged() is None,
        get_post(&b0, Value::Event(Some(0)), &b1, r),
        polled_input(b1.calls()[b0.calls().len() + 1int]) is None,
    ensures
        b1.calls() == b0.calls() + seq![DriverCall::Timeout(0), DriverCall::ReadInput(None)],
        r == Ok::<Retrieved, ErrorKind>(Retrieved::Event(None)),
{
    let n = b0.calls().len() as int;
    assert(b1.calls().take(n + 1)[n] == b1.calls()[n]);
    assert forall|i: int| 0 <= i < n implies b1.calls()[i] == b0.calls()[i] by {
        assert(b1.calls().take(n + 1)[i] == b1.calls()[i]);
    }
    assert(b1.calls() =~= b0.calls() + seq![DriverCall::Timeout(0), DriverCall::ReadInput(None)]);
}

/// Setting as foreground two colours that reduce to the same palette
/// entry (the same colour twice, say) registers their pair once: the
/// second time the pair is only activated again, under the same index.
pub proof fn lemma_repeated_color_registers_once(
    b0: BackendImpl,
    b1: BackendImpl,
    b2: BackendImpl,
    c1: Color,
    c2: Color,
    r1: Result<(), ErrorKind>,
    r2: Result<(), ErrorKind>,
)
    requires
        b0.wf(),
        closest(c1, b0.colors()) == closest(c2, b0.colors()),
        batch_post(&b0, Action::SetForegroundColor(c1), &b1, r1),
        batch_post(&b1, Action::SetForegroundColor(c2), &b2, r2),
    ensures
        b2.calls() == b1.calls().push(b1.calls().last()),
        b1.calls().last() is PairOn,
        b2.pairs() == b1.pairs(),
        b2.codes().len() == b1.codes().len() + 1,
        forall|i: int| b1.calls().len() <= i < b2.calls().len() ==> !(#[trigger] b2.calls()[i] is InitPair),
{
    let k = PairKey { fg: closest(c1, b0.colors()) as i16, bg: b0.bg() };
    let s0 = b0.pairs();
    let s1 = b1.pairs();
    let max = b0.max_pairs();
    assert(b1.fg() == k.fg);
    let k2 = PairKey { fg: closest(c2, b1.colors()) as i16, bg: b1.bg() };
    assert(k2 == k);
    crate::pairs::lemma_same_reduction_same_pair(s0, max, b0.colors(), c1, c2, b0.bg());
    assert(!registers(s1, k));
    assert(pair_calls(s1, max, k) =~= seq![DriverCall::PairOn(index_for(s0, max, k) as i32)]);
    assert(pair_calls(s0, max, k).last() == DriverCall::PairOn(index_for(s0, max, k) as i32));
    assert(s1 == after_request(s1, max, k));
}

} // verus!
