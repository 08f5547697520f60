//! Translation of the driver's extended key codes, through the symbolic
//! names it reports for them, into structured key events.
use std::collections::HashMap;
use vstd::prelude::*;
use crate::types::{Event, KeyCode, KeyEvent, KeyModifiers, MOD_ALT, MOD_CONTROL, MOD_SHIFT};

verus! {

broadcast use vstd::std_specs::hash::group_hash_axioms;

/// First raw code of the driver's window of extended keys.
pub const KEY_CODES_START: i32 = 512;

/// Number of raw codes in that window.
pub const KEY_CODES_COUNT: usize = 512;

/// The keys that have a structured translation, by their base name.
pub open spec fn base_key(b: Seq<char>) -> Option<KeyCode> {
    if b == seq!['D', 'C'] {
        Some(KeyCode::Delete)
    } else if b == seq!['D', 'N'] {
        Some(KeyCode::Down)
    } else if b == seq!['E', 'N', 'D'] {
        Some(KeyCode::End)
    } else if b == seq!['H', 'O', 'M'] {
        Some(KeyCode::Home)
    } else if b == seq!['I', 'C'] {
        Some(KeyCode::Insert)
    } else if b == seq!['L', 'F', 'T'] {
        Some(KeyCode::Left)
    } else if b == seq!['N', 'X', 'T'] {
        Some(KeyCode::PageDown)
    } else if b == seq!['P', 'R', 'V'] {
        Some(KeyCode::PageUp)
    } else if b == seq!['R', 'I', 'T'] {
        Some(KeyCode::Right)
    } else if b == seq!['U', 'P'] {
        Some(KeyCode::Up)
    } else {
        None
    }
}

/// The modifier bits that a name's trailing digit stands for. `6` is
/// Control+Shift, as in the terminal's modifier numbering, and not a
/// second plain Control beside `5`.
pub open spec fn suffix_modifiers(c: char) -> Option<u8> {
    if c == '3' {
        Some(MOD_ALT)
    } else if c == '4' {
        Some((MOD_ALT + MOD_SHIFT) as u8)
    } else if c == '5' {
        Some(MOD_CONTROL)
    } else if c == '6' {
        Some((MOD_CONTROL + MOD_SHIFT) as u8)
    } else if c == '7' {
        Some((MOD_CONTROL + MOD_ALT) as u8)
    } else {
        None
    }
}

/// The event a symbolic key name translates to: the special-key marker
/// `k`, a base name, and one modifier digit (`kDC5` is Control+Delete).
pub open spec fn name_event(s: Seq<char>) -> Option<Event> {
    if s.len() >= 2 && s[0] == 'k' {
        match (base_key(s.subrange(1, s.len() - 1)), suffix_modifiers(s.last())) {
            (Some(code), Some(bits)) => Some(
                Event::Key(KeyEvent { code, modifiers: KeyModifiers { bits } }),
            ),
            _ => None,
        }
    } else {
        None
    }
}

/// The event for the code at position `i` of the window, given the
/// driver's name for each code of it.
pub open spec fn entry_for(names: Seq<Option<Seq<char>>>, i: int) -> Option<Event> {
    if 0 <= i < names.len() && i < KEY_CODES_COUNT {
        match names[i] {
            Some(s) => name_event(s),
            None => None,
        }
    } else {
        None
    }
}

/// The key table that the driver's names give.
pub open spec fn key_table(names: Seq<Option<Seq<char>>>) -> Map<i32, Event> {
    Map::new(
        |c: i32| entry_for(names, c - KEY_CODES_START) is Some,
        |c: i32| entry_for(names, c - KEY_CODES_START)->0,
    )
}

/// The names as character sequences.
pub open spec fn names_view(names: Seq<Option<String>>) -> Seq<Option<Seq<char>>> {
    names.map_values(|o: Option<String>| match o {
        Some(s) => Some(s@),
        None => None,
    })
}

fn modifiers_of(c: char) -> (r: Option<u8>)
    ensures
        r == suffix_modifiers(c),
{
    if c == '3' {
        Some(MOD_ALT)
    } else if c == '4' {
        Some(MOD_ALT + MOD_SHIFT)
    } else if c == '5' {
        Some(MOD_CONTROL)
    } else if c == '6' {
        Some(MOD_CONTROL + MOD_SHIFT)
    } else if c == '7' {
        Some(MOD_CONTROL + MOD_ALT)
    } else {
        None
    }
}

fn base_key_of(name: &str, len: usize) -> (r: Option<KeyCode>)
    requires
        len == name@.len(),
        len >= 2,
    ensures
        r == base_key(name@.subrange(1, len - 1)),
{
    let b = Ghost(name@.subrange(1, len - 1));
    if len == 4 {
        let c1 = name.get_char(1);
        let c2 = name.get_char(2);
        assert(b@ =~= seq![c1, c2]);
        if c1 == 'D' && c2 == 'C' {
            Some(KeyCode::Delete)
        } else if c1 == 'D' && c2 == 'N' {
            Some(KeyCode::Down)
        } else if c1 == 'I' && c2 == 'C' {
            Some(KeyCode::Insert)
        } else if c1 == 'U' && c2 == 'P' {
            Some(KeyCode::Up)
        } else {
            None
        }
    } else if len == 5 {
        let c1 = name.get_char(1);
        let c2 = name.get_char(2);
        let c3 = name.get_char(3);
        assert(b@ =~= seq![c1, c2, c3]);
        if c1 == 'E' && c2 == 'N' && c3 == 'D' {
            Some(KeyCode::End)
        } else if c1 == 'H' && c2 == 'O' && c3 == 'M' {
            Some(KeyCode::Home)
        } else if c1 == 'L' && c2 == 'F' && c3 == 'T' {
            Some(KeyCode::Left)
        } else if c1 == 'N' && c2 == 'X' && c3 == 'T' {
            Some(KeyCode::PageDown)
        } else if c1 == 'P' && c2 == 'R' && c3 == 'V' {
            Some(KeyCode::PageUp)
        } else if c1 == 'R' && c2 == 'I' && c3 == 'T' {
            Some(KeyCode::Right)
        } else {
            None
        }
    } else {
        assert(b@.len() != 2 && b@.len() != 3);
        assert(b@ != seq!['D', 'C']);
        assert(b@ != seq!['E', 'N', 'D']);
        None
    }
}

/// Translates one symbolic key name; names outside the table give `None`.
pub fn key_event_for_name(name: &str) -> (r: Option<Event>)
    ensures
        r == name_event(name@),
{
    let len = name.unicode_len();
    if len < 2 || name.get_char(0) != 'k' {
        return None;
    }
    let code = match base_key_of(name, len) {
        Some(code) => code,
        None => return None,
    };
    let bits = match modifiers_of(name.get_char(len - 1)) {
        Some(bits) => bits,
        None => return None,
    };
    Some(Event::Key(KeyEvent { code, modifiers: KeyModifiers { bits } }))
}

/// Adds to `target` an event for every code of the extended-key window
/// whose name translates: `names[i]` is the driver's name for code
/// `KEY_CODES_START + i`, `None` where it has none.
pub fn fill_key_codes(target: &mut HashMap<i32, Event>, names: &Vec<Option<String>>)
    ensures
        final(target)@ == old(target)@.union_prefer_right(key_table(names_view(names@))),
{
    let ghost view = names_view(names@);
    let ghost start = old(target)@;
    let n: usize = if names.len() < KEY_CODES_COUNT {
        names.len()
    } else {
        KEY_CODES_COUNT
    };
    let mut i: usize = 0;
    while i < n
        invariant
            n <= names@.len(),
            n <= KEY_CODES_COUNT,
            i <= n,
            view == names_view(names@),
            forall|c: i32| #[trigger]
                target@.contains_key(c) <==> (start.contains_key(c) || (c - KEY_CODES_START < i
                    && entry_for(view, c - KEY_CODES_START) is Some)),
            forall|c: i32| #[trigger]
                target@.contains_key(c) ==> target@[c] == if c - KEY_CODES_START < i && entry_for(
                    view,
                    c - KEY_CODES_START,
                ) is Some {
                    entry_for(view, c - KEY_CODES_START)->0
                } else {
                    start[c]
                },
        decreases n - i,
    {
        let code: i32 = KEY_CODES_START + i as i32;
        assert(view[i as int] == match names@[i as int] {
            Some(s) => Some(s@),
            None => None,
        });
        match &names[i] {
            Some(name) => {
                match key_event_for_name(name.as_str()) {
                    Some(event) => {
                        target.insert(code, event);
                    },
                    None => {},
                }
            },
            None => {},
        }
        i = i + 1;
    }
    proof {
        assert forall|c: i32| #[trigger] entry_for(view, c - KEY_CODES_START) is Some implies c
            - KEY_CODES_START < n by {}
    }
    assert(target@ =~= start.union_prefer_right(key_table(view)));
}

/// Building the key table twice from the same driver names, each time
/// into an empty map as `fill_key_codes` does, gives the same table; each
/// code's entry depends on that code's name alone.
pub proof fn lemma_key_table_deterministic(
    names1: Seq<Option<Seq<char>>>,
    names2: Seq<Option<Seq<char>>>,
    t1: Map<i32, Event>,
    t2: Map<i32, Event>,
)
    requires
        names1 == names2,
        t1 == Map::<i32, Event>::empty().union_prefer_right(key_table(names1)),
        t2 == Map::<i32, Event>::empty().union_prefer_right(key_table(names2)),
    ensures
        t1 == t2,
        forall|c: i32| #[trigger]
            t1.contains_key(c) <==> (KEY_CODES_START <= c < KEY_CODES_START + KEY_CODES_COUNT
                && c - KEY_CODES_START < names1.len() && ({
                let name = names1[c - KEY_CODES_START];
                name is Some && name_event(name->0) is Some
            })),
{
}

} // verus!
