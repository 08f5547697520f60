use std::collections::HashMap;
use terminal_curses::keymap::{fill_key_codes, key_event_for_name, KEY_CODES_START};
use terminal_curses::types::{Event, KeyCode, KeyEvent, KeyModifiers, MOD_ALT, MOD_CONTROL, MOD_SHIFT};

fn key(code: KeyCode, bits: u8) -> Option<Event> {
    Some(Event::Key(KeyEvent { code, modifiers: KeyModifiers::from_bits(bits) }))
}

#[test]
fn names_translate_with_their_modifier_digit() {
    assert_eq!(key_event_for_name("kDC3"), key(KeyCode::Delete, MOD_ALT));
    assert_eq!(key_event_for_name("kDN4"), key(KeyCode::Down, MOD_ALT | MOD_SHIFT));
    assert_eq!(key_event_for_name("kEND5"), key(KeyCode::End, MOD_CONTROL));
    assert_eq!(key_event_for_name("kHOM6"), key(KeyCode::Home, MOD_CONTROL | MOD_SHIFT));
    assert_eq!(key_event_for_name("kIC7"), key(KeyCode::Insert, MOD_CONTROL | MOD_ALT));
    assert_eq!(key_event_for_name("kLFT5"), key(KeyCode::Left, MOD_CONTROL));
    assert_eq!(key_event_for_name("kNXT3"), key(KeyCode::PageDown, MOD_ALT));
    assert_eq!(key_event_for_name("kPRV3"), key(KeyCode::PageUp, MOD_ALT));
    assert_eq!(key_event_for_name("kRIT7"), key(KeyCode::Right, MOD_CONTROL | MOD_ALT));
    assert_eq!(key_event_for_name("kUP5"), key(KeyCode::Up, MOD_CONTROL));
}

#[test]
fn other_names_are_skipped() {
    assert_eq!(key_event_for_name("KEY_DC"), None);
    assert_eq!(key_event_for_name("kDC2"), None);
    assert_eq!(key_event_for_name("kDC8"), None);
    assert_eq!(key_event_for_name("kFOO5"), None);
    assert_eq!(key_event_for_name("k"), None);
    assert_eq!(key_event_for_name(""), None);
    assert_eq!(key_event_for_name("kDC"), None);
}

#[test]
fn fill_key_codes_maps_window_codes() {
    let names = vec![
        Some("kDC5".to_string()),
        None,
        Some("kUP3".to_string()),
        Some("KEY_F(1)".to_string()),
    ];
    let mut map = HashMap::new();
    map.insert(7, Event::Resize);
    fill_key_codes(&mut map, &names);
    assert_eq!(map.len(), 3);
    assert_eq!(map.get(&7), Some(&Event::Resize));
    assert_eq!(map.get(&KEY_CODES_START).copied(), key(KeyCode::Delete, MOD_CONTROL));
    assert_eq!(map.get(&(KEY_CODES_START + 2)).copied(), key(KeyCode::Up, MOD_ALT));
    assert_eq!(map.get(&(KEY_CODES_START + 1)), None);
}

#[test]
fn key_table_is_the_same_for_the_same_names() {
    let names: Vec<Option<String>> =
        vec![Some("kLFT5".to_string()), Some("kRIT6".to_string()), None, Some("kHOM3".to_string())];
    let mut a = HashMap::new();
    let mut b = HashMap::new();
    fill_key_codes(&mut a, &names);
    fill_key_codes(&mut b, &names);
    assert_eq!(a, b);
    assert_eq!(a.len(), 3);
}

#[test]
fn modifier_sets_combine() {
    let m = KeyModifiers::from_bits(MOD_CONTROL).union(KeyModifiers::from_bits(MOD_SHIFT));
    assert_eq!(m.bits, 3);
    assert!(m.contains(MOD_CONTROL));
    assert!(!m.contains(MOD_ALT));
    assert_eq!(KeyModifiers::empty().bits, 0);
}
