use terminal_curses::palette::find_closest;
use terminal_curses::pairs::{ColorPairs, PairKey};
use terminal_curses::types::Color;

fn key(fg: i16) -> PairKey {
    PairKey { fg, bg: -1 }
}

#[test]
fn colors_with_the_same_reduction_share_a_pair() {
    let mut table = ColorPairs::new(256);
    let a = table.request(key(find_closest(Color::Red, 8)));
    let b = table.request(key(find_closest(Color::DarkRed, 8)));
    assert_eq!(a.index, b.index);
    assert!(a.registered);
    assert!(!b.registered);
    assert_eq!(table.len(), 1);
}

#[test]
fn distinct_colors_fill_indices_in_order_without_eviction() {
    let mut table = ColorPairs::new(256);
    for i in 0..255i16 {
        let r = table.request(key(i));
        assert_eq!(r.index, i as i32 + 1);
        assert!(r.registered);
        assert_eq!(r.evicted, None);
    }
    assert_eq!(table.len(), 255);
}

#[test]
fn one_color_over_capacity_evicts_the_highest_slot_once() {
    let mut table = ColorPairs::new(8);
    for i in 0..7i16 {
        assert_eq!(table.request(key(i)).evicted, None);
    }
    let over = table.request(key(100));
    assert_eq!(over.index, 7);
    assert!(over.registered);
    assert_eq!(over.evicted, Some(key(6)));
    assert_eq!(table.len(), 7);
    let again = table.request(key(6));
    assert!(again.registered);
    assert_eq!(again.index, 7);
    assert_eq!(again.evicted, Some(key(100)));
    let kept = table.request(key(0));
    assert!(!kept.registered);
    assert_eq!(kept.index, 1);
}

#[test]
fn smallest_table_holds_one_pair() {
    let mut table = ColorPairs::new(2);
    let a = table.request(key(1));
    assert_eq!((a.index, a.registered, a.evicted), (1, true, None));
    let b = table.request(key(2));
    assert_eq!((b.index, b.registered, b.evicted), (1, true, Some(key(1))));
}

#[test]
fn foreground_red_twice_registers_one_pair() {
    let mut table = ColorPairs::new(256);
    let red = key(find_closest(Color::Red, 256));
    let first = table.request(red);
    let second = table.request(red);
    let registrations = [first.registered, second.registered].iter().filter(|r| **r).count();
    assert_eq!(registrations, 1);
    assert_eq!(first.index, second.index);
}

#[test]
fn foreground_and_background_combinations_are_separate_pairs() {
    let mut table = ColorPairs::new(256);
    let a = table.request(PairKey { fg: 1, bg: -1 });
    let b = table.request(PairKey { fg: 1, bg: 4 });
    let c = table.request(PairKey { fg: -1, bg: 1 });
    assert_eq!((a.index, b.index, c.index), (1, 2, 3));
}
