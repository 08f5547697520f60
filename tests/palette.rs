use terminal_curses::palette::find_closest;
use terminal_curses::types::Color;

#[test]
fn named_colors_keep_their_index_on_sixteen_colors() {
    assert_eq!(find_closest(Color::Black, 16), 0);
    assert_eq!(find_closest(Color::DarkRed, 16), 1);
    assert_eq!(find_closest(Color::Red, 16), 9);
    assert_eq!(find_closest(Color::White, 256), 15);
}

#[test]
fn bright_named_colors_fold_onto_eight_colors() {
    assert_eq!(find_closest(Color::Red, 8), 1);
    assert_eq!(find_closest(Color::DarkRed, 8), 1);
    assert_eq!(find_closest(Color::White, 8), 7);
}

#[test]
fn reset_and_monochrome_give_the_default_color() {
    assert_eq!(find_closest(Color::Reset, 256), -1);
    assert_eq!(find_closest(Color::Red, 0), -1);
    assert_eq!(find_closest(Color::AnsiValue(3), 2), -1);
}

#[test]
fn rgb_goes_to_the_color_cube_on_256_colors() {
    assert_eq!(find_closest(Color::Rgb { r: 255, g: 0, b: 0 }, 256), 196);
    assert_eq!(find_closest(Color::Rgb { r: 0, g: 0, b: 0 }, 256), 16);
    assert_eq!(find_closest(Color::Rgb { r: 255, g: 255, b: 255 }, 256), 231);
    assert_eq!(find_closest(Color::Rgb { r: 130, g: 30, b: 200 }, 256), 16 + 36 * 3 + 6 + 4);
}

#[test]
fn rgb_goes_to_basic_colors_on_small_palettes() {
    assert_eq!(find_closest(Color::Rgb { r: 255, g: 0, b: 0 }, 16), 9);
    assert_eq!(find_closest(Color::Rgb { r: 128, g: 0, b: 0 }, 16), 1);
    assert_eq!(find_closest(Color::Rgb { r: 255, g: 0, b: 0 }, 8), 1);
    assert_eq!(find_closest(Color::Rgb { r: 10, g: 10, b: 10 }, 16), 0);
}

#[test]
fn indexed_colors_beyond_the_palette_are_reduced() {
    assert_eq!(find_closest(Color::AnsiValue(100), 256), 100);
    assert_eq!(find_closest(Color::AnsiValue(12), 8), 4);
    assert_eq!(find_closest(Color::AnsiValue(196), 16), 9);
    assert_eq!(find_closest(Color::AnsiValue(255), 16), 15);
    assert_eq!(find_closest(Color::AnsiValue(232), 16), 0);
}

#[test]
fn reduction_is_deterministic() {
    let c = Color::Rgb { r: 17, g: 200, b: 90 };
    assert_eq!(find_closest(c, 16), find_closest(c, 16));
    assert_eq!(find_closest(c, 256), find_closest(c, 256));
}
