//! Reduction of logical colours to the palette the terminal can show.
use vstd::prelude::*;
use crate::types::Color;

verus! {

/// Palette index of a named colour in the usual sixteen-colour layout.
pub open spec fn named_index(c: Color) -> int {
    match c {
        Color::Black => 0,
        Color::DarkRed => 1,
        Color::DarkGreen => 2,
        Color::DarkYellow => 3,
        Color::DarkBlue => 4,
        Color::DarkMagenta => 5,
        Color::DarkCyan => 6,
        Color::Grey => 7,
        Color::DarkGrey => 8,
        Color::Red => 9,
        Color::Green => 10,
        Color::Yellow => 11,
        Color::Blue => 12,
        Color::Magenta => 13,
        Color::Cyan => 14,
        Color::White => 15,
        _ => -1,
    }
}

/// Nearest of the six evenly spaced levels `0, 51, .., 255` of the colour cube.
pub open spec fn cube_level(x: int) -> int {
    (x * 5 + 127) / 255
}

/// Channel intensity of a level of the 256-colour cube.
pub open spec fn level_intensity(l: int) -> int {
    if l == 0 { 0 } else { 55 + 40 * l }
}

/// Index in the sixteen (or eight) basic colours chosen for an RGB value:
/// a channel counts as lit from 64 up, and the bright half is used when
/// the palette has it and some channel reaches 192.
pub open spec fn basic_index(r: int, g: int, b: int, n: int) -> int {
    let base = (if r >= 64 { 1int } else { 0 }) + (if g >= 64 { 2int } else { 0 }) + (
    if b >= 64 { 4int } else { 0 });
    if n >= 16 && (r >= 192 || g >= 192 || b >= 192) {
        base + 8
    } else {
        base
    }
}

/// Palette entry chosen for an indexed colour of the 256-colour layout
/// that the palette of size `n` lacks (`16 <= v`).
pub open spec fn reduce_extended(v: int, n: int) -> int {
    if v < 232 {
        let k = v - 16;
        basic_index(
            level_intensity(k / 36),
            level_intensity((k / 6) % 6),
            level_intensity(k % 6),
            n,
        )
    } else {
        let gray = 8 + 10 * (v - 232);
        basic_index(gray, gray, gray, n)
    }
}

/// The palette colour that `c` reduces to on a terminal with `n` colours;
/// `-1` is the terminal's own default colour.
pub open spec fn closest(c: Color, n: int) -> int {
    if n < 8 {
        -1
    } else {
        match c {
            Color::Reset => -1,
            Color::Rgb { r, g, b } => if n >= 256 {
                16 + 36 * cube_level(r as int) + 6 * cube_level(g as int) + cube_level(b as int)
            } else {
                basic_index(r as int, g as int, b as int, n)
            },
            Color::AnsiValue(v) => if (v as int) < n {
                v as int
            } else if v < 16 {
                v - 8
            } else {
                reduce_extended(v as int, n)
            },
            _ => if named_index(c) < 8 || n >= 16 {
                named_index(c)
            } else {
                named_index(c) - 8
            },
        }
    }
}

fn cube_level_of(x: u8) -> (r: i16)
    ensures
        r == cube_level(x as int),
        0 <= r <= 5,
{
    ((x as u32 * 5 + 127) / 255) as i16
}

fn level_intensity_of(l: u32) -> (r: u32)
    requires
        l <= 5,
    ensures
        r == level_intensity(l as int),
        r <= 255,
{
    if l == 0 { 0 } else { 55 + 40 * l }
}

fn basic_index_of(r: u32, g: u32, b: u32, n: i16) -> (res: i16)
    ensures
        res == basic_index(r as int, g as int, b as int, n as int),
        0 <= res <= 15,
{
    let mut base: i16 = 0;
    if r >= 64 {
        base = base + 1;
    }
    if g >= 64 {
        base = base + 2;
    }
    if b >= 64 {
        base = base + 4;
    }
    if n >= 16 && (r >= 192 || g >= 192 || b >= 192) {
        base + 8
    } else {
        base
    }
}

/// Reduces a logical colour to the nearest colour of a palette of
/// `colors` entries; the same request always gives the same entry.
pub fn find_closest(color: Color, colors: i16) -> (r: i16)
    ensures
        r == closest(color, colors as int),
        -1 <= r,
        r < colors || r == -1,
{
    if colors < 8 {
        return -1;
    }
    match color {
        Color::Reset => -1,
        Color::Black => 0,
        Color::DarkRed => 1,
        Color::DarkGreen => 2,
        Color::DarkYellow => 3,
        Color::DarkBlue => 4,
        Color::DarkMagenta => 5,
        Color::DarkCyan => 6,
        Color::Grey => 7,
        Color::DarkGrey => if colors >= 16 { 8 } else { 0 },
        Color::Red => if colors >= 16 { 9 } else { 1 },
        Color::Green => if colors >= 16 { 10 } else { 2 },
        Color::Yellow => if colors >= 16 { 11 } else { 3 },
        Color::Blue => if colors >= 16 { 12 } else { 4 },
        Color::Magenta => if colors >= 16 { 13 } else { 5 },
        Color::Cyan => if colors >= 16 { 14 } else { 6 },
        Color::White => if colors >= 16 { 15 } else { 7 },
        Color::Rgb { r, g, b } => {
            if colors >= 256 {
                16 + 36 * cube_level_of(r) + 6 * cube_level_of(g) + cube_level_of(b)
            } else {
                basic_index_of(r as u32, g as u32, b as u32, colors)
            }
        },
        Color::AnsiValue(v) => {
            if (v as i16) < colors {
                v as i16
            } else if v < 16 {
                v as i16 - 8
            } else if v < 232 {
                let k = (v - 16) as u32;
                basic_index_of(
                    level_intensity_of(k / 36),
                    level_intensity_of((k / 6) % 6),
                    level_intensity_of(k % 6),
                    colors,
                )
            } else {
                let gray = 8 + 10 * (v - 232) as u32;
                basic_index_of(gray, gray, gray, colors)
            }
        },
    }
}

} // verus!
