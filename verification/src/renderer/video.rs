//! Integer parts of the 256-color video renderer: the ANSI palette, the ordered
//! dither, and the row writer that only repeats a color code when it changes.
use vstd::prelude::*;

use crate::renderer::sgr::{push_color, sgr256};
use crate::text::concat_map;

verus! {

/// The 2x2 ordered-dither offset for pixel `(x, y)`.
pub open spec fn dither_at(x: int, y: int) -> int {
    if y % 2 == 0 {
        if x % 2 == 0 {
            -2
        } else {
            1
        }
    } else {
        if x % 2 == 0 {
            2
        } else {
            -1
        }
    }
}

/// The channel value of cube step `v` (0..=5) in the ANSI color cube.
pub open spec fn cube_level_of(v: u8) -> u8 {
    if v == 0 {
        0
    } else {
        (55 + v * 40) as u8
    }
}

/// The RGB value of palette entry `value`: cube entries 16..=231, the grayscale
/// ramp 232..=255, and black for the sixteen system colors.
pub open spec fn palette_rgb(value: u8) -> (u8, u8, u8) {
    if 16 <= value <= 231 {
        let index = (value - 16) as u8;
        (
            cube_level_of((index / 36) as u8),
            cube_level_of(((index % 36) / 6) as u8),
            cube_level_of((index % 6) as u8),
        )
    } else if 232 <= value {
        let gray = (8 + (value - 232) * 10) as u8;
        (gray, gray, gray)
    } else {
        (0, 0, 0)
    }
}

/// The grayscale palette entry for a gray level: black and white at the ends,
/// the 24-step ramp in between.
pub open spec fn gray_index(value: u8) -> u8 {
    if value < 8 {
        16
    } else if value > 248 {
        231
    } else {
        (232 + (value - 8) * 23 / 240) as u8
    }
}

/// 2x2 ordered dither.
///
/// The amplitude is intentionally small because ANSI 256 already introduces
/// quantization; larger dithering produces visible noise.
pub fn bayer_dither(x: usize, y: usize) -> (d: i16)
    ensures
        d == dither_at(x as int, y as int),
{
    if y % 2 == 0 {
        if x % 2 == 0 {
            -2
        } else {
            1
        }
    } else {
        if x % 2 == 0 {
            2
        } else {
            -1
        }
    }
}

/// The channel value of a cube step.
pub fn cube_level(value: u8) -> (c: u8)
    requires
        value <= 5,
    ensures
        c == cube_level_of(value),
{
    if value == 0 {
        0
    } else {
        55 + value * 40
    }
}

/// The channel value of a cube step, as read back from a palette entry.
pub fn cube_component(value: u8) -> (c: u8)
    requires
        value <= 5,
    ensures
        c == cube_level_of(value),
{
    if value == 0 {
        0
    } else {
        55 + value * 40
    }
}

/// The RGB value of cube entry `(r, g, b)`.
pub fn ansi_cube_rgb(r: u8, g: u8, b: u8) -> (p: (u8, u8, u8))
    requires
        r <= 5,
        g <= 5,
        b <= 5,
    ensures
        p == (cube_level_of(r), cube_level_of(g), cube_level_of(b)),
{
    (cube_level(r), cube_level(g), cube_level(b))
}

/// The RGB value of an ANSI 256-palette entry.
pub fn ansi256_rgb(value: u8) -> (p: (u8, u8, u8))
    ensures
        p == palette_rgb(value),
{
    if 16 <= value && value <= 231 {
        let index = value - 16;
        let r = index / 36;
        let g = (index % 36) / 6;
        let b = index % 6;
        (cube_component(r), cube_component(g), cube_component(b))
    } else if 232 <= value {
        let gray = 8 + (value - 232) * 10;
        (gray, gray, gray)
    } else {
        (0, 0, 0)
    }
}

/// The grayscale palette entry for a gray level.
pub fn grayscale_to_ansi(value: u8) -> (c: u8)
    ensures
        c == gray_index(value),
{
    if value < 8 {
        return 16;
    }
    if value > 248 {
        return 231;
    }
    232 + ((value as u16 - 8) * 23 / 240) as u8
}

/// The text of cell `x` of a row of palette colors `(foreground, background)`:
/// each color code only when it changed since the previous cell.
pub open spec fn indexed_cell(cells: Seq<(u8, u8)>, x: int) -> Seq<char> {
    let fg = if x == 0 || cells[x].0 != cells[x - 1].0 {
        sgr256(38, cells[x].0)
    } else {
        Seq::empty()
    };
    let bg = if x == 0 || cells[x].1 != cells[x - 1].1 {
        sgr256(48, cells[x].1)
    } else {
        Seq::empty()
    };
    fg + bg + seq!['▀']
}

/// A whole row of palette cells, followed by a color reset and a newline.
pub open spec fn indexed_row(cells: Seq<(u8, u8)>) -> Seq<char> {
    concat_map(cells.len(), |x: int| indexed_cell(cells, x)) + "\x1b[0m\n"@
}

/// Appends a row of half-block cells in palette colors, writing a color code only
/// when it differs from the one written before it in the row.
pub fn push_indexed_row(output: &mut String, cells: &Vec<(u8, u8)>)
    ensures
        final(output)@ == old(output)@ + indexed_row(cells@),
{
    let ghost cell = |x: int| indexed_cell(cells@, x);
    let mut current_foreground: Option<u8> = None;
    let mut current_background: Option<u8> = None;
    let mut x: usize = 0;
    while x < cells.len()
        invariant
            x <= cells.len(),
            cell == (|x: int| indexed_cell(cells@, x)),
            current_foreground == (if x == 0 { None } else { Some(cells@[x - 1].0) }),
            current_background == (if x == 0 { None } else { Some(cells@[x - 1].1) }),
            output@ == old(output)@ + concat_map(x as nat, cell),
        decreases cells.len() - x,
    {
        let ghost before = output@;
        let (foreground, background) = cells[x];
        let same_foreground = match current_foreground {
            Some(c) => c == foreground,
            None => false,
        };
        if !same_foreground {
            push_color(output, 38, foreground);
            current_foreground = Some(foreground);
        }
        let same_background = match current_background {
            Some(c) => c == background,
            None => false,
        };
        if !same_background {
            push_color(output, 48, background);
            current_background = Some(background);
        }
        output.push('▀');
        assert(output@ =~= before + indexed_cell(cells@, x as int));
        x = x + 1;
        assert(output@ =~= old(output)@ + concat_map(x as nat, cell));
    }
    output.push_str("\x1b[0m\n");
}

/// Reading back the RGB value of the cube entry for cube steps `(r, g, b)` gives
/// the channel levels of those steps.
pub proof fn lemma_cube_round_trip(r: u8, g: u8, b: u8)
    requires
        r <= 5,
        g <= 5,
        b <= 5,
    ensures
        palette_rgb((16 + 36 * r + 6 * g + b) as u8) == (cube_level_of(r), cube_level_of(g), cube_level_of(b)),
{
    let index = (36 * r + 6 * g + b) as u8;
    assert(index / 36 == r);
    assert((index % 36) / 6 == g);
    assert(index % 6 == b);
}

/// A gray level maps to black, white, or an entry of the grayscale ramp.
pub proof fn lemma_gray_index_range(value: u8)
    ensures
        gray_index(value) == 16 || gray_index(value) == 231 || 232 <= gray_index(value) <= 255,
{
}

} // verus!
