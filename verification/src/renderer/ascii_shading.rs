//! Monochrome ASCII rendering that shades with character density.
use vstd::prelude::*;

use crate::decoder::VideoFrame;
use crate::renderer::{cell_pixels, cell_rows, lower_rgb, Renderer};
use crate::text::concat_map;

verus! {

/// Monochrome ASCII renderer using character density for shading.
///
/// Dark pixels become dense characters such as `@` and `#`.
/// Bright pixels become lighter characters such as `.` or a space.
pub struct AsciiShadingRenderer;

/// Perceived brightness of an RGB pixel (ITU-R BT.601 weights).
pub open spec fn brightness_of(p: (u8, u8, u8)) -> u8 {
    ((p.0 as int * 299 + p.1 as int * 587 + p.2 as int * 114) / 1000) as u8
}

/// The position in the density ramp `@#8&o:,. ` for a brightness.
pub open spec fn ramp_index(brightness: u8) -> int {
    (brightness as int * 8) / 255
}

/// The character of the density ramp at a position, dark to light.
pub open spec fn ramp_char(index: int) -> char {
    if index == 0 {
        '@'
    } else if index == 1 {
        '#'
    } else if index == 2 {
        '8'
    } else if index == 3 {
        '&'
    } else if index == 4 {
        'o'
    } else if index == 5 {
        ':'
    } else if index == 6 {
        ','
    } else if index == 7 {
        '.'
    } else {
        ' '
    }
}

/// The character for a cell: the ramp at the mean brightness of its two pixels.
pub open spec fn shading_cell(frame: VideoFrame, x: int, y: int) -> char {
    let top = brightness_of(frame.rgb_at(x, y));
    let bottom = brightness_of(lower_rgb(frame, x, y));
    ramp_char(ramp_index(((top as int + bottom as int) / 2) as u8))
}

/// Terminal row `r`: one character per column, then a newline.
pub open spec fn shading_line(frame: VideoFrame, r: int) -> Seq<char> {
    Seq::new(frame.width as nat, |x: int| shading_cell(frame, x, 2 * r)).push('\n')
}

/// The whole output: cursor home, then every terminal row.
pub open spec fn shading_text(frame: VideoFrame) -> Seq<char> {
    "\x1b[H"@ + concat_map(cell_rows(frame.height as nat), |r: int| shading_line(frame, r))
}

/// Converts an RGB pixel into perceived brightness.
pub fn brightness(pixel: (u8, u8, u8)) -> (b: u8)
    ensures
        b == brightness_of(pixel),
{
    ((pixel.0 as u32 * 299 + pixel.1 as u32 * 587 + pixel.2 as u32 * 114) / 1000) as u8
}

/// Maps brightness to ASCII character density, dark to light: `@ # 8 & o : , . space`.
pub fn character(brightness: u8) -> (c: char)
    ensures
        c == ramp_char(ramp_index(brightness)),
{
    let index = (brightness as usize * 8) / 255;
    match index {
        0 => '@',
        1 => '#',
        2 => '8',
        3 => '&',
        4 => 'o',
        5 => ':',
        6 => ',',
        7 => '.',
        _ => ' ',
    }
}

impl AsciiShadingRenderer {
    pub fn new() -> Self {
        AsciiShadingRenderer
    }
}

impl Renderer for AsciiShadingRenderer {
    open spec fn rendered_text(&self, frame: VideoFrame) -> Seq<char> {
        shading_text(frame)
    }

    /// The renderer has no state: it is the same after every frame.
    open spec fn advances_to(&self, after: &Self, frame: VideoFrame) -> bool {
        *after == *self
    }

    fn render(&mut self, frame: &VideoFrame, output: &mut String)
        ensures
            final(output)@ == shading_text(*frame),
    {
        output.clear();
        output.push_str("\x1b[H");
        let ghost line = |r: int| shading_line(*frame, r);
        let rows = frame.height / 2 + frame.height % 2;
        let mut r: usize = 0;
        while r < rows
            invariant
                frame.wf(),
                rows == cell_rows(frame.height as nat),
                r <= rows,
                line == (|r: int| shading_line(*frame, r)),
                output@ == "\x1b[H"@ + concat_map(r as nat, line),
            decreases rows - r,
        {
            let y = 2 * r;
            let ghost start = output@;
            let mut x: usize = 0;
            while x < frame.width
                invariant
                    frame.wf(),
                    y < frame.height,
                    x <= frame.width,
                    output@ == start + Seq::new(x as nat, |i: int| shading_cell(*frame, i, y as int)),
                decreases frame.width - x,
            {
                let (top, bottom) = cell_pixels(frame, x, y);
                let level = ((brightness(top) as u16 + brightness(bottom) as u16) / 2) as u8;
                output.push(character(level));
                x = x + 1;
                assert(output@ =~= start + Seq::new(x as nat, |i: int| shading_cell(*frame, i, y as int)));
            }
            output.push('\n');
            r = r + 1;
            assert(output@ =~= "\x1b[H"@ + concat_map(r as nat, line));
        }
    }
}

/// Brighter pixels never get a denser character: the ramp runs from `@` for
/// black to a space for white.
pub proof fn lemma_ramp_monotone(b1: u8, b2: u8)
    requires
        b1 <= b2,
    ensures
        ramp_index(b1) <= ramp_index(b2),
        0 <= ramp_index(b1) <= 8,
        ramp_char(ramp_index(0)) == '@',
        ramp_char(ramp_index(255)) == ' ',
{
    assert(b1 as int * 8 <= b2 as int * 8);
}

} // verus!
