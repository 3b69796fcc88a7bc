//! Classic monochrome half-block rendering.
use vstd::prelude::*;

use crate::decoder::VideoFrame;
use crate::renderer::ascii_shading::{brightness, brightness_of};
use crate::renderer::{cell_pixels, cell_rows, lower_rgb, Renderer};
use crate::text::concat_map;

verus! {

/// Classic monochrome half-block renderer.
///
/// Each terminal character represents two vertical pixels: the upper half
/// of the character shows the first pixel and the lower half the second,
/// which doubles the vertical resolution compared with one character per pixel.
pub struct AsciiRenderer;

/// The block character for two pixels: a half is filled when its pixel is brighter than 100.
pub open spec fn block_char(top: u8, bottom: u8) -> char {
    if top > 100 && bottom > 100 {
        '█'
    } else if top > 100 {
        '▀'
    } else if bottom > 100 {
        '▄'
    } else {
        ' '
    }
}

/// The character of the cell at column `x` whose upper pixel row is `y`.
pub open spec fn block_cell(frame: VideoFrame, x: int, y: int) -> char {
    block_char(brightness_of(frame.rgb_at(x, y)), brightness_of(lower_rgb(frame, x, y)))
}

/// Terminal row `r`: one block character per column, then a newline.
pub open spec fn block_line(frame: VideoFrame, r: int) -> Seq<char> {
    Seq::new(frame.width as nat, |x: int| block_cell(frame, x, 2 * r)).push('\n')
}

/// The whole output: cursor home, then every terminal row.
pub open spec fn block_text(frame: VideoFrame) -> Seq<char> {
    "\x1b[H"@ + concat_map(cell_rows(frame.height as nat), |r: int| block_line(frame, r))
}

/// Picks the half-block character for the brightness of an upper and a lower pixel.
pub fn character(top: u8, bottom: u8) -> (c: char)
    ensures
        c == block_char(top, bottom),
{
    match (top > 100, bottom > 100) {
        (true, true) => '█',
        (true, false) => '▀',
        (false, true) => '▄',
        (false, false) => ' ',
    }
}

impl AsciiRenderer {
    pub fn new() -> Self {
        AsciiRenderer
    }
}

impl Renderer for AsciiRenderer {
    open spec fn rendered_text(&self, frame: VideoFrame) -> Seq<char> {
        block_text(frame)
    }

    /// The renderer has no state: it is the same after every frame.
    open spec fn advances_to(&self, after: &Self, frame: VideoFrame) -> bool {
        *after == *self
    }

    fn render(&mut self, frame: &VideoFrame, output: &mut String)
        ensures
            final(output)@ == block_text(*frame),
    {
        output.clear();
        output.push_str("\x1b[H");
        let ghost line = |r: int| block_line(*frame, r);
        let rows = frame.height / 2 + frame.height % 2;
        let mut r: usize = 0;
        while r < rows
            invariant
                frame.wf(),
                rows == cell_rows(frame.height as nat),
                r <= rows,
                line == (|r: int| block_line(*frame, r)),
                output@ == "\x1b[H"@ + concat_map(r as nat, line),
            decreases rows - r,
        {
            let y = 2 * r;
            let ghost start = output@;
            let mut x: usize = 0;
            while x < frame.width
                invariant
                    frame.wf(),
                    y < frame.height,
                    x <= frame.width,
                    output@ == start + Seq::new(x as nat, |i: int| block_cell(*frame, i, y as int)),
                decreases frame.width - x,
            {
                let (top, bottom) = cell_pixels(frame, x, y);
                output.push(character(brightness(top), brightness(bottom)));
                x = x + 1;
                assert(output@ =~= start + Seq::new(x as nat, |i: int| block_cell(*frame, i, y as int)));
            }
            output.push('\n');
            r = r + 1;
            assert(output@ =~= "\x1b[H"@ + concat_map(r as nat, line));
        }
    }
}

} // verus!
