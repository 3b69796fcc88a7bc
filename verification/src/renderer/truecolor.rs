//! 24-bit truecolor half-block rendering.
use vstd::prelude::*;

use crate::decoder::VideoFrame;
use crate::renderer::sgr::push_number;
use crate::renderer::{cell_pixels, cell_rows, lower_rgb, Renderer};
use crate::text::{concat_map, decimal};

verus! {

/// 24-bit truecolor half-block renderer.
///
/// Each terminal cell represents two vertical RGB pixels: the upper pixel is the
/// foreground and the lower pixel the background. Colors are not quantized; a
/// color code is only written when it differs from the previous cell of the row.
pub struct TrueColorRenderer;

/// The SGR sequence selecting an RGB color for `mode` (38 = foreground, 48 = background).
pub open spec fn sgr_rgb(mode: u8, p: (u8, u8, u8)) -> Seq<char> {
    "\x1b["@ + decimal(mode as nat) + ";2;"@ + decimal(p.0 as nat) + ";"@ + decimal(p.1 as nat) + ";"@
        + decimal(p.2 as nat) + "m"@
}

/// The text of the cell at column `x`: each color code only when it changed since the previous cell.
pub open spec fn truecolor_cell(frame: VideoFrame, x: int, y: int) -> Seq<char> {
    let top = frame.rgb_at(x, y);
    let bottom = lower_rgb(frame, x, y);
    let fg = if x == 0 || top != frame.rgb_at(x - 1, y) {
        sgr_rgb(38, top)
    } else {
        Seq::empty()
    };
    let bg = if x == 0 || bottom != lower_rgb(frame, x - 1, y) {
        sgr_rgb(48, bottom)
    } else {
        Seq::empty()
    };
    fg + bg + seq!['▀']
}

/// Terminal row `r`: every cell, then a color reset and a newline.
pub open spec fn truecolor_line(frame: VideoFrame, r: int) -> Seq<char> {
    concat_map(frame.width as nat, |x: int| truecolor_cell(frame, x, 2 * r)) + "\x1b[0m\n"@
}

/// The whole output: cursor home, then every terminal row.
pub open spec fn truecolor_text(frame: VideoFrame) -> Seq<char> {
    "\x1b[H"@ + concat_map(cell_rows(frame.height as nat), |r: int| truecolor_line(frame, r))
}

/// Appends the SGR sequence selecting an RGB color.
pub fn push_rgb_color(output: &mut String, mode: u8, p: (u8, u8, u8))
    ensures
        final(output)@ == old(output)@ + sgr_rgb(mode, p),
{
    output.push_str("\x1b[");
    push_number(output, mode);
    output.push_str(";2;");
    push_number(output, p.0);
    output.push_str(";");
    push_number(output, p.1);
    output.push_str(";");
    push_number(output, p.2);
    output.push_str("m");
    assert(output@ =~= old(output)@ + sgr_rgb(mode, p));
}

/// Whether the color last written equals `p`.
fn is_current(current: Option<(u8, u8, u8)>, p: (u8, u8, u8)) -> (b: bool)
    ensures
        b == (current == Some(p)),
{
    match current {
        Some(c) => c.0 == p.0 && c.1 == p.1 && c.2 == p.2,
        None => false,
    }
}

impl TrueColorRenderer {
    pub fn new() -> Self {
        TrueColorRenderer
    }
}

impl Renderer for TrueColorRenderer {
    open spec fn rendered_text(&self, frame: VideoFrame) -> Seq<char> {
        truecolor_text(frame)
    }

    /// The renderer has no state: it is the same after every frame.
    open spec fn advances_to(&self, after: &Self, frame: VideoFrame) -> bool {
        *after == *self
    }

    fn render(&mut self, frame: &VideoFrame, output: &mut String)
        ensures
            final(output)@ == truecolor_text(*frame),
    {
        output.clear();
        output.push_str("\x1b[H");
        let ghost line = |r: int| truecolor_line(*frame, r);
        let rows = frame.height / 2 + frame.height % 2;
        let mut r: usize = 0;
        while r < rows
            invariant
                frame.wf(),
                rows == cell_rows(frame.height as nat),
                r <= rows,
                line == (|r: int| truecolor_line(*frame, r)),
                output@ == "\x1b[H"@ + concat_map(r as nat, line),
            decreases rows - r,
        {
            let y = 2 * r;
            let ghost start = output@;
            let ghost cell = |x: int| truecolor_cell(*frame, x, y as int);
            let mut current_foreground: Option<(u8, u8, u8)> = None;
            let mut current_background: Option<(u8, u8, u8)> = None;
            let mut x: usize = 0;
            while x < frame.width
                invariant
                    frame.wf(),
                    y < frame.height,
                    x <= frame.width,
                    cell == (|x: int| truecolor_cell(*frame, x, y as int)),
                    current_foreground == (if x == 0 { None } else { Some(frame.rgb_at(x - 1, y as int)) }),
                    current_background == (if x == 0 { None } else { Some(lower_rgb(*frame, x - 1, y as int)) }),
                    output@ == start + concat_map(x as nat, cell),
                decreases frame.width - x,
            {
                let ghost before = output@;
                let (top, bottom) = cell_pixels(frame, x, y);
                if !is_current(current_foreground, top) {
                    push_rgb_color(output, 38, top);
                    current_foreground = Some(top);
                }
                if !is_current(current_background, bottom) {
                    push_rgb_color(output, 48, bottom);
                    current_background = Some(bottom);
                }
                output.push('▀');
                assert(output@ =~= before + truecolor_cell(*frame, x as int, y as int));
                x = x + 1;
                assert(output@ =~= start + concat_map(x as nat, cell));
            }
            output.push_str("\x1b[0m\n");
            r = r + 1;
            assert(output@ =~= "\x1b[H"@ + concat_map(r as nat, line));
        }
    }
}

} // verus!
