//! 256-color ANSI half-block rendering.
use vstd::prelude::*;

use crate::decoder::VideoFrame;
use crate::renderer::sgr::{push_color, sgr256};
use crate::renderer::video::{ansi256_rgb, palette_rgb};
use crate::renderer::{cell_pixels, cell_rows, lower_rgb, Renderer};
use crate::text::concat_map;

verus! {

/// 256-color ANSI half-block renderer.
///
/// The upper half of `▀` uses the foreground color while the lower half
/// uses the background color, so one terminal character shows two RGB pixels.
pub struct ColorRenderer;

/// The position of a channel value on the six-step axis of the ANSI color cube,
/// rounding down.
pub open spec fn cube_step(v: u8) -> int {
    (v as int * 5) / 255
}

/// The ANSI color-cube entry reached by rounding each channel down to a cube step.
pub open spec fn cube_index(r: u8, g: u8, b: u8) -> int {
    16 + 36 * cube_step(r) + 6 * cube_step(g) + cube_step(b)
}

/// The squared RGB distance between a color and palette entry `c`.
pub open spec fn palette_distance(r: u8, g: u8, b: u8, c: int) -> int {
    let p = palette_rgb(c as u8);
    (r - p.0) * (r - p.0) + (g - p.1) * (g - p.1) + (b - p.2) * (b - p.2)
}

/// `c` is the entry of the extended palette (the color cube and the grayscale
/// ramp, entries 16 to 255) closest to the color, the first one on a tie.
pub open spec fn is_closest(r: u8, g: u8, b: u8, c: int) -> bool {
    &&& 16 <= c <= 255
    &&& forall|e: int| 16 <= e <= 255 ==> palette_distance(r, g, b, c) <= #[trigger] palette_distance(r, g, b, e)
    &&& forall|e: int| 16 <= e < c ==> palette_distance(r, g, b, c) < #[trigger] palette_distance(r, g, b, e)
}

/// The closest color of the ANSI 256-color palette: the extended-palette entry
/// nearest in RGB, the first one on a tie. Neutral colors land on the grayscale
/// ramp wherever it is closer than the cube.
pub open spec fn ansi256_of(r: u8, g: u8, b: u8) -> int {
    choose|c: int| is_closest(r, g, b, c)
}

/// Only one entry is the closest.
proof fn lemma_closest_unique(r: u8, g: u8, b: u8, c1: int, c2: int)
    requires
        is_closest(r, g, b, c1),
        is_closest(r, g, b, c2),
    ensures
        c1 == c2,
{
    if c1 < c2 {
        assert(palette_distance(r, g, b, c2) < palette_distance(r, g, b, c1));
        assert(palette_distance(r, g, b, c1) <= palette_distance(r, g, b, c2));
    } else if c2 < c1 {
        assert(palette_distance(r, g, b, c1) < palette_distance(r, g, b, c2));
        assert(palette_distance(r, g, b, c2) <= palette_distance(r, g, b, c1));
    }
}

/// The first entry at least as close as every entry of `16..n`.
proof fn closest_below(r: u8, g: u8, b: u8, n: int) -> (c: int)
    requires
        17 <= n <= 256,
    ensures
        16 <= c < n,
        forall|e: int| 16 <= e < n ==> palette_distance(r, g, b, c) <= #[trigger] palette_distance(r, g, b, e),
        forall|e: int| 16 <= e < c ==> palette_distance(r, g, b, c) < #[trigger] palette_distance(r, g, b, e),
    decreases n,
{
    if n == 17 {
        16
    } else {
        let c0 = closest_below(r, g, b, n - 1);
        if palette_distance(r, g, b, n - 1) < palette_distance(r, g, b, c0) {
            n - 1
        } else {
            c0
        }
    }
}

/// Every color has a closest palette entry, so `ansi256_of` names it.
pub proof fn lemma_ansi256_closest(r: u8, g: u8, b: u8)
    ensures
        is_closest(r, g, b, ansi256_of(r, g, b)),
        16 <= ansi256_of(r, g, b) <= 255,
{
    let c = closest_below(r, g, b, 256);
    assert(is_closest(r, g, b, c));
}

/// The squared distance from a color to a palette entry.
fn distance_to(r: u8, g: u8, b: u8, c: u8) -> (d: u32)
    ensures
        d == palette_distance(r, g, b, c as int),
{
    let p = ansi256_rgb(c);
    let dr: u32 = if r >= p.0 { (r - p.0) as u32 } else { (p.0 - r) as u32 };
    let dg: u32 = if g >= p.1 { (g - p.1) as u32 } else { (p.1 - g) as u32 };
    let db: u32 = if b >= p.2 { (b - p.2) as u32 } else { (p.2 - b) as u32 };
    assert(dr * dr <= 65025 && dg * dg <= 65025 && db * db <= 65025) by (nonlinear_arith)
        requires
            dr <= 255,
            dg <= 255,
            db <= 255,
    ;
    assert(dr * dr == (r - p.0) * (r - p.0)) by (nonlinear_arith)
        requires
            dr == r - p.0 || dr == p.0 - r,
    ;
    assert(dg * dg == (g - p.1) * (g - p.1)) by (nonlinear_arith)
        requires
            dg == g - p.1 || dg == p.1 - g,
    ;
    assert(db * db == (b - p.2) * (b - p.2)) by (nonlinear_arith)
        requires
            db == b - p.2 || db == p.2 - b,
    ;
    dr * dr + dg * dg + db * db
}

/// The text of one cell: foreground for the upper pixel, background for the lower, `▀`.
pub open spec fn color_cell(frame: VideoFrame, x: int, y: int) -> Seq<char> {
    let top = frame.rgb_at(x, y);
    let bottom = lower_rgb(frame, x, y);
    sgr256(38, ansi256_of(top.0, top.1, top.2) as u8) + sgr256(48, ansi256_of(bottom.0, bottom.1, bottom.2) as u8) + seq!['▀']
}

/// Terminal row `r`: every cell, then a color reset and a newline.
pub open spec fn color_line(frame: VideoFrame, r: int) -> Seq<char> {
    concat_map(frame.width as nat, |x: int| color_cell(frame, x, 2 * r)) + "\x1b[0m\n"@
}

/// The whole output: cursor home, then every terminal row.
pub open spec fn color_text(frame: VideoFrame) -> Seq<char> {
    "\x1b[H"@ + concat_map(cell_rows(frame.height as nat), |r: int| color_line(frame, r))
}

/// Converts RGB into the closest color in the ANSI 256-color palette: the
/// entry of the color cube or the grayscale ramp nearest in RGB, the first one on
/// a tie. The sixteen system colors are left out, since terminals differ in them.
pub fn rgb_to_ansi256(r: u8, g: u8, b: u8) -> (c: u8)
    ensures
        c == ansi256_of(r, g, b),
        is_closest(r, g, b, c as int),
{
    let mut best: u8 = 16;
    let mut best_distance = distance_to(r, g, b, 16);
    let mut c: u16 = 17;
    while c <= 255
        invariant
            17 <= c <= 256,
            16 <= best < c,
            best_distance == palette_distance(r, g, b, best as int),
            forall|e: int| 16 <= e < c ==> best_distance <= #[trigger] palette_distance(r, g, b, e),
            forall|e: int| 16 <= e < best ==> best_distance < #[trigger] palette_distance(r, g, b, e),
        decreases 256 - c,
    {
        let d = distance_to(r, g, b, c as u8);
        if d < best_distance {
            best = c as u8;
            best_distance = d;
        }
        c = c + 1;
    }
    proof {
        assert(is_closest(r, g, b, best as int));
        lemma_ansi256_closest(r, g, b);
        lemma_closest_unique(r, g, b, best as int, ansi256_of(r, g, b));
    }
    best
}

impl ColorRenderer {
    pub fn new() -> Self {
        ColorRenderer
    }
}

impl Renderer for ColorRenderer {
    open spec fn rendered_text(&self, frame: VideoFrame) -> Seq<char> {
        color_text(frame)
    }

    /// The renderer has no state: it is the same after every frame.
    open spec fn advances_to(&self, after: &Self, frame: VideoFrame) -> bool {
        *after == *self
    }

    fn render(&mut self, frame: &VideoFrame, output: &mut String)
        ensures
            final(output)@ == color_text(*frame),
    {
        output.clear();
        output.push_str("\x1b[H");
        let ghost line = |r: int| color_line(*frame, r);
        let rows = frame.height / 2 + frame.height % 2;
        let mut r: usize = 0;
        while r < rows
            invariant
                frame.wf(),
                rows == cell_rows(frame.height as nat),
                r <= rows,
                line == (|r: int| color_line(*frame, r)),
                output@ == "\x1b[H"@ + concat_map(r as nat, line),
            decreases rows - r,
        {
            let y = 2 * r;
            let ghost start = output@;
            let ghost cell = |x: int| color_cell(*frame, x, y as int);
            let mut x: usize = 0;
            while x < frame.width
                invariant
                    frame.wf(),
                    y < frame.height,
                    x <= frame.width,
                    cell == (|x: int| color_cell(*frame, x, y as int)),
                    output@ == start + concat_map(x as nat, cell),
                decreases frame.width - x,
            {
                let (top, bottom) = cell_pixels(frame, x, y);
                let top_color = rgb_to_ansi256(top.0, top.1, top.2);
                let bottom_color = rgb_to_ansi256(bottom.0, bottom.1, bottom.2);
                push_color(output, 38, top_color);
                push_color(output, 48, bottom_color);
                output.push('▀');
                x = x + 1;
                assert(output@ =~= start + concat_map(x as nat, cell));
            }
            output.push_str("\x1b[0m\n");
            r = r + 1;
            assert(output@ =~= "\x1b[H"@ + concat_map(r as nat, line));
        }
    }
}

} // verus!
