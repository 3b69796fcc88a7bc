//! VHS-style rendering: color cells with scanlines and periodic tracking shift.
use vstd::prelude::*;

use crate::decoder::VideoFrame;
use crate::renderer::color::cube_index;
use crate::renderer::sgr::{push_color, sgr256};
use crate::renderer::{cell_rows, Renderer};
use crate::text::concat_map;

verus! {

/// VHS-style renderer.
///
/// The renderer intentionally introduces visual degradation instead of
/// attempting to reproduce the source accurately: every fourth source row is
/// darkened like an analog scanline, and every 37th frame is read shifted two
/// pixels to the left.
pub struct VhsRenderer {
    /// Counts rendered frames so periodic VHS distortion can be applied.
    frame_counter: u64,
}

/// Halves every channel, like the reduced brightness of an analog scanline.
pub open spec fn darkened(p: (u8, u8, u8)) -> (u8, u8, u8) {
    ((p.0 / 2) as u8, (p.1 / 2) as u8, (p.2 / 2) as u8)
}

/// The source column read for screen column `x` in frame number `counter`.
pub open spec fn source_column(counter: u64, x: int) -> int {
    if counter % 37 == 0 {
        if x >= 2 {
            x - 2
        } else {
            0
        }
    } else {
        x
    }
}

/// The upper and lower pixel of a VHS cell, after the tracking shift and scanline darkening.
pub open spec fn vhs_pixels(frame: VideoFrame, counter: u64, x: int, y: int) -> ((u8, u8, u8), (u8, u8, u8)) {
    let sx = source_column(counter, x);
    let top = frame.rgb_at(sx, y);
    let bottom = if y + 1 < frame.height {
        frame.rgb_at(sx, y + 1)
    } else {
        (0, 0, 0)
    };
    if y % 4 == 0 {
        (darkened(top), darkened(bottom))
    } else {
        (top, bottom)
    }
}

/// The text of one VHS cell.
pub open spec fn vhs_cell(frame: VideoFrame, counter: u64, x: int, y: int) -> Seq<char> {
    let (top, bottom) = vhs_pixels(frame, counter, x, y);
    sgr256(38, cube_index(top.0, top.1, top.2) as u8) + sgr256(48, cube_index(bottom.0, bottom.1, bottom.2) as u8) + seq!['▀']
}

/// Terminal row `r` of frame number `counter`.
pub open spec fn vhs_line(frame: VideoFrame, counter: u64, r: int) -> Seq<char> {
    concat_map(frame.width as nat, |x: int| vhs_cell(frame, counter, x, 2 * r)) + "\x1b[0m\n"@
}

/// The whole output for frame number `counter`.
pub open spec fn vhs_text(frame: VideoFrame, counter: u64) -> Seq<char> {
    "\x1b[H"@ + concat_map(cell_rows(frame.height as nat), |r: int| vhs_line(frame, counter, r))
}

/// The frame counter after one more frame (it wraps around after `u64::MAX`).
pub open spec fn next_count(counter: u64) -> u64 {
    if counter == u64::MAX {
        0
    } else {
        (counter + 1) as u64
    }
}

/// Darkens a pixel to simulate the reduced brightness of an analog scanline.
pub fn darken(pixel: (u8, u8, u8)) -> (p: (u8, u8, u8))
    ensures
        p == darkened(pixel),
{
    (pixel.0 / 2, pixel.1 / 2, pixel.2 / 2)
}

/// Converts RGB into the ANSI 256-color cube, without a grayscale special case.
pub fn rgb_to_ansi256(r: u8, g: u8, b: u8) -> (c: u8)
    ensures
        c == cube_index(r, g, b),
        16 <= c <= 231,
{
    let r = ((r as u16 * 5) / 255) as u8;
    let g = ((g as u16 * 5) / 255) as u8;
    let b = ((b as u16 * 5) / 255) as u8;
    16 + 36 * r + 6 * g + b
}

/// The two pixels of a VHS cell, shifted and darkened.
fn cell_pixels(frame: &VideoFrame, counter: u64, x: usize, y: usize) -> (p: ((u8, u8, u8), (u8, u8, u8)))
    requires
        frame.wf(),
        x < frame.width,
        y < frame.height,
    ensures
        p == vhs_pixels(*frame, counter, x as int, y as int),
{
    let source_x = if counter % 37 == 0 { x.saturating_sub(2) } else { x };
    let top = frame.pixel(source_x, y);
    let bottom = if y + 1 < frame.height {
        frame.pixel(source_x, y + 1)
    } else {
        (0, 0, 0)
    };
    if y % 4 == 0 {
        (darken(top), darken(bottom))
    } else {
        (top, bottom)
    }
}

/// Appends the text of one VHS cell.
fn push_cell(output: &mut String, frame: &VideoFrame, counter: u64, x: usize, y: usize)
    requires
        frame.wf(),
        x < frame.width,
        y < frame.height,
    ensures
        final(output)@ == old(output)@ + vhs_cell(*frame, counter, x as int, y as int),
{
    let (top, bottom) = cell_pixels(frame, counter, x, y);
    let top_color = rgb_to_ansi256(top.0, top.1, top.2);
    let bottom_color = rgb_to_ansi256(bottom.0, bottom.1, bottom.2);
    push_color(output, 38, top_color);
    push_color(output, 48, bottom_color);
    output.push('▀');
    assert(output@ =~= old(output)@ + vhs_cell(*frame, counter, x as int, y as int));
}

impl VhsRenderer {
    /// The number of frames rendered so far, modulo 2^64.
    pub closed spec fn frame_count(&self) -> u64 {
        self.frame_counter
    }

    pub fn new() -> (v: Self)
        ensures
            v.frame_count() == 0,
    {
        VhsRenderer { frame_counter: 0 }
    }
}

impl Renderer for VhsRenderer {
    open spec fn rendered_text(&self, frame: VideoFrame) -> Seq<char> {
        vhs_text(frame, next_count(self.frame_count()))
    }

    /// Each frame drawn advances the frame counter by one.
    open spec fn advances_to(&self, after: &Self, frame: VideoFrame) -> bool {
        after.frame_count() == next_count(self.frame_count())
    }

    fn render(&mut self, frame: &VideoFrame, output: &mut String)
        ensures
            final(self).frame_count() == next_count(old(self).frame_count()),
            final(output)@ == vhs_text(*frame, final(self).frame_count()),
    {
        self.frame_counter = self.frame_counter.wrapping_add(1);
        let counter = self.frame_counter;
        output.clear();
        output.push_str("\x1b[H");
        let ghost line = |r: int| vhs_line(*frame, counter, r);
        let rows = frame.height / 2 + frame.height % 2;
        let mut r: usize = 0;
        while r < rows
            invariant
                frame.wf(),
                rows == cell_rows(frame.height as nat),
                r <= rows,
                line == (|r: int| vhs_line(*frame, counter, r)),
                output@ == "\x1b[H"@ + concat_map(r as nat, line),
            decreases rows - r,
        {
            let y = 2 * r;
            let ghost start = output@;
            let ghost cell = |x: int| vhs_cell(*frame, counter, x, y as int);
            let mut x: usize = 0;
            while x < frame.width
                invariant
                    frame.wf(),
                    y < frame.height,
                    x <= frame.width,
                    cell == (|x: int| vhs_cell(*frame, counter, x, y as int)),
                    output@ == start + concat_map(x as nat, cell),
                decreases frame.width - x,
            {
                push_cell(output, frame, counter, x, y);
                x = x + 1;
                assert(output@ =~= start + concat_map(x as nat, cell));
            }
            output.push_str("\x1b[0m\n");
            r = r + 1;
            assert(output@ =~= "\x1b[H"@ + concat_map(r as nat, line));
        }
    }
}

/// The frame counter of a new renderer after it has drawn `k` frames.
pub open spec fn count_after(k: nat) -> u64
    decreases k,
{
    if k == 0 {
        0
    } else {
        next_count(count_after((k - 1) as nat))
    }
}

proof fn lemma_count_after(k: nat)
    requires
        k <= u64::MAX,
    ensures
        count_after(k) == k,
    decreases k,
{
    if k > 0 {
        lemma_count_after((k - 1) as nat);
    }
}

/// Away from the tracking shift, the picture does not depend on the frame number.
proof fn lemma_vhs_unshifted(frame: VideoFrame, counter: u64)
    requires
        counter % 37 != 0,
    ensures
        vhs_text(frame, counter) == vhs_text(frame, 1),
{
    let line_c = |r: int| vhs_line(frame, counter, r);
    let line_1 = |r: int| vhs_line(frame, 1, r);
    assert forall|r: int| #[trigger] line_c(r) == line_1(r) by {
        let cell_c = |x: int| vhs_cell(frame, counter, x, 2 * r);
        let cell_1 = |x: int| vhs_cell(frame, 1, x, 2 * r);
        assert forall|x: int| #[trigger] cell_c(x) == cell_1(x) by {
            assert(vhs_pixels(frame, counter, x, 2 * r) == vhs_pixels(frame, 1, x, 2 * r));
        }
        assert(cell_c =~= cell_1);
    }
    assert(line_c =~= line_1);
}

/// A new renderer's `k`-th frame (counting from 1) is drawn with frame number
/// `k`: every 37th frame reads each cell from two columns further left (the
/// tracking shift), and every other frame looks exactly like a new renderer's
/// first frame. `renderers[i]` is the renderer after `i` frames.
pub proof fn lemma_vhs_calls(renderers: Seq<VhsRenderer>, frames: Seq<VideoFrame>)
    requires
        renderers.len() >= 1,
        frames.len() == renderers.len() - 1,
        renderers[0].frame_count() == 0,
        forall|i: int| 0 <= i < frames.len() ==> #[trigger] renderers[i].advances_to(&renderers[i + 1], frames[i]),
    ensures
        forall|k: int, frame: VideoFrame|
            1 <= k <= renderers.len() && k <= u64::MAX ==> #[trigger] renderers[k - 1].rendered_text(frame)
                == vhs_text(frame, k as u64),
        forall|k: int, frame: VideoFrame|
            1 <= k <= u64::MAX && k % 37 != 0 ==> #[trigger] vhs_text(frame, k as u64) == vhs_text(frame, 1),
        forall|k: int, x: int|
            1 <= k <= u64::MAX && k % 37 == 0 ==> #[trigger] source_column(k as u64, x) == (if x >= 2 {
                x - 2
            } else {
                0
            }),
        forall|k: int, x: int| 1 <= k <= u64::MAX && k % 37 != 0 ==> #[trigger] source_column(k as u64, x) == x,
{
    assert forall|i: int| 0 <= i < renderers.len() implies #[trigger] renderers[i].frame_count() == count_after(
        i as nat,
    ) by {
        lemma_vhs_count_chain(renderers, frames, i);
    }
    assert forall|k: int, frame: VideoFrame|
        1 <= k <= renderers.len() && k <= u64::MAX implies #[trigger] renderers[k - 1].rendered_text(frame)
        == vhs_text(frame, k as u64) by {
        assert(renderers[k - 1].frame_count() == count_after((k - 1) as nat));
        lemma_count_after(k as nat);
    }
    assert forall|k: int, frame: VideoFrame|
        1 <= k <= u64::MAX && k % 37 != 0 implies #[trigger] vhs_text(frame, k as u64) == vhs_text(frame, 1) by {
        lemma_vhs_unshifted(frame, k as u64);
    }
}

proof fn lemma_vhs_count_chain(renderers: Seq<VhsRenderer>, frames: Seq<VideoFrame>, i: int)
    requires
        0 <= i < renderers.len(),
        frames.len() == renderers.len() - 1,
        renderers[0].frame_count() == 0,
        forall|j: int| 0 <= j < frames.len() ==> #[trigger] renderers[j].advances_to(&renderers[j + 1], frames[j]),
    ensures
        renderers[i].frame_count() == count_after(i as nat),
    decreases i,
{
    if i > 0 {
        lemma_vhs_count_chain(renderers, frames, i - 1);
        let j = i - 1;
        assert(renderers[j].advances_to(&renderers[j + 1], frames[j]));
        assert(j + 1 == i);
    }
}

} // verus!
