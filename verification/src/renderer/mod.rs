//! Renderers turn a decoded RGB frame into terminal text.
use vstd::prelude::*;

use crate::decoder::VideoFrame;

pub mod ascii;
pub mod ascii_shading;
pub mod cells;
pub mod color;
pub mod geometry;
pub mod mono_video;
pub mod picture;
pub mod sgr;
pub mod truecolor;
pub mod tv;
pub mod vhs;
pub mod video;

pub use ascii::AsciiRenderer;
pub use ascii_shading::AsciiShadingRenderer;
pub use color::ColorRenderer;
pub use truecolor::TrueColorRenderer;
pub use tv::TvRenderer;
pub use vhs::VhsRenderer;

verus! {

/// The visual renderers a user can choose from.
#[derive(Debug, Clone, Copy, PartialEq, Eq, Structural)]
pub enum RendererKind {
    Ascii,
    MonoBlock,
    ColorBlock,
    Video,
    TrueColor,
}

/// The renderer a kind selects. The video renderer works in floating point,
/// outside this library, so the choice names it without holding it.
pub enum RendererChoice {
    AsciiShading(AsciiShadingRenderer),
    MonoBlock(AsciiRenderer),
    ColorBlock(ColorRenderer),
    Video,
    TrueColor(TrueColorRenderer),
}

/// Chooses the renderer for a kind: ASCII shading for `Ascii`, half blocks for
/// `MonoBlock`, 256-color blocks for `ColorBlock`, the video renderer for
/// `Video` and 24-bit color for `TrueColor`.
pub fn create_renderer(kind: RendererKind) -> (r: RendererChoice)
    ensures
        match kind {
            RendererKind::Ascii => r is AsciiShading,
            RendererKind::MonoBlock => r is MonoBlock,
            RendererKind::ColorBlock => r is ColorBlock,
            RendererKind::Video => r is Video,
            RendererKind::TrueColor => r is TrueColor,
        },
{
    match kind {
        RendererKind::Ascii => RendererChoice::AsciiShading(AsciiShadingRenderer::new()),
        RendererKind::MonoBlock => RendererChoice::MonoBlock(AsciiRenderer::new()),
        RendererKind::ColorBlock => RendererChoice::ColorBlock(ColorRenderer::new()),
        RendererKind::Video => RendererChoice::Video,
        RendererKind::TrueColor => RendererChoice::TrueColor(TrueColorRenderer::new()),
    }
}

/// Something that turns a frame into terminal text.
///
/// `render` replaces the contents of `output` with the text for `frame`;
/// `rendered_text` names that text for the renderer's state before the call,
/// and `advances_to` relates that state to the state after it.
pub trait Renderer {
    spec fn rendered_text(&self, frame: VideoFrame) -> Seq<char>;

    /// `after` is the state of this renderer once it has drawn `frame`.
    spec fn advances_to(&self, after: &Self, frame: VideoFrame) -> bool;

    fn render(&mut self, frame: &VideoFrame, output: &mut String)
        requires
            frame.wf(),
        ensures
            final(output)@ == old(self).rendered_text(*frame),
            old(self).advances_to(&*final(self), *frame),
    ;
}

/// The number of terminal rows a frame occupies: each row shows two pixel rows.
pub open spec fn cell_rows(height: nat) -> nat {
    height / 2 + height % 2
}

/// The pixel shown in the lower half of the cell whose upper pixel is `(x, y)`:
/// black below the last row.
pub open spec fn lower_rgb(frame: VideoFrame, x: int, y: int) -> (u8, u8, u8) {
    if y + 1 < frame.height {
        frame.rgb_at(x, y + 1)
    } else {
        (0, 0, 0)
    }
}

/// The upper and lower pixel of the cell at column `x` whose upper pixel row is `y`.
pub fn cell_pixels(frame: &VideoFrame, x: usize, y: usize) -> (cell: ((u8, u8, u8), (u8, u8, u8)))
    requires
        frame.wf(),
        x < frame.width,
        y < frame.height,
    ensures
        cell.0 == frame.rgb_at(x as int, y as int),
        cell.1 == lower_rgb(*frame, x as int, y as int),
{
    let top = frame.pixel(x, y);
    let bottom = if y + 1 < frame.height {
        frame.pixel(x, y + 1)
    } else {
        (0, 0, 0)
    };
    (top, bottom)
}

} // verus!
