//! Where each pixel shows up in a renderer's text: which line, which column,
//! and which color codes are in effect there.
use vstd::prelude::*;

use crate::decoder::VideoFrame;
use crate::renderer::ascii::{block_char, block_text};
use crate::renderer::ascii_shading::brightness_of;
use crate::renderer::cell_rows;
use crate::renderer::color::{ansi256_of, color_text};
use crate::renderer::sgr::sgr256;
use crate::renderer::truecolor::{sgr_rgb, truecolor_line, truecolor_text};
use crate::text::concat_map;

verus! {

/// Concatenations agree where their pieces agree.
pub proof fn lemma_concat_map_congruent(n: nat, f: spec_fn(int) -> Seq<char>, g: spec_fn(int) -> Seq<char>)
    requires
        forall|i: int| 0 <= i < n ==> #[trigger] f(i) == g(i),
    ensures
        concat_map(n, f) == concat_map(n, g),
    decreases n,
{
    if n > 0 {
        lemma_concat_map_congruent((n - 1) as nat, f, g);
        assert(f(n - 1) == g(n - 1));
    }
}

proof fn lemma_concat_fixed_len(n: nat, f: spec_fn(int) -> Seq<char>, l: nat)
    requires
        forall|i: int| 0 <= i < n ==> #[trigger] f(i).len() == l,
    ensures
        concat_map(n, f).len() == n * l,
    decreases n,
{
    if n > 0 {
        lemma_concat_fixed_len((n - 1) as nat, f, l);
        assert(f(n - 1).len() == l);
        assert((n - 1) * l + l == n * l) by (nonlinear_arith);
    }
}

/// In a concatenation of pieces of length `l`, character `j` of piece `i` sits at `i * l + j`.
proof fn lemma_concat_fixed_at(n: nat, f: spec_fn(int) -> Seq<char>, l: nat, i: int, j: int)
    requires
        forall|k: int| 0 <= k < n ==> #[trigger] f(k).len() == l,
        0 <= i < n,
        0 <= j < l,
    ensures
        i * l + j < n * l,
        concat_map(n, f)[i * l + j] == f(i)[j],
    decreases n,
{
    lemma_concat_fixed_len((n - 1) as nat, f, l);
    assert(f(n - 1).len() == l);
    if i < n - 1 {
        lemma_concat_fixed_at((n - 1) as nat, f, l, i, j);
        assert((n - 1) * l + l == n * l) by (nonlinear_arith);
    } else {
        assert(i * l == (n - 1) * l);
        assert((n - 1) * l + l == n * l) by (nonlinear_arith);
    }
}

/// The character in column `x` of line `r` of a text that starts with the three
/// characters of cursor-home and whose lines are `width` characters and a newline.
pub open spec fn char_at(text: Seq<char>, width: nat, r: int, x: int) -> char {
    text[3 + r * (width + 1) + x]
}

/// The half-block renderer shows pixel rows `2r` and `2r + 1` in line `r`: column
/// `x` of that line is the block character for the brightness of pixel `(x, 2r)`
/// and of pixel `(x, 2r + 1)` (black below the last row), each line ends in a
/// newline, and there is one line per pair of pixel rows, so every pixel row
/// appears in exactly one line.
pub proof fn lemma_block_pixels(frame: VideoFrame)
    ensures
        block_text(frame).len() == 3 + cell_rows(frame.height as nat) * (frame.width + 1),
        forall|r: int, x: int|
            0 <= r < cell_rows(frame.height as nat) && 0 <= x < frame.width ==> #[trigger] char_at(
                block_text(frame),
                frame.width as nat,
                r,
                x,
            ) == block_char(
                brightness_of(frame.rgb_at(x, 2 * r)),
                brightness_of(
                    if 2 * r + 1 < frame.height {
                        frame.rgb_at(x, 2 * r + 1)
                    } else {
                        (0, 0, 0)
                    },
                ),
            ),
        forall|r: int|
            0 <= r < cell_rows(frame.height as nat) ==> #[trigger] char_at(
                block_text(frame),
                frame.width as nat,
                r,
                frame.width as int,
            ) == '\n',
{
    reveal_strlit("\x1b[H");
    let w = frame.width as nat;
    let rows = cell_rows(frame.height as nat);
    let text = block_text(frame);
    let line = |r: int| crate::renderer::ascii::block_line(frame, r);
    assert forall|k: int| 0 <= k < rows implies #[trigger] line(k).len() == w + 1 by {}
    lemma_concat_fixed_len(rows, line, w + 1);
    assert forall|r: int, x: int| 0 <= r < rows && 0 <= x < w implies #[trigger] char_at(text, w, r, x)
        == block_char(
        brightness_of(frame.rgb_at(x, 2 * r)),
        brightness_of(
            if 2 * r + 1 < frame.height {
                frame.rgb_at(x, 2 * r + 1)
            } else {
                (0, 0, 0)
            },
        ),
    ) by {
        lemma_concat_fixed_at(rows, line, w + 1, r, x);
    }
    assert forall|r: int| 0 <= r < rows implies #[trigger] char_at(text, w, r, w as int) == '\n' by {
        lemma_concat_fixed_at(rows, line, w + 1, r, w as int);
    }
}

/// The upper pixel of the cell in column `k` of line `r`: pixel `(k, 2r)`.
pub open spec fn upper_pixel(frame: VideoFrame, k: int, r: int) -> (u8, u8, u8) {
    frame.rgb_at(k, 2 * r)
}

/// The lower pixel of the cell in column `k` of line `r`: pixel `(k, 2r + 1)`, or
/// black below the last pixel row.
pub open spec fn lower_pixel(frame: VideoFrame, k: int, r: int) -> (u8, u8, u8) {
    if 2 * r + 1 < frame.height {
        frame.rgb_at(k, 2 * r + 1)
    } else {
        (0, 0, 0)
    }
}

/// What the 256-color renderer writes for the cell in column `k` of line `r`:
/// the palette color closest to the upper pixel as foreground, the one closest
/// to the lower pixel as background, and the half block.
pub open spec fn palette_cell(frame: VideoFrame, k: int, r: int) -> Seq<char> {
    let top = upper_pixel(frame, k, r);
    let bottom = lower_pixel(frame, k, r);
    sgr256(38, ansi256_of(top.0, top.1, top.2) as u8) + sgr256(48, ansi256_of(bottom.0, bottom.1, bottom.2) as u8)
        + seq!['▀']
}

/// The 256-color renderer writes, after cursor-home, one line per pair of pixel
/// rows, top to bottom; line `r` holds the cells of columns `0, 1, ...` from left
/// to right, each in the colors closest to its two pixels, then a reset.
pub proof fn lemma_color_columns(frame: VideoFrame)
    ensures
        color_text(frame) == "\x1b[H"@ + concat_map(
            cell_rows(frame.height as nat),
            |r: int| concat_map(frame.width as nat, |k: int| palette_cell(frame, k, r)) + "\x1b[0m\n"@,
        ),
{
    let w = frame.width as nat;
    let line = |r: int| crate::renderer::color::color_line(frame, r);
    let want = |r: int| concat_map(w, |k: int| palette_cell(frame, k, r)) + "\x1b[0m\n"@;
    assert forall|r: int| 0 <= r < cell_rows(frame.height as nat) implies #[trigger] line(r) == want(r) by {
        let a = |x: int| crate::renderer::color::color_cell(frame, x, 2 * r);
        let b = |k: int| palette_cell(frame, k, r);
        assert forall|k: int| 0 <= k < w implies #[trigger] a(k) == b(k) by {}
        lemma_concat_map_congruent(w, a, b);
    }
    lemma_concat_map_congruent(cell_rows(frame.height as nat), line, want);
}

/// Of the color codes written for cells `0..=k` (an empty text where a cell
/// writes none), the last one written is `code`.
pub open spec fn last_code_is(codes: Seq<Seq<char>>, k: int, code: Seq<char>) -> bool {
    exists|j: int|
        0 <= j <= k && #[trigger] codes[j] == code && (forall|m: int| j < m <= k ==> #[trigger] codes[m].len() == 0)
}

/// Line `r` of a 24-bit color text is made of one cell per column, in order: the
/// foreground code `fg[k]` and background code `bg[k]` the cell writes (if any)
/// and the half block, then a reset. Each code written is the color of the
/// cell's own pixel, and at every cell the last foreground and background codes
/// written since the line began are those of its upper and lower pixel: the
/// colors in effect are exactly the cell's pixels.
pub open spec fn colors_in_effect(
    line: Seq<char>,
    frame: VideoFrame,
    r: int,
    fg: Seq<Seq<char>>,
    bg: Seq<Seq<char>>,
) -> bool {
    let w = frame.width as int;
    &&& fg.len() == w
    &&& bg.len() == w
    &&& line == concat_map(w as nat, |k: int| fg[k] + bg[k] + seq!['▀']) + "\x1b[0m\n"@
    &&& forall|k: int|
        0 <= k < w ==> (#[trigger] fg[k] == sgr_rgb(38, upper_pixel(frame, k, r)) || fg[k].len() == 0)
    &&& forall|k: int|
        0 <= k < w ==> (#[trigger] bg[k] == sgr_rgb(48, lower_pixel(frame, k, r)) || bg[k].len() == 0)
    &&& forall|k: int| 0 <= k < w ==> #[trigger] last_code_is(fg, k, sgr_rgb(38, upper_pixel(frame, k, r)))
    &&& forall|k: int| 0 <= k < w ==> #[trigger] last_code_is(bg, k, sgr_rgb(48, lower_pixel(frame, k, r)))
}

/// Line `r` of the 24-bit color text shows the colors of its cells' pixels, as
/// `colors_in_effect` describes, for some codes written per cell.
pub open spec fn truecolor_line_in_effect(frame: VideoFrame, r: int) -> bool {
    exists|fg: Seq<Seq<char>>, bg: Seq<Seq<char>>| #[trigger] colors_in_effect(truecolor_line(frame, r), frame, r, fg, bg)
}

/// Codes written only when the color changes leave the last code written equal
/// to the current color.
proof fn lemma_last_code(codes: Seq<Seq<char>>, colors: spec_fn(int) -> (u8, u8, u8), mode: u8, k: int)
    requires
        0 <= k < codes.len(),
        forall|m: int|
            0 <= m < codes.len() ==> #[trigger] codes[m] == (if m == 0 || colors(m) != colors(m - 1) {
                sgr_rgb(mode, colors(m))
            } else {
                Seq::<char>::empty()
            }),
    ensures
        last_code_is(codes, k, sgr_rgb(mode, colors(k))),
    decreases k,
{
    if k == 0 || colors(k) != colors(k - 1) {
        assert(codes[k] == sgr_rgb(mode, colors(k)));
    } else {
        lemma_last_code(codes, colors, mode, k - 1);
        let j = choose|j: int|
            0 <= j <= k - 1 && #[trigger] codes[j] == sgr_rgb(mode, colors(k - 1)) && (forall|m: int|
                j < m <= k - 1 ==> #[trigger] codes[m].len() == 0);
        assert(codes[k].len() == 0);
        assert(codes[j] == sgr_rgb(mode, colors(k)));
        assert forall|m: int| j < m <= k implies #[trigger] codes[m].len() == 0 by {
            if m < k {
            }
        }
    }
}

/// The 24-bit color renderer writes, after cursor-home, one line per pair of
/// pixel rows, top to bottom, and in every line the colors in effect at each
/// cell are exactly its two pixels; in particular the first cell of every line
/// writes both codes, since every line ends in a reset.
pub proof fn lemma_truecolor_colors(frame: VideoFrame)
    ensures
        truecolor_text(frame) == "\x1b[H"@ + concat_map(
            cell_rows(frame.height as nat),
            |r: int| truecolor_line(frame, r),
        ),
        forall|r: int| 0 <= r < cell_rows(frame.height as nat) ==> #[trigger] truecolor_line_in_effect(frame, r),
{
    let w = frame.width as int;
    assert forall|r: int| 0 <= r < cell_rows(frame.height as nat) implies #[trigger] truecolor_line_in_effect(
        frame,
        r,
    ) by {
        let tops = |k: int| upper_pixel(frame, k, r);
        let bottoms = |k: int| lower_pixel(frame, k, r);
        let fg = Seq::new(
            w as nat,
            |k: int| if k == 0 || tops(k) != tops(k - 1) {
                sgr_rgb(38, tops(k))
            } else {
                Seq::<char>::empty()
            },
        );
        let bg = Seq::new(
            w as nat,
            |k: int| if k == 0 || bottoms(k) != bottoms(k - 1) {
                sgr_rgb(48, bottoms(k))
            } else {
                Seq::<char>::empty()
            },
        );
        let a = |x: int| crate::renderer::truecolor::truecolor_cell(frame, x, 2 * r);
        let b = |k: int| fg[k] + bg[k] + seq!['▀'];
        assert forall|k: int| 0 <= k < w implies #[trigger] a(k) == b(k) by {}
        lemma_concat_map_congruent(w as nat, a, b);
        assert forall|k: int| 0 <= k < w implies #[trigger] last_code_is(fg, k, sgr_rgb(38, upper_pixel(frame, k, r))) by {
            lemma_last_code(fg, tops, 38, k);
        }
        assert forall|k: int| 0 <= k < w implies #[trigger] last_code_is(bg, k, sgr_rgb(48, lower_pixel(frame, k, r))) by {
            lemma_last_code(bg, bottoms, 48, k);
        }
        assert(colors_in_effect(truecolor_line(frame, r), frame, r, fg, bg));
    }
}

} // verus!
