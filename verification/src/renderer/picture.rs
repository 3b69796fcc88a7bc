//! Every renderer draws a rectangle: one line per terminal row, each as many
//! cells wide as the frame.
use vstd::prelude::*;

use crate::decoder::VideoFrame;
use crate::renderer::ascii::{block_cell, block_line, block_text};
use crate::renderer::ascii_shading::{shading_cell, shading_line, shading_text};
use crate::renderer::{cell_rows, lower_rgb};
use crate::renderer::color::{ansi256_of, color_cell, color_line, color_text, cube_index};
use crate::renderer::geometry::{clean_row, lemma_cabinet_escapes, lemma_concat_map_joined, lemma_escape_piece, lemma_join, lemma_lines_of_joined, lemma_plain_piece, lemma_tv_rectangular, piece};
use crate::renderer::sgr::sgr256;
use crate::renderer::truecolor::{sgr_rgb, truecolor_cell, truecolor_line, truecolor_text};
use crate::renderer::tv::{is_csi_final, lines_from, strip_home, tv_text};
use crate::renderer::vhs::{vhs_cell, vhs_line, vhs_pixels, vhs_text};
use crate::text::{concat_map, decimal, digit_char};

verus! {

/// `text` starts with cursor-home and then has `rows` lines, each `width`
/// cells wide and ending outside any escape sequence.
pub open spec fn picture_fits(text: Seq<char>, rows: nat, width: nat) -> bool {
    let lines = lines_from(strip_home(text), 0);
    &&& lines.len() == rows
    &&& forall|i: int| 0 <= i < lines.len() ==> piece(#[trigger] lines[i], width)
}

/// Cursor home followed by rows that each end in a newline.
proof fn lemma_home_rows(rows: nat, f: spec_fn(int) -> Seq<char>, content: spec_fn(int) -> Seq<char>, width: nat)
    requires
        forall|r: int| 0 <= r < rows ==> #[trigger] f(r) == content(r) + seq!['\n'],
        forall|r: int| 0 <= r < rows ==> piece(#[trigger] content(r), width),
        forall|r: int| 0 <= r < rows ==> clean_row(#[trigger] content(r)),
    ensures
        picture_fits("\x1b[H"@ + concat_map(rows, f), rows, width),
{
    reveal_strlit("\x1b[H");
    let body = concat_map(rows, f);
    assert(strip_home("\x1b[H"@ + body) =~= body);
    lemma_concat_map_joined(rows, f, content);
    let list = Seq::new(rows, content);
    assert forall|i: int| 0 <= i < list.len() implies clean_row(#[trigger] list[i]) by {
        assert(list[i] == content(i));
    }
    lemma_lines_of_joined(list);
    let lines = lines_from(strip_home("\x1b[H"@ + body), 0);
    assert forall|i: int| 0 <= i < lines.len() implies piece(#[trigger] lines[i], width) by {
        assert(lines[i] == content(i));
    }
}

/// A row of cells each one cell wide is as wide as it has cells.
proof fn lemma_cells(n: nat, cell: spec_fn(int) -> Seq<char>)
    requires
        forall|x: int| 0 <= x < n ==> piece(#[trigger] cell(x), 1),
    ensures
        piece(concat_map(n, cell), n),
    decreases n,
{
    if n == 0 {
        lemma_plain_piece(Seq::<char>::empty());
    } else {
        lemma_cells((n - 1) as nat, cell);
        lemma_join(concat_map((n - 1) as nat, cell), (n - 1) as nat, cell(n - 1), 1);
    }
}

/// A parameter character of a control sequence: a digit, `:` or `;`.
pub open spec fn is_param(c: char) -> bool {
    0x30 <= (c as u32) <= 0x3b
}

/// The digits of a number are parameter characters.
proof fn lemma_decimal_params(n: nat)
    ensures
        forall|i: int| 0 <= i < decimal(n).len() ==> is_param(#[trigger] decimal(n)[i]),
    decreases n,
{
    if n >= 10 {
        lemma_decimal_params(n / 10);
        assert(is_param(digit_char(n % 10)));
        let d = decimal(n);
        assert forall|i: int| 0 <= i < d.len() implies is_param(#[trigger] d[i]) by {
            if i < d.len() - 1 {
                assert(d[i] == decimal(n / 10)[i]);
            }
        }
    } else {
        assert(is_param(digit_char(n)));
    }
}

proof fn lemma_params_concat(a: Seq<char>, b: Seq<char>)
    requires
        forall|i: int| 0 <= i < a.len() ==> is_param(#[trigger] a[i]),
        forall|i: int| 0 <= i < b.len() ==> is_param(#[trigger] b[i]),
    ensures
        forall|i: int| 0 <= i < (a + b).len() ==> is_param(#[trigger] (a + b)[i]),
{
    assert forall|i: int| 0 <= i < (a + b).len() implies is_param(#[trigger] (a + b)[i]) by {
        if i < a.len() {
            assert((a + b)[i] == a[i]);
        } else {
            assert((a + b)[i] == b[i - a.len()]);
        }
    }
}

/// A select-graphic-rendition sequence takes no room.
proof fn lemma_sgr_piece(p: Seq<char>)
    requires
        forall|i: int| 0 <= i < p.len() ==> is_param(#[trigger] p[i]),
    ensures
        piece("\x1b["@ + p + "m"@, 0),
{
    reveal_strlit("\x1b[");
    reveal_strlit("m");
    let e = "\x1b["@ + p + "m"@;
    assert(e[0] == '\x1b');
    assert(e[1] == '[');
    assert(e.last() == 'm');
    assert forall|i: int| 2 <= i < e.len() - 1 implies !is_csi_final(#[trigger] e[i]) && e[i] != '\n' by {
        assert(e[i] == p[i - 2]);
        assert(is_param(p[i - 2]));
    }
    lemma_escape_piece(e);
}

/// A 256-palette color sequence takes no room.
proof fn lemma_sgr256_piece(mode: u8, color: u8)
    ensures
        piece(sgr256(mode, color), 0),
{
    reveal_strlit(";5;");
    lemma_decimal_params(mode as nat);
    lemma_decimal_params(color as nat);
    let sep = ";5;"@;
    assert forall|i: int| 0 <= i < sep.len() implies is_param(#[trigger] sep[i]) by {}
    lemma_params_concat(decimal(mode as nat), sep);
    lemma_params_concat(decimal(mode as nat) + sep, decimal(color as nat));
    let p = decimal(mode as nat) + sep + decimal(color as nat);
    lemma_sgr_piece(p);
    assert(sgr256(mode, color) =~= "\x1b["@ + p + "m"@);
}

/// An RGB color sequence takes no room.
proof fn lemma_sgr_rgb_piece(mode: u8, c: (u8, u8, u8))
    ensures
        piece(sgr_rgb(mode, c), 0),
{
    reveal_strlit(";2;");
    reveal_strlit(";");
    lemma_decimal_params(mode as nat);
    lemma_decimal_params(c.0 as nat);
    lemma_decimal_params(c.1 as nat);
    lemma_decimal_params(c.2 as nat);
    let two = ";2;"@;
    let semi = ";"@;
    assert forall|i: int| 0 <= i < two.len() implies is_param(#[trigger] two[i]) by {}
    assert forall|i: int| 0 <= i < semi.len() implies is_param(#[trigger] semi[i]) by {}
    let p1 = decimal(mode as nat) + two;
    lemma_params_concat(decimal(mode as nat), two);
    lemma_params_concat(p1, decimal(c.0 as nat));
    let p2 = p1 + decimal(c.0 as nat);
    lemma_params_concat(p2, semi);
    lemma_params_concat(p2 + semi, decimal(c.1 as nat));
    let p3 = p2 + semi + decimal(c.1 as nat);
    lemma_params_concat(p3, semi);
    lemma_params_concat(p3 + semi, decimal(c.2 as nat));
    let p = p3 + semi + decimal(c.2 as nat);
    lemma_sgr_piece(p);
    assert(sgr_rgb(mode, c) =~= "\x1b["@ + p + "m"@);
}

/// A cell of two colors and an upper half block is one cell wide.
proof fn lemma_two_color_cell(fg: Seq<char>, bg: Seq<char>)
    requires
        piece(fg, 0),
        piece(bg, 0),
    ensures
        piece(fg + bg + seq!['▀'], 1),
{
    lemma_plain_piece(seq!['▀']);
    lemma_join(fg, 0, bg, 0);
    lemma_join(fg + bg, 0, seq!['▀'], 1);
}

/// A row of colored cells followed by the reset sequence: as wide as it has
/// cells, and ending in the reset's `m`.
proof fn lemma_colored_row(n: nat, cell: spec_fn(int) -> Seq<char>)
    requires
        forall|x: int| 0 <= x < n ==> piece(#[trigger] cell(x), 1),
    ensures
        piece(concat_map(n, cell) + "\x1b[0m"@, n),
        clean_row(concat_map(n, cell) + "\x1b[0m"@),
        concat_map(n, cell) + "\x1b[0m\n"@ == concat_map(n, cell) + "\x1b[0m"@ + seq!['\n'],
{
    reveal_strlit("\x1b[0m");
    reveal_strlit("\x1b[0m\n");
    lemma_cabinet_escapes();
    lemma_cells(n, cell);
    lemma_join(concat_map(n, cell), n, "\x1b[0m"@, 0);
    assert(concat_map(n, cell) + "\x1b[0m\n"@ =~= concat_map(n, cell) + "\x1b[0m"@ + seq!['\n']);
}

/// The half-block renderer draws one line per two pixel rows, each exactly as
/// many cells wide as the frame.
pub proof fn lemma_block_picture(frame: VideoFrame)
    ensures
        picture_fits(block_text(frame), cell_rows(frame.height as nat), frame.width as nat),
{
    let rows = cell_rows(frame.height as nat);
    let w = frame.width as nat;
    let f = |r: int| block_line(frame, r);
    let content = |r: int| Seq::new(w, |x: int| block_cell(frame, x, 2 * r));
    assert forall|r: int| 0 <= r < rows implies piece(#[trigger] content(r), w) && clean_row(content(r))
        && f(r) == content(r) + seq!['\n'] by {
        lemma_plain_piece(content(r));
        assert(f(r) =~= content(r) + seq!['\n']);
    }
    lemma_home_rows(rows, f, content, w);
}

/// The shading renderer draws one line per two pixel rows, each exactly as many
/// cells wide as the frame.
pub proof fn lemma_shading_picture(frame: VideoFrame)
    ensures
        picture_fits(shading_text(frame), cell_rows(frame.height as nat), frame.width as nat),
{
    let rows = cell_rows(frame.height as nat);
    let w = frame.width as nat;
    let f = |r: int| shading_line(frame, r);
    let content = |r: int| Seq::new(w, |x: int| shading_cell(frame, x, 2 * r));
    assert forall|r: int| 0 <= r < rows implies piece(#[trigger] content(r), w) && clean_row(content(r))
        && f(r) == content(r) + seq!['\n'] by {
        lemma_plain_piece(content(r));
        assert(f(r) =~= content(r) + seq!['\n']);
    }
    lemma_home_rows(rows, f, content, w);
}

proof fn lemma_color_cell(frame: VideoFrame, x: int, y: int)
    ensures
        piece(color_cell(frame, x, y), 1),
{
    let top = frame.rgb_at(x, y);
    let bottom = lower_rgb(frame, x, y);
    let fg = sgr256(38, ansi256_of(top.0, top.1, top.2) as u8);
    let bg = sgr256(48, ansi256_of(bottom.0, bottom.1, bottom.2) as u8);
    lemma_sgr256_piece(38, ansi256_of(top.0, top.1, top.2) as u8);
    lemma_sgr256_piece(48, ansi256_of(bottom.0, bottom.1, bottom.2) as u8);
    lemma_two_color_cell(fg, bg);
}

proof fn lemma_vhs_cell(frame: VideoFrame, counter: u64, x: int, y: int)
    ensures
        piece(vhs_cell(frame, counter, x, y), 1),
{
    let pixels = vhs_pixels(frame, counter, x, y);
    let top = pixels.0;
    let bottom = pixels.1;
    let fg = sgr256(38, cube_index(top.0, top.1, top.2) as u8);
    let bg = sgr256(48, cube_index(bottom.0, bottom.1, bottom.2) as u8);
    lemma_sgr256_piece(38, cube_index(top.0, top.1, top.2) as u8);
    lemma_sgr256_piece(48, cube_index(bottom.0, bottom.1, bottom.2) as u8);
    lemma_two_color_cell(fg, bg);
    assert(vhs_cell(frame, counter, x, y) == fg + bg + seq!['▀']);
}

proof fn lemma_truecolor_cell(frame: VideoFrame, x: int, y: int)
    ensures
        piece(truecolor_cell(frame, x, y), 1),
{
    let top = frame.rgb_at(x, y);
    let bottom = lower_rgb(frame, x, y);
    lemma_sgr_rgb_piece(38, top);
    lemma_sgr_rgb_piece(48, bottom);
    lemma_plain_piece(Seq::<char>::empty());
    let fg = if x == 0 || top != frame.rgb_at(x - 1, y) {
        sgr_rgb(38, top)
    } else {
        Seq::empty()
    };
    let bg = if x == 0 || bottom != lower_rgb(frame, x - 1, y) {
        sgr_rgb(48, bottom)
    } else {
        Seq::empty()
    };
    lemma_two_color_cell(fg, bg);
}

/// The 256-color renderer draws one line per two pixel rows, each exactly as many
/// cells wide as the frame.
pub proof fn lemma_color_picture(frame: VideoFrame)
    ensures
        picture_fits(color_text(frame), cell_rows(frame.height as nat), frame.width as nat),
{
    let rows = cell_rows(frame.height as nat);
    let w = frame.width as nat;
    let f = |r: int| color_line(frame, r);
    let content = |r: int| concat_map(w, |x: int| color_cell(frame, x, 2 * r)) + "\x1b[0m"@;
    assert forall|r: int| 0 <= r < rows implies piece(#[trigger] content(r), w) && clean_row(content(r))
        && f(r) == content(r) + seq!['\n'] by {
        let cell = |x: int| color_cell(frame, x, 2 * r);
        assert forall|x: int| 0 <= x < w implies piece(#[trigger] cell(x), 1) by {
            lemma_color_cell(frame, x, 2 * r);
        }
        lemma_colored_row(w, cell);
    }
    lemma_home_rows(rows, f, content, w);
}

/// The VHS renderer draws one line per two pixel rows, each exactly as many cells
/// wide as the frame, whatever the frame number.
pub proof fn lemma_vhs_picture(frame: VideoFrame, counter: u64)
    ensures
        picture_fits(vhs_text(frame, counter), cell_rows(frame.height as nat), frame.width as nat),
{
    let rows = cell_rows(frame.height as nat);
    let w = frame.width as nat;
    let f = |r: int| vhs_line(frame, counter, r);
    let content = |r: int| concat_map(w, |x: int| vhs_cell(frame, counter, x, 2 * r)) + "\x1b[0m"@;
    assert forall|r: int| 0 <= r < rows implies piece(#[trigger] content(r), w) && clean_row(content(r))
        && f(r) == content(r) + seq!['\n'] by {
        let cell = |x: int| vhs_cell(frame, counter, x, 2 * r);
        assert forall|x: int| 0 <= x < w implies piece(#[trigger] cell(x), 1) by {
            lemma_vhs_cell(frame, counter, x, 2 * r);
        }
        lemma_colored_row(w, cell);
    }
    lemma_home_rows(rows, f, content, w);
}

/// The true-color renderer draws one line per two pixel rows, each exactly as
/// many cells wide as the frame.
pub proof fn lemma_truecolor_picture(frame: VideoFrame)
    ensures
        picture_fits(truecolor_text(frame), cell_rows(frame.height as nat), frame.width as nat),
{
    let rows = cell_rows(frame.height as nat);
    let w = frame.width as nat;
    let f = |r: int| truecolor_line(frame, r);
    let content = |r: int| concat_map(w, |x: int| truecolor_cell(frame, x, 2 * r)) + "\x1b[0m"@;
    assert forall|r: int| 0 <= r < rows implies piece(#[trigger] content(r), w) && clean_row(content(r))
        && f(r) == content(r) + seq!['\n'] by {
        let cell = |x: int| truecolor_cell(frame, x, 2 * r);
        assert forall|x: int| 0 <= x < w implies piece(#[trigger] cell(x), 1) by {
            lemma_truecolor_cell(frame, x, 2 * r);
        }
        lemma_colored_row(w, cell);
    }
    lemma_home_rows(rows, f, content, w);
}

/// Around a picture that fits a `width` x `height` frame, every line of the
/// television is `width + 29` cells wide and there are `cell_rows(height) + 6`
/// lines, once the screen is at least 16 cells wide.
pub proof fn lemma_tv_around_picture(screen: Seq<char>, width: nat, height: nat)
    requires
        width >= 16,
        picture_fits(screen, cell_rows(height), width),
    ensures
        lines_from(tv_text(screen, width, height), 0).len() == cell_rows(height) + 6,
        forall|i: int|
            0 <= i < lines_from(tv_text(screen, width, height), 0).len() ==> piece(
                #[trigger] lines_from(tv_text(screen, width, height), 0)[i],
                width + 29,
            ),
{
    lemma_tv_rectangular(screen, width, height);
}

} // verus!
