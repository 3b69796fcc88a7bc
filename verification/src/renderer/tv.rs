//! The CRT television cabinet drawn around another renderer's picture.
use vstd::prelude::*;

use crate::decoder::{max_frame_width, VideoFrame};
use crate::renderer::{cell_rows, Renderer};
use crate::text::{chars_of, concat_map, push_repeat, repeat};

verus! {

/// Width of the control panel on the right of the screen, in cells.
pub const PANEL_WIDTH: usize = 23;

/// Width of the inside of the control panel, in cells.
pub const PANEL_CONTENT_WIDTH: usize = 18;

// ---------------------------------------------------------------------------
// Visible width: characters that are not part of an ANSI escape sequence.
// ---------------------------------------------------------------------------

/// Scanner state: outside an escape sequence.
pub open spec fn plain_state() -> u8 {
    0
}

/// Scanner state: right after an ESC character.
pub open spec fn escape_state() -> u8 {
    1
}

/// Scanner state: inside a control sequence `ESC [ ...`, until a final byte 0x40..=0x7e.
pub open spec fn csi_state() -> u8 {
    2
}

/// A final character of a control sequence.
pub open spec fn is_csi_final(c: char) -> bool {
    0x40 <= (c as u32) <= 0x7e
}

/// One step of the width scanner: the visible count and the state after `c`.
pub open spec fn scan_step(acc: (nat, u8), c: char) -> (nat, u8) {
    if acc.1 == csi_state() {
        if is_csi_final(c) {
            (acc.0, plain_state())
        } else {
            (acc.0, csi_state())
        }
    } else if acc.1 == escape_state() && c == '[' {
        (acc.0, csi_state())
    } else if c == '\x1b' {
        (acc.0, escape_state())
    } else {
        (acc.0 + 1, plain_state())
    }
}

/// The scanner run from `acc` over `s`.
pub open spec fn scan_from(acc: (nat, u8), s: Seq<char>) -> (nat, u8)
    decreases s.len(),
{
    if s.len() == 0 {
        acc
    } else {
        scan_step(scan_from(acc, s.drop_last()), s.last())
    }
}

/// The number of cells a line occupies on the terminal: every character except
/// those of ANSI escape sequences counts as one cell.
pub open spec fn visible_width_of(s: Seq<char>) -> nat {
    scan_from((0, plain_state()), s).0
}

// ---------------------------------------------------------------------------
// Lines of the inner renderer's output, as `str::lines` splits them.
// ---------------------------------------------------------------------------

/// The index of the first newline at or after `p`, or the length of `s`.
pub open spec fn line_end(s: Seq<char>, p: int) -> int
    decreases s.len() - p,
{
    if p >= s.len() {
        s.len() as int
    } else if s[p] == '\n' {
        p
    } else {
        line_end(s, p + 1)
    }
}

pub proof fn lemma_line_end(s: Seq<char>, p: int)
    requires
        0 <= p <= s.len(),
    ensures
        p <= line_end(s, p) <= s.len(),
        line_end(s, p) < s.len() ==> s[line_end(s, p)] == '\n',
        forall|i: int| p <= i < line_end(s, p) ==> s[i] != '\n',
    decreases s.len() - p,
{
    if p < s.len() && s[p] != '\n' {
        lemma_line_end(s, p + 1);
    }
}

/// The line that starts at `p` and ends at `e`: a carriage return before the
/// newline is not part of it.
pub open spec fn line_text(s: Seq<char>, p: int, e: int) -> Seq<char> {
    let raw = s.subrange(p, e);
    if e < s.len() && raw.len() > 0 && raw.last() == '\r' {
        raw.drop_last()
    } else {
        raw
    }
}

/// The lines of `s` from position `p` on.
pub open spec fn lines_from(s: Seq<char>, p: int) -> Seq<Seq<char>>
    decreases s.len() + 1 - p,
{
    if p < 0 || p >= s.len() {
        Seq::empty()
    } else {
        let e = line_end(s, p);
        proof {
            lemma_line_end(s, p);
        }
        seq![line_text(s, p, e)] + lines_from(s, e + 1)
    }
}

/// The text without a leading cursor-home sequence.
pub open spec fn strip_home(s: Seq<char>) -> Seq<char> {
    if s.len() >= 3 && s[0] == '\x1b' && s[1] == '[' && s[2] == 'H' {
        s.skip(3)
    } else {
        s
    }
}

// ---------------------------------------------------------------------------
// The cabinet.
// ---------------------------------------------------------------------------

pub open spec fn top_text(total_width: nat) -> Seq<char> {
    "\x1b[90m"@ + "╔"@ + repeat('═', (total_width - 2) as nat) + "╗"@ + "\x1b[0m"@
}

pub open spec fn bottom_text(total_width: nat) -> Seq<char> {
    "\x1b[90m"@ + "╚"@ + repeat('═', (total_width - 2) as nat) + "╝"@ + "\x1b[0m"@
}

/// The free space of the brand row between "RETROTERM" and "CRT-480".
pub open spec fn brand_gap(screen_row_width: nat) -> nat {
    if screen_row_width >= 22 {
        (screen_row_width - 22) as nat
    } else {
        0
    }
}

pub open spec fn brand_text(screen_row_width: nat) -> Seq<char> {
    "\x1b[90m"@ + "║"@ + "  "@ + "\x1b[97m"@ + "RETROTERM"@ + repeat(' ', brand_gap(screen_row_width))
        + "CRT-480"@ + "\x1b[90m"@ + "  ║"@ + "\x1b[0m"@
}

pub open spec fn panel_header_text() -> Seq<char> {
    "\x1b[90m"@ + "  ┌──────────────────┐║"@ + "\x1b[0m"@
}

pub open spec fn panel_separator_text() -> Seq<char> {
    "\x1b[90m"@ + "  │                  │║"@ + "\x1b[0m"@
}

pub open spec fn panel_bottom_text() -> Seq<char> {
    "\x1b[90m"@ + "  └──────────────────┘║"@ + "\x1b[0m"@
}

pub open spec fn bezel_top_text(screen_width: nat) -> Seq<char> {
    "\x1b[90m"@ + "║"@ + " ╭"@ + repeat('─', screen_width) + "╮ ║"@
}

pub open spec fn bezel_bottom_text(screen_width: nat) -> Seq<char> {
    "\x1b[90m"@ + "║"@ + " ╰"@ + repeat('─', screen_width) + "╯ ║"@
}

/// The label on the control panel next to screen row `row`.
pub open spec fn control_label(row: int) -> Seq<char> {
    if row == 0 {
        "● REC"@
    } else if row == 1 {
        "▶ PLAY"@
    } else if row == 3 {
        "     ◉    ◉"@
    } else if row == 4 {
        "    VOL   CH"@
    } else if row == 6 || row == 7 {
        "  ▒▒▒▒▒▒▒▒▒▒▒"@
    } else {
        ""@
    }
}

/// Spaces that fill a text of visible width `used` up to `width` cells.
pub open spec fn fill(used: nat, width: nat) -> Seq<char> {
    if used < width {
        repeat(' ', (width - used) as nat)
    } else {
        Seq::empty()
    }
}

pub open spec fn controls_text(row: int) -> Seq<char> {
    let label = control_label(row);
    "\x1b[90m"@ + "  │ "@ + label + fill(visible_width_of(label), 17) + "│║"@ + "\x1b[0m"@
}

/// The speaker grille pattern at position `i`.
pub open spec fn speaker_char(i: int) -> char {
    if i % 6 == 0 || i % 6 == 1 {
        '·'
    } else if i % 6 == 2 || i % 6 == 3 {
        '•'
    } else {
        ' '
    }
}

pub open spec fn grille_width(total_width: nat) -> nat {
    if total_width >= 6 {
        (total_width - 6) as nat
    } else {
        0
    }
}

pub open spec fn bottom_panel_text(total_width: nat) -> Seq<char> {
    "\x1b[90m"@ + "║"@ + "  "@ + Seq::new(grille_width(total_width), |i: int| speaker_char(i)) + "  ║"@
        + "\x1b[0m"@
}

/// The picture part of screen row `row`: the inner line (odd rows dimmed like a
/// scanline) padded to the screen width, or blank when the picture has no such line.
pub open spec fn screen_body(line: Option<Seq<char>>, row: int, screen_width: nat) -> Seq<char> {
    match line {
        Some(l) => (if row % 2 == 1 {
            "\x1b[2m"@ + l + "\x1b[22m"@
        } else {
            l
        }) + fill(visible_width_of(l), screen_width),
        None => repeat(' ', screen_width),
    }
}

pub open spec fn screen_row_text(line: Option<Seq<char>>, row: int, screen_width: nat) -> Seq<char> {
    seq!['║'] + "  "@ + screen_body(line, row, screen_width) + "  "@ + seq!['║'] + controls_text(row) + seq!['\n']
}

/// The line for screen row `row`, if the picture has that many lines.
pub open spec fn line_at(lines: Seq<Seq<char>>, row: int) -> Option<Seq<char>> {
    if 0 <= row < lines.len() {
        Some(lines[row])
    } else {
        None
    }
}

/// The cabinet above the screen rows.
pub open spec fn tv_head(width: nat) -> Seq<char> {
    let screen_row_width = width + 6;
    let total_width = screen_row_width + 23;
    top_text(total_width) + seq!['\n'] + brand_text(screen_row_width) + panel_header_text() + seq!['\n']
        + bezel_top_text(width) + panel_separator_text() + seq!['\n']
}

/// The screen rows showing the picture `lines`.
pub open spec fn tv_rows(lines: Seq<Seq<char>>, width: nat, height: nat) -> Seq<char> {
    concat_map(cell_rows(height), |row: int| screen_row_text(line_at(lines, row), row, width))
}

/// The cabinet below the screen rows.
pub open spec fn tv_tail(width: nat) -> Seq<char> {
    let total_width = width + 29;
    bezel_bottom_text(width) + panel_bottom_text() + seq!['\n'] + bottom_panel_text(total_width) + seq!['\n']
        + bottom_text(total_width) + seq!['\n']
}

/// The television around a picture `screen` rendered from a `width` x `height` frame.
pub open spec fn tv_text(screen: Seq<char>, width: nat, height: nat) -> Seq<char> {
    tv_head(width) + tv_rows(lines_from(strip_home(screen), 0), width, height) + tv_tail(width)
}


// ---------------------------------------------------------------------------
// Executable parts.
// ---------------------------------------------------------------------------

/// The visible width of `chars[start..end]`.
fn scan_range(chars: &Vec<char>, start: usize, end: usize) -> (w: usize)
    requires
        start <= end <= chars@.len(),
    ensures
        w == visible_width_of(chars@.subrange(start as int, end as int)),
{
    let mut width: usize = 0;
    let mut state: u8 = 0;
    let mut i = start;
    while i < end
        invariant
            start <= i <= end <= chars@.len(),
            width <= i - start,
            (width as nat, state) == scan_from((0, plain_state()), chars@.subrange(start as int, i as int)),
        decreases end - i,
    {
        let c = chars[i];
        let ghost prefix = chars@.subrange(start as int, i as int);
        if state == 2 {
            if 0x40 <= (c as u32) && (c as u32) <= 0x7e {
                state = 0;
            }
        } else if state == 1 && c == '[' {
            state = 2;
        } else if c == '\x1b' {
            state = 1;
        } else {
            width = width + 1;
            state = 0;
        }
        i = i + 1;
        assert(chars@.subrange(start as int, i as int).drop_last() =~= prefix);
    }
    width
}

/// The number of terminal cells a line occupies: ANSI escape sequences take no room.
pub fn visible_width(line: &str) -> (w: usize)
    ensures
        w == visible_width_of(line@),
{
    let chars = chars_of(line);
    assert(chars@.subrange(0, chars@.len() as int) =~= line@);
    scan_range(&chars, 0, chars.len())
}

/// The characters of `chars` from position `n` on.
fn skip_chars(chars: &Vec<char>, n: usize) -> (v: Vec<char>)
    requires
        n <= chars@.len(),
    ensures
        v@ == chars@.skip(n as int),
{
    let mut v: Vec<char> = Vec::new();
    let mut i = n;
    while i < chars.len()
        invariant
            n <= i <= chars@.len(),
            v@ == chars@.subrange(n as int, i as int),
        decreases chars.len() - i,
    {
        v.push(chars[i]);
        i = i + 1;
        assert(v@ =~= chars@.subrange(n as int, i as int));
    }
    assert(v@ =~= chars@.skip(n as int));
    v
}

/// The next line of `chars` starting at `pos`, and the position after its newline.
fn next_line(chars: &Vec<char>, pos: usize) -> (res: (String, usize))
    requires
        pos < chars@.len(),
    ensures
        res.0@ == line_text(chars@, pos as int, line_end(chars@, pos as int)),
        pos < res.1 <= chars@.len(),
        lines_from(chars@, pos as int) == seq![res.0@] + lines_from(chars@, res.1 as int),
{
    proof {
        lemma_line_end(chars@, pos as int);
    }
    let mut end = pos;
    while end < chars.len() && chars[end] != '\n'
        invariant
            pos <= end <= chars@.len(),
            line_end(chars@, pos as int) == line_end(chars@, end as int),
        decreases chars.len() - end,
    {
        end = end + 1;
    }
    let stop = if end < chars.len() && end > pos && chars[end - 1] == '\r' {
        end - 1
    } else {
        end
    };
    let mut line = String::new();
    let mut i = pos;
    while i < stop
        invariant
            pos <= i <= stop <= end <= chars@.len(),
            line@ == chars@.subrange(pos as int, i as int),
        decreases stop - i,
    {
        line.push(chars[i]);
        i = i + 1;
        assert(line@ =~= chars@.subrange(pos as int, i as int));
    }
    assert(line@ =~= line_text(chars@, pos as int, end as int));
    let next = if end < chars.len() { end + 1 } else { end };
    proof {
        assert(line_end(chars@, end as int) == end);
        assert(lines_from(chars@, pos as int) == seq![line_text(chars@, pos as int, end as int)]
            + lines_from(chars@, end + 1));
        assert(lines_from(chars@, end + 1) == lines_from(chars@, next as int));
    }
    (line, next)
}

fn render_top(output: &mut String, total_width: usize)
    requires
        total_width >= 2,
    ensures
        final(output)@ == old(output)@ + top_text(total_width as nat),
{
    output.push_str("\x1b[90m");
    output.push_str("╔");
    push_repeat(output, '═', total_width - 2);
    output.push_str("╗");
    output.push_str("\x1b[0m");
    assert(output@ =~= old(output)@ + top_text(total_width as nat));
}

fn render_brand_row(output: &mut String, screen_row_width: usize)
    requires
        screen_row_width >= 2,
    ensures
        final(output)@ == old(output)@ + brand_text(screen_row_width as nat),
{
    output.push_str("\x1b[90m");
    output.push_str("║");
    output.push_str("  ");
    let left = "RETROTERM";
    let right = "CRT-480";
    // Content between the outer left/right borders.
    let content_width = screen_row_width - 2;
    output.push_str("\x1b[97m");
    output.push_str(left);
    // Two spaces, "RETROTERM" (9 cells), "CRT-480" (7 cells) and two spaces.
    let remaining = content_width.saturating_sub(2 + 9 + 7 + 2);
    push_repeat(output, ' ', remaining);
    output.push_str(right);
    output.push_str("\x1b[90m");
    output.push_str("  ║");
    output.push_str("\x1b[0m");
    assert(output@ =~= old(output)@ + brand_text(screen_row_width as nat));
}

fn render_panel_header(output: &mut String)
    ensures
        final(output)@ == old(output)@ + panel_header_text(),
{
    // Exactly PANEL_WIDTH cells: 2 spaces, a corner, 18 dashes, a corner and the border.
    output.push_str("\x1b[90m");
    output.push_str("  ┌──────────────────┐║");
    output.push_str("\x1b[0m");
}

fn render_bezel_top(output: &mut String, screen_width: usize)
    ensures
        final(output)@ == old(output)@ + bezel_top_text(screen_width as nat),
{
    output.push_str("\x1b[90m");
    output.push_str("║");
    output.push_str(" ╭");
    push_repeat(output, '─', screen_width);
    output.push_str("╮ ║");
    assert(output@ =~= old(output)@ + bezel_top_text(screen_width as nat));
}

fn render_panel_separator(output: &mut String)
    ensures
        final(output)@ == old(output)@ + panel_separator_text(),
{
    output.push_str("\x1b[90m");
    output.push_str("  │                  │║");
    output.push_str("\x1b[0m");
}

fn render_bezel_bottom(output: &mut String, screen_width: usize)
    ensures
        final(output)@ == old(output)@ + bezel_bottom_text(screen_width as nat),
{
    output.push_str("\x1b[90m");
    output.push_str("║");
    output.push_str(" ╰");
    push_repeat(output, '─', screen_width);
    output.push_str("╯ ║");
    assert(output@ =~= old(output)@ + bezel_bottom_text(screen_width as nat));
}

fn render_panel_bottom(output: &mut String)
    ensures
        final(output)@ == old(output)@ + panel_bottom_text(),
{
    output.push_str("\x1b[90m");
    output.push_str("  └──────────────────┘║");
    output.push_str("\x1b[0m");
}

fn render_scanline(output: &mut String, line: &str)
    ensures
        final(output)@ == old(output)@ + "\x1b[2m"@ + line@ + "\x1b[22m"@,
{
    output.push_str("\x1b[2m");
    output.push_str(line);
    output.push_str("\x1b[22m");
}

fn control_label_of(row: usize) -> (label: &'static str)
    ensures
        label@ == control_label(row as int),
{
    match row {
        0 => "● REC",
        1 => "▶ PLAY",
        2 => "",
        3 => "     ◉    ◉",
        4 => "    VOL   CH",
        5 => "",
        6 => "  ▒▒▒▒▒▒▒▒▒▒▒",
        7 => "  ▒▒▒▒▒▒▒▒▒▒▒",
        8 => "",
        _ => "",
    }
}

fn render_controls(output: &mut String, row: usize)
    ensures
        final(output)@ == old(output)@ + controls_text(row as int),
{
    output.push_str("\x1b[90m");
    let content = control_label_of(row);
    // 2 spaces + a border + 18 content cells + a border + the cabinet border = 23 cells.
    output.push_str("  │ ");
    let content_width = PANEL_CONTENT_WIDTH - 1;
    let visible = visible_width(content);
    output.push_str(content);
    if visible < content_width {
        push_repeat(output, ' ', content_width - visible);
    }
    output.push_str("│║");
    output.push_str("\x1b[0m");
    assert(output@ =~= old(output)@ + controls_text(row as int));
}

fn render_bottom_panel(output: &mut String, total_width: usize)
    ensures
        final(output)@ == old(output)@ + bottom_panel_text(total_width as nat),
{
    output.push_str("\x1b[90m");
    output.push_str("║");
    output.push_str("  ");
    // The border, 2 spaces, the speaker, 2 spaces and the border fill the whole width.
    let speaker_width = total_width.saturating_sub(6);
    let ghost start = output@;
    let mut index: usize = 0;
    while index < speaker_width
        invariant
            index <= speaker_width,
            speaker_width == grille_width(total_width as nat),
            output@ == start + Seq::new(index as nat, |i: int| speaker_char(i)),
        decreases speaker_width - index,
    {
        let character = match index % 6 {
            0 | 1 => '·',
            2 | 3 => '•',
            _ => ' ',
        };
        output.push(character);
        index = index + 1;
        assert(output@ =~= start + Seq::new(index as nat, |i: int| speaker_char(i)));
    }
    output.push_str("  ║");
    output.push_str("\x1b[0m");
    assert(output@ =~= old(output)@ + bottom_panel_text(total_width as nat));
}

fn render_bottom(output: &mut String, total_width: usize)
    requires
        total_width >= 2,
    ensures
        final(output)@ == old(output)@ + bottom_text(total_width as nat),
{
    output.push_str("\x1b[90m");
    output.push_str("╚");
    push_repeat(output, '═', total_width - 2);
    output.push_str("╝");
    output.push_str("\x1b[0m");
    assert(output@ =~= old(output)@ + bottom_text(total_width as nat));
}

/// The first line of `s` from position `p`, if there is one.
pub open spec fn first_line(s: Seq<char>, p: int) -> Option<Seq<char>> {
    if lines_from(s, p).len() > 0 {
        Some(lines_from(s, p)[0])
    } else {
        None
    }
}

/// Draws screen row `row` with the next line of `body` from `pos`, and returns
/// the position of the line after it.
fn render_screen_row(output: &mut String, body: &Vec<char>, pos: usize, row: usize, screen_width: usize) -> (next: usize)
    requires
        pos <= body@.len(),
    ensures
        next <= body@.len(),
        final(output)@ == old(output)@ + screen_row_text(first_line(body@, pos as int), row as int, screen_width as nat),
        lines_from(body@, next as int) == lines_from(body@, pos as int).skip(
            if pos < body@.len() { 1int } else { 0int },
        ),
{
    // Left screen frame.
    output.push('║');
    output.push_str("  ");
    let ghost before_body = output@;
    let mut next = pos;
    if pos < body.len() {
        let (line, after) = next_line(body, pos);
        next = after;
        if row % 2 == 1 {
            render_scanline(output, line.as_str());
        } else {
            output.push_str(line.as_str());
        }
        let visible = visible_width(line.as_str());
        if visible < screen_width {
            push_repeat(output, ' ', screen_width - visible);
        }
        assert(output@ =~= before_body + screen_body(Some(line@), row as int, screen_width as nat));
        assert(lines_from(body@, next as int) =~= lines_from(body@, pos as int).skip(1));
    } else {
        push_repeat(output, ' ', screen_width);
        assert(output@ =~= before_body + screen_body(None, row as int, screen_width as nat));
        assert(lines_from(body@, pos as int) =~= lines_from(body@, pos as int).skip(0));
    }
    output.push_str("  ");
    output.push('║');
    // Right control panel.
    render_controls(output, row);
    output.push('\n');
    assert(output@ =~= old(output)@ + screen_row_text(first_line(body@, pos as int), row as int, screen_width as nat));
    next
}

/// Wraps any visual renderer inside the RetroTermPlayer CRT television.
pub struct TvRenderer<R: Renderer> {
    inner: R,
    screen: String,
}

impl<R: Renderer> TvRenderer<R> {
    /// The renderer that draws the picture.
    pub closed spec fn inner_renderer(&self) -> R {
        self.inner
    }

    /// The inner renderer's text for the last frame drawn.
    pub closed spec fn screen_text(&self) -> Seq<char> {
        self.screen@
    }

    pub fn new(inner: R) -> (tv: Self)
        ensures
            tv.inner_renderer() == inner,
    {
        TvRenderer { inner, screen: String::new() }
    }
}

/// Draws the cabinet above the screen rows.
fn render_head(output: &mut String, screen_width: usize)
    requires
        screen_width + 29 <= usize::MAX,
    ensures
        final(output)@ == old(output)@ + tv_head(screen_width as nat),
{
    // Screen section: border, 2 spaces, the picture, 2 spaces, border.
    let screen_row_width = screen_width + 6;
    // Complete TV width: screen section + control panel.
    let total_width = screen_row_width + PANEL_WIDTH;
    render_top(output, total_width);
    output.push('\n');
    render_brand_row(output, screen_row_width);
    render_panel_header(output);
    output.push('\n');
    render_bezel_top(output, screen_width);
    render_panel_separator(output);
    output.push('\n');
    assert(output@ =~= old(output)@ + tv_head(screen_width as nat));
}

/// Draws the cabinet below the screen rows.
fn render_tail(output: &mut String, screen_width: usize)
    requires
        screen_width + 29 <= usize::MAX,
    ensures
        final(output)@ == old(output)@ + tv_tail(screen_width as nat),
{
    let total_width = screen_width + 6 + PANEL_WIDTH;
    render_bezel_bottom(output, screen_width);
    render_panel_bottom(output);
    output.push('\n');
    render_bottom_panel(output, total_width);
    output.push('\n');
    render_bottom(output, total_width);
    output.push('\n');
    assert(output@ =~= old(output)@ + tv_tail(screen_width as nat));
}

/// Draws the screen rows showing the lines of `body`.
fn render_rows(output: &mut String, body: &Vec<char>, screen_width: usize, screen_height: usize)
    ensures
        final(output)@ == old(output)@ + concat_map(
            screen_height as nat,
            |row: int| screen_row_text(line_at(lines_from(body@, 0), row), row, screen_width as nat),
        ),
{
    let ghost lines = lines_from(body@, 0);
    let ghost row_text = |row: int| screen_row_text(line_at(lines, row), row, screen_width as nat);
    let mut pos: usize = 0;
    let mut row: usize = 0;
    assert(lines.skip(0) =~= lines);
    while row < screen_height
        invariant
            row <= screen_height,
            pos <= body@.len(),
            lines == lines_from(body@, 0),
            row_text == (|row: int| screen_row_text(line_at(lines, row), row, screen_width as nat)),
            lines_from(body@, pos as int) == lines.skip(if row <= lines.len() { row as int } else { lines.len() as int }),
            output@ == old(output)@ + concat_map(row as nat, row_text),
        decreases screen_height - row,
    {
        proof {
            if pos < body@.len() {
                assert(lines_from(body@, pos as int).len() > 0);
                assert(first_line(body@, pos as int) == line_at(lines, row as int));
            } else {
                assert(lines_from(body@, pos as int).len() == 0);
                assert(first_line(body@, pos as int) == line_at(lines, row as int));
            }
        }
        let next = render_screen_row(output, body, pos, row, screen_width);
        proof {
            if pos < body@.len() {
                assert(lines_from(body@, next as int) =~= lines.skip(row + 1));
            }
        }
        pos = next;
        row = row + 1;
        assert(output@ =~= old(output)@ + concat_map(row as nat, row_text));
    }
}

/// Replaces `output` with the television around `screen`, the text another
/// renderer produced for a `width` x `height` frame.
pub fn render_cabinet(screen: &str, width: usize, height: usize, output: &mut String)
    requires
        width <= max_frame_width(),
    ensures
        final(output)@ == tv_text(screen@, width as nat, height as nat),
{
    output.clear();
    let chars = chars_of(screen);
    let start = if chars.len() >= 3 && chars[0] == '\x1b' && chars[1] == '[' && chars[2] == 'H' {
        3
    } else {
        0
    };
    let body = skip_chars(&chars, start);
    assert(body@ == strip_home(screen@));
    let screen_width = width;
    let screen_height = height / 2 + height % 2;
    render_head(output, screen_width);
    render_rows(output, &body, screen_width, screen_height);
    render_tail(output, screen_width);
    assert(output@ =~= tv_text(screen@, width as nat, height as nat));
}

impl<R: Renderer> Renderer for TvRenderer<R> {
    open spec fn rendered_text(&self, frame: VideoFrame) -> Seq<char> {
        tv_text(self.inner_renderer().rendered_text(frame), frame.width as nat, frame.height as nat)
    }

    /// The inner renderer drew the frame once, into the emptied screen buffer.
    open spec fn advances_to(&self, after: &Self, frame: VideoFrame) -> bool {
        &&& self.inner_renderer().advances_to(&after.inner_renderer(), frame)
        &&& after.screen_text() == self.inner_renderer().rendered_text(frame)
    }

    fn render(&mut self, frame: &VideoFrame, output: &mut String) {
        self.screen.clear();
        self.inner.render(frame, &mut self.screen);
        render_cabinet(self.screen.as_str(), frame.width, frame.height, output);
    }
}

} // verus!
