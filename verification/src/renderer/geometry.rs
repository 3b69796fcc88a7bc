//! The shape of the rendered text: how many terminal cells each line occupies.
use vstd::prelude::*;

use crate::renderer::cell_rows;
use crate::text::{concat_map, lemma_repeat_len, repeat};

use crate::renderer::tv::{bezel_bottom_text, bezel_top_text, bottom_panel_text, bottom_text, brand_gap, brand_text, control_label, controls_text, fill, grille_width, panel_bottom_text, panel_header_text, panel_separator_text, speaker_char, top_text, csi_state, escape_state, is_csi_final, plain_state, scan_from, visible_width_of, lemma_line_end, line_at, line_end, line_text, lines_from, screen_body, screen_row_text, strip_home, tv_head, tv_rows, tv_tail, tv_text};

verus! {

/// The cells `s` occupies when the scanner starts in state `st`.
pub open spec fn width_in(st: u8, s: Seq<char>) -> nat {
    scan_from((0, st), s).0
}

/// The scanner state after `s`, starting in state `st`.
pub open spec fn state_after(st: u8, s: Seq<char>) -> u8 {
    scan_from((0, st), s).1
}

/// The count of a scan only adds to the count it starts with.
pub proof fn lemma_scan_shift(n: nat, st: u8, s: Seq<char>)
    ensures
        scan_from((n, st), s) == (n + width_in(st, s), state_after(st, s)),
    decreases s.len(),
{
    if s.len() > 0 {
        lemma_scan_shift(n, st, s.drop_last());
    }
}

/// Scanning a concatenation scans the parts one after the other.
pub proof fn lemma_scan_concat(acc: (nat, u8), a: Seq<char>, b: Seq<char>)
    ensures
        scan_from(acc, a + b) == scan_from(scan_from(acc, a), b),
    decreases b.len(),
{
    if b.len() == 0 {
        assert(a + b =~= a);
    } else {
        assert((a + b).drop_last() =~= a + b.drop_last());
        assert((a + b).last() == b.last());
        lemma_scan_concat(acc, a, b.drop_last());
    }
}

/// Widths add up over a concatenation.
pub proof fn lemma_width_concat(st: u8, a: Seq<char>, b: Seq<char>)
    ensures
        width_in(st, a + b) == width_in(st, a) + width_in(state_after(st, a), b),
        state_after(st, a + b) == state_after(state_after(st, a), b),
{
    lemma_scan_concat((0, st), a, b);
    lemma_scan_shift(width_in(st, a), state_after(st, a), b);
}

/// Text without an escape character, scanned from the plain state, occupies one
/// cell per character and leaves the scanner in the plain state.
pub proof fn lemma_plain_text(s: Seq<char>)
    requires
        forall|i: int| 0 <= i < s.len() ==> s[i] != '\x1b',
    ensures
        width_in(plain_state(), s) == s.len(),
        state_after(plain_state(), s) == plain_state(),
    decreases s.len(),
{
    if s.len() > 0 {
        lemma_plain_text(s.drop_last());
    }
}

/// An escape sequence `ESC [ ... final`, scanned from the plain state, occupies
/// no cell and leaves the scanner in the plain state.
pub proof fn lemma_escape(e: Seq<char>)
    requires
        e.len() >= 3,
        e[0] == '\x1b',
        e[1] == '[',
        is_csi_final(e.last()),
        forall|i: int| 2 <= i < e.len() - 1 ==> !is_csi_final(#[trigger] e[i]),
    ensures
        width_in(plain_state(), e) == 0,
        state_after(plain_state(), e) == plain_state(),
{
    lemma_escape_prefix(e, e.len() - 1);
    assert(e.take(e.len() - 1) =~= e.drop_last());
}

proof fn lemma_escape_prefix(e: Seq<char>, k: int)
    requires
        2 <= k < e.len(),
        e[0] == '\x1b',
        e[1] == '[',
        forall|i: int| 2 <= i < k ==> !is_csi_final(#[trigger] e[i]),
    ensures
        scan_from((0, plain_state()), e.take(k)) == (0nat, csi_state()),
    decreases k,
{
    if k == 2 {
        let t = e.take(2);
        let one = t.drop_last();
        assert(one.drop_last() =~= Seq::<char>::empty());
        assert(one.last() == '\x1b');
        assert(scan_from((0, plain_state()), one.drop_last()) == (0nat, plain_state()));
        assert(scan_from((0, plain_state()), one) == (0nat, escape_state()));
        assert(t.last() == '[');
    } else {
        lemma_escape_prefix(e, k - 1);
        assert(e.take(k).drop_last() =~= e.take(k - 1));
        assert(e.take(k).last() == e[k - 1]);
        assert(!is_csi_final(e[k - 1]));
    }
}

/// Visible widths add up when the first text ends outside any escape sequence:
/// the cells of `a + b` are the cells of `a` and then those of `b`.
pub proof fn lemma_visible_width_concat(a: Seq<char>, b: Seq<char>)
    requires
        state_after(plain_state(), a) == plain_state(),
    ensures
        visible_width_of(a + b) == visible_width_of(a) + visible_width_of(b),
{
    lemma_width_concat(plain_state(), a, b);
}

/// Text without an escape character takes one cell per character.
pub proof fn lemma_visible_width_plain(s: Seq<char>)
    requires
        forall|i: int| 0 <= i < s.len() ==> s[i] != '\x1b',
    ensures
        visible_width_of(s) == s.len(),
        state_after(plain_state(), s) == plain_state(),
{
    lemma_plain_text(s);
}

/// Every escape character of `a` starts a control sequence `ESC [` that a
/// final character (0x40 to 0x7e) closes later in `a`.
pub open spec fn escapes_closed(a: Seq<char>) -> bool {
    forall|i: int|
        0 <= i < a.len() && #[trigger] a[i] == '\x1b' ==> i + 1 < a.len() && a[i + 1] == '[' && exists|j: int|
            i + 1 < j < a.len() && is_csi_final(#[trigger] a[j])
}

/// An `ESC [` at `i` opens a control sequence that is still open after the first
/// `k` characters of `a`.
pub open spec fn open_at(a: Seq<char>, i: int, k: int) -> bool {
    &&& 0 <= i
    &&& i + 2 <= k
    &&& a[i] == '\x1b'
    &&& a[i + 1] == '['
    &&& forall|j: int| i + 2 <= j < k ==> !is_csi_final(#[trigger] a[j])
}

/// Where the scanner stands after the first `k` characters of `a`: right after an
/// escape character, or inside a control sequence opened by an `ESC [` at `i`
/// that no final character has closed yet.
proof fn lemma_scan_states(a: Seq<char>, k: int)
    requires
        0 <= k <= a.len(),
    ensures
        state_after(plain_state(), a.take(k)) == plain_state() || state_after(plain_state(), a.take(k))
            == escape_state() || state_after(plain_state(), a.take(k)) == csi_state(),
        state_after(plain_state(), a.take(k)) == escape_state() ==> k > 0 && a[k - 1] == '\x1b',
        state_after(plain_state(), a.take(k)) == csi_state() ==> exists|i: int| #[trigger] open_at(a, i, k),
    decreases k,
{
    if k > 0 {
        lemma_scan_states(a, k - 1);
        assert(a.take(k).drop_last() =~= a.take(k - 1));
        assert(a.take(k).last() == a[k - 1]);
        let prev = state_after(plain_state(), a.take(k - 1));
        let c = a[k - 1];
        if prev == csi_state() {
            if !is_csi_final(c) {
                let i = choose|i: int| #[trigger] open_at(a, i, k - 1);
                assert forall|j: int| i + 2 <= j < k implies !is_csi_final(#[trigger] a[j]) by {
                    if j < k - 1 {
                    }
                }
                assert(open_at(a, i, k));
            }
        } else if prev == escape_state() && c == '[' {
            let i = k - 2;
            assert(a[i] == '\x1b' && a[i + 1] == '[');
            assert(open_at(a, i, k));
        }
    } else {
        assert(a.take(0) =~= Seq::<char>::empty());
    }
}

/// Text whose escape sequences are all closed ends outside any of them.
pub proof fn lemma_escapes_closed_plain(a: Seq<char>)
    requires
        escapes_closed(a),
    ensures
        state_after(plain_state(), a) == plain_state(),
{
    lemma_scan_states(a, a.len() as int);
    assert(a.take(a.len() as int) =~= a);
    if state_after(plain_state(), a) == escape_state() {
        assert(a[a.len() - 1] == '\x1b');
    }
    if state_after(plain_state(), a) == csi_state() {
        let i = choose|i: int| #[trigger] open_at(a, i, a.len() as int);
        assert(a[i] == '\x1b');
        let j = choose|j: int| i + 1 < j < a.len() && is_csi_final(#[trigger] a[j]);
        assert(!is_csi_final(a[j]));
    }
}

/// Visible widths add up when every escape sequence of the first text is closed.
pub proof fn lemma_visible_width_concat_closed(a: Seq<char>, b: Seq<char>)
    requires
        escapes_closed(a),
    ensures
        visible_width_of(a + b) == visible_width_of(a) + visible_width_of(b),
{
    lemma_escapes_closed_plain(a);
    lemma_visible_width_concat(a, b);
}

/// The text has no newline.
pub open spec fn no_newline(s: Seq<char>) -> bool {
    forall|i: int| 0 <= i < s.len() ==> s[i] != '\n'
}

/// Scanned from the plain state, the text ends in the plain state: it does not
/// stop inside an escape sequence.
pub open spec fn ends_plain(s: Seq<char>) -> bool {
    state_after(plain_state(), s) == plain_state()
}

/// A piece of a line: it has no newline, ends outside any escape sequence, and
/// occupies `cells` terminal cells.
pub open spec fn piece(s: Seq<char>, cells: nat) -> bool {
    &&& no_newline(s)
    &&& ends_plain(s)
    &&& visible_width_of(s) == cells
}

/// Two pieces side by side form a piece as wide as both.
pub proof fn lemma_join(a: Seq<char>, m: nat, b: Seq<char>, n: nat)
    requires
        piece(a, m),
        piece(b, n),
    ensures
        piece(a + b, m + n),
{
    lemma_width_concat(plain_state(), a, b);
    assert forall|i: int| 0 <= i < (a + b).len() implies (a + b)[i] != '\n' by {
        if i >= a.len() {
            assert((a + b)[i] == b[i - a.len()]);
        }
    }
}

/// Text without escape characters or newlines is a piece one cell per character wide.
pub proof fn lemma_plain_piece(s: Seq<char>)
    requires
        forall|i: int| 0 <= i < s.len() ==> s[i] != '\x1b' && s[i] != '\n',
    ensures
        piece(s, s.len()),
{
    lemma_plain_text(s);
}

/// An escape sequence is a piece of no width.
pub proof fn lemma_escape_piece(e: Seq<char>)
    requires
        e.len() >= 3,
        e[0] == '\x1b',
        e[1] == '[',
        is_csi_final(e.last()),
        forall|i: int| 2 <= i < e.len() - 1 ==> !is_csi_final(#[trigger] e[i]) && e[i] != '\n',
    ensures
        piece(e, 0),
{
    lemma_escape(e);
}

/// The escape sequences the cabinet uses take no room.
pub proof fn lemma_cabinet_escapes()
    ensures
        piece("\x1b[90m"@, 0),
        piece("\x1b[97m"@, 0),
        piece("\x1b[0m"@, 0),
        piece("\x1b[2m"@, 0),
        piece("\x1b[22m"@, 0),
{
    reveal_strlit("\x1b[90m");
    reveal_strlit("\x1b[97m");
    reveal_strlit("\x1b[0m");
    reveal_strlit("\x1b[2m");
    reveal_strlit("\x1b[22m");
    lemma_escape_piece("\x1b[90m"@);
    lemma_escape_piece("\x1b[97m"@);
    lemma_escape_piece("\x1b[0m"@);
    lemma_escape_piece("\x1b[2m"@);
    lemma_escape_piece("\x1b[22m"@);
}

/// The visible parts of the cabinet occupy one cell per character.
pub proof fn lemma_cabinet_texts()
    ensures
        piece("╔"@, 1),
        piece("╗"@, 1),
        piece("╚"@, 1),
        piece("╝"@, 1),
        piece("║"@, 1),
        piece("  "@, 2),
        piece("RETROTERM"@, 9),
        piece("CRT-480"@, 7),
        piece("  ║"@, 3),
        piece("  ┌──────────────────┐║"@, 23),
        piece("  │                  │║"@, 23),
        piece("  └──────────────────┘║"@, 23),
        piece(" ╭"@, 2),
        piece("╮ ║"@, 3),
        piece(" ╰"@, 2),
        piece("╯ ║"@, 3),
        piece("  │ "@, 4),
        piece("│║"@, 2),
{
    reveal_strlit("╔");
    reveal_strlit("╗");
    reveal_strlit("╚");
    reveal_strlit("╝");
    reveal_strlit("║");
    reveal_strlit("  ");
    reveal_strlit("RETROTERM");
    reveal_strlit("CRT-480");
    reveal_strlit("  ║");
    reveal_strlit("  ┌──────────────────┐║");
    reveal_strlit("  │                  │║");
    reveal_strlit("  └──────────────────┘║");
    reveal_strlit(" ╭");
    reveal_strlit("╮ ║");
    reveal_strlit(" ╰");
    reveal_strlit("╯ ║");
    reveal_strlit("  │ ");
    reveal_strlit("│║");
    lemma_plain_piece("╔"@);
    lemma_plain_piece("╗"@);
    lemma_plain_piece("╚"@);
    lemma_plain_piece("╝"@);
    lemma_plain_piece("║"@);
    lemma_plain_piece("  "@);
    lemma_plain_piece("RETROTERM"@);
    lemma_plain_piece("CRT-480"@);
    lemma_plain_piece("  ║"@);
    lemma_plain_piece("  ┌──────────────────┐║"@);
    lemma_plain_piece("  │                  │║"@);
    lemma_plain_piece("  └──────────────────┘║"@);
    lemma_plain_piece(" ╭"@);
    lemma_plain_piece("╮ ║"@);
    lemma_plain_piece(" ╰"@);
    lemma_plain_piece("╯ ║"@);
    lemma_plain_piece("  │ "@);
    lemma_plain_piece("│║"@);
}

/// A run of one visible character is as wide as it is long.
pub proof fn lemma_repeat_piece(c: char, n: nat)
    requires
        c != '\x1b',
        c != '\n',
    ensures
        piece(repeat(c, n), n),
{
    lemma_repeat_len(c, n);
    lemma_plain_piece(repeat(c, n));
}

/// Every control-panel label fits the 17 cells of the panel.
pub proof fn lemma_label_piece(row: int)
    ensures
        exists|k: nat| k <= 17 && piece(control_label(row), k),
{
    reveal_strlit("● REC");
    reveal_strlit("▶ PLAY");
    reveal_strlit("     ◉    ◉");
    reveal_strlit("    VOL   CH");
    reveal_strlit("  ▒▒▒▒▒▒▒▒▒▒▒");
    reveal_strlit("");
    let label = control_label(row);
    lemma_plain_piece(label);
    assert(piece(label, label.len()));
}

/// The control panel beside a screen row is 23 cells wide.
pub proof fn lemma_controls_piece(row: int)
    ensures
        piece(controls_text(row), 23),
{
    lemma_cabinet_escapes();
    lemma_cabinet_texts();
    lemma_label_piece(row);
    let label = control_label(row);
    let k = choose|k: nat| k <= 17 && piece(label, k);
    lemma_repeat_piece(' ', (17 - k) as nat);
    assert(fill(visible_width_of(label), 17) == repeat(' ', (17 - k) as nat));
    lemma_join("\x1b[90m"@, 0, "  │ "@, 4);
    lemma_join("\x1b[90m"@ + "  │ "@, 4, label, k);
    lemma_join("\x1b[90m"@ + "  │ "@ + label, 4 + k, repeat(' ', (17 - k) as nat), (17 - k) as nat);
    lemma_join("\x1b[90m"@ + "  │ "@ + label + repeat(' ', (17 - k) as nat), 21, "│║"@, 2);
    lemma_join("\x1b[90m"@ + "  │ "@ + label + repeat(' ', (17 - k) as nat) + "│║"@, 23, "\x1b[0m"@, 0);
}

/// The top and bottom edges of the cabinet are as wide as the cabinet.
pub proof fn lemma_edges(total_width: nat)
    requires
        total_width >= 2,
    ensures
        piece(top_text(total_width), total_width),
        piece(bottom_text(total_width), total_width),
{
    lemma_cabinet_escapes();
    lemma_cabinet_texts();
    let n = (total_width - 2) as nat;
    lemma_repeat_piece('═', n);
    lemma_join("\x1b[90m"@, 0, "╔"@, 1);
    lemma_join("\x1b[90m"@ + "╔"@, 1, repeat('═', n), n);
    lemma_join("\x1b[90m"@ + "╔"@ + repeat('═', n), 1 + n, "╗"@, 1);
    lemma_join("\x1b[90m"@ + "╔"@ + repeat('═', n) + "╗"@, total_width, "\x1b[0m"@, 0);
    lemma_join("\x1b[90m"@, 0, "╚"@, 1);
    lemma_join("\x1b[90m"@ + "╚"@, 1, repeat('═', n), n);
    lemma_join("\x1b[90m"@ + "╚"@ + repeat('═', n), 1 + n, "╝"@, 1);
    lemma_join("\x1b[90m"@ + "╚"@ + repeat('═', n) + "╝"@, total_width, "\x1b[0m"@, 0);
}

/// The brand row is as wide as the screen section, once that is at least 22 cells.
pub proof fn lemma_brand(screen_row_width: nat)
    requires
        screen_row_width >= 22,
    ensures
        piece(brand_text(screen_row_width), screen_row_width),
{
    lemma_cabinet_escapes();
    lemma_cabinet_texts();
    let g = brand_gap(screen_row_width);
    lemma_repeat_piece(' ', g);
    let p1 = "\x1b[90m"@ + "║"@;
    lemma_join("\x1b[90m"@, 0, "║"@, 1);
    lemma_join(p1, 1, "  "@, 2);
    lemma_join(p1 + "  "@, 3, "\x1b[97m"@, 0);
    lemma_join(p1 + "  "@ + "\x1b[97m"@, 3, "RETROTERM"@, 9);
    let p2 = p1 + "  "@ + "\x1b[97m"@ + "RETROTERM"@;
    lemma_join(p2, 12, repeat(' ', g), g);
    lemma_join(p2 + repeat(' ', g), 12 + g, "CRT-480"@, 7);
    lemma_join(p2 + repeat(' ', g) + "CRT-480"@, 19 + g, "\x1b[90m"@, 0);
    lemma_join(p2 + repeat(' ', g) + "CRT-480"@ + "\x1b[90m"@, 19 + g, "  ║"@, 3);
    lemma_join(p2 + repeat(' ', g) + "CRT-480"@ + "\x1b[90m"@ + "  ║"@, 22 + g, "\x1b[0m"@, 0);
}

/// The bezel edges around the picture are as wide as the screen section.
pub proof fn lemma_bezels(screen_width: nat)
    ensures
        piece(bezel_top_text(screen_width), screen_width + 6),
        piece(bezel_bottom_text(screen_width), screen_width + 6),
{
    lemma_cabinet_escapes();
    lemma_cabinet_texts();
    lemma_repeat_piece('─', screen_width);
    lemma_join("\x1b[90m"@, 0, "║"@, 1);
    lemma_join("\x1b[90m"@ + "║"@, 1, " ╭"@, 2);
    lemma_join("\x1b[90m"@ + "║"@ + " ╭"@, 3, repeat('─', screen_width), screen_width);
    lemma_join("\x1b[90m"@ + "║"@ + " ╭"@ + repeat('─', screen_width), 3 + screen_width, "╮ ║"@, 3);
    lemma_join("\x1b[90m"@ + "║"@, 1, " ╰"@, 2);
    lemma_join("\x1b[90m"@ + "║"@ + " ╰"@, 3, repeat('─', screen_width), screen_width);
    lemma_join("\x1b[90m"@ + "║"@ + " ╰"@ + repeat('─', screen_width), 3 + screen_width, "╯ ║"@, 3);
}

/// The panel pieces are 23 cells wide.
pub proof fn lemma_panel_pieces()
    ensures
        piece(panel_header_text(), 23),
        piece(panel_separator_text(), 23),
        piece(panel_bottom_text(), 23),
{
    lemma_cabinet_escapes();
    lemma_cabinet_texts();
    lemma_join("\x1b[90m"@, 0, "  ┌──────────────────┐║"@, 23);
    lemma_join("\x1b[90m"@ + "  ┌──────────────────┐║"@, 23, "\x1b[0m"@, 0);
    lemma_join("\x1b[90m"@, 0, "  │                  │║"@, 23);
    lemma_join("\x1b[90m"@ + "  │                  │║"@, 23, "\x1b[0m"@, 0);
    lemma_join("\x1b[90m"@, 0, "  └──────────────────┘║"@, 23);
    lemma_join("\x1b[90m"@ + "  └──────────────────┘║"@, 23, "\x1b[0m"@, 0);
}

/// The speaker row is as wide as the cabinet.
pub proof fn lemma_bottom_panel(total_width: nat)
    requires
        total_width >= 6,
    ensures
        piece(bottom_panel_text(total_width), total_width),
{
    lemma_cabinet_escapes();
    lemma_cabinet_texts();
    let n = grille_width(total_width);
    let grille = Seq::new(n, |i: int| speaker_char(i));
    lemma_plain_piece(grille);
    lemma_join("\x1b[90m"@, 0, "║"@, 1);
    lemma_join("\x1b[90m"@ + "║"@, 1, "  "@, 2);
    lemma_join("\x1b[90m"@ + "║"@ + "  "@, 3, grille, n);
    lemma_join("\x1b[90m"@ + "║"@ + "  "@ + grille, 3 + n, "  ║"@, 3);
    lemma_join("\x1b[90m"@ + "║"@ + "  "@ + grille + "  ║"@, total_width, "\x1b[0m"@, 0);
}

// ---------------------------------------------------------------------------
// Lines.
// ---------------------------------------------------------------------------

/// The rows, each followed by a newline.
pub open spec fn joined(rows: Seq<Seq<char>>) -> Seq<char>
    decreases rows.len(),
{
    if rows.len() == 0 {
        Seq::empty()
    } else {
        joined(rows.drop_last()) + rows.last() + seq!['\n']
    }
}

proof fn lemma_joined_concat(a: Seq<Seq<char>>, b: Seq<Seq<char>>)
    ensures
        joined(a + b) == joined(a) + joined(b),
    decreases b.len(),
{
    if b.len() == 0 {
        assert(a + b =~= a);
        assert(joined(a) + joined(b) =~= joined(a));
    } else {
        assert((a + b).drop_last() =~= a + b.drop_last());
        assert((a + b).last() == b.last());
        lemma_joined_concat(a, b.drop_last());
        assert(joined(a + b) =~= joined(a) + joined(b));
    }
}

pub proof fn lemma_concat_map_joined(n: nat, f: spec_fn(int) -> Seq<char>, g: spec_fn(int) -> Seq<char>)
    requires
        forall|i: int| 0 <= i < n ==> #[trigger] f(i) == g(i) + seq!['\n'],
    ensures
        concat_map(n, f) == joined(Seq::new(n, g)),
    decreases n,
{
    if n > 0 {
        lemma_concat_map_joined((n - 1) as nat, f, g);
        assert(Seq::new(n, g).drop_last() =~= Seq::new((n - 1) as nat, g));
        assert(f(n - 1) == g(n - 1) + seq!['\n']);
        assert(concat_map(n, f) =~= joined(Seq::new(n, g)));
    }
}

proof fn lemma_line_end_shift(a: Seq<char>, t: Seq<char>, q: int)
    requires
        0 <= q <= t.len(),
    ensures
        line_end(a + t, a.len() + q) == a.len() + line_end(t, q),
    decreases t.len() - q,
{
    if q < t.len() {
        assert((a + t)[a.len() + q] == t[q]);
        if t[q] != '\n' {
            lemma_line_end_shift(a, t, q + 1);
        }
    }
}

/// The lines of a text after a prefix are the lines of the text alone.
proof fn lemma_lines_shift(a: Seq<char>, t: Seq<char>, q: int)
    requires
        0 <= q,
    ensures
        lines_from(a + t, a.len() + q) == lines_from(t, q),
    decreases t.len() + 1 - q,
{
    if q < t.len() {
        let e = line_end(t, q);
        lemma_line_end(t, q);
        lemma_line_end_shift(a, t, q);
        assert((a + t).subrange(a.len() + q, a.len() + e) =~= t.subrange(q, e));
        assert(line_text(a + t, a.len() + q, a.len() + e) == line_text(t, q, e));
        lemma_lines_shift(a, t, e + 1);
        assert(lines_from(a + t, a.len() + e + 1) == lines_from(t, e + 1));
    }
}

/// No line contains a newline.
pub proof fn lemma_lines_no_newline(s: Seq<char>, p: int)
    ensures
        forall|i: int| 0 <= i < lines_from(s, p).len() ==> no_newline(#[trigger] lines_from(s, p)[i]),
    decreases s.len() + 1 - p,
{
    if 0 <= p < s.len() {
        let e = line_end(s, p);
        lemma_line_end(s, p);
        lemma_lines_no_newline(s, e + 1);
        let l = line_text(s, p, e);
        assert forall|k: int| 0 <= k < l.len() implies l[k] != '\n' by {
            assert(l[k] == s[p + k]);
        }
        assert forall|i: int| 0 <= i < lines_from(s, p).len() implies no_newline(
            #[trigger] lines_from(s, p)[i],
        ) by {
            if i > 0 {
                assert(lines_from(s, p)[i] == lines_from(s, e + 1)[i - 1]);
            }
        }
    }
}

/// A row that `str::lines` gives back whole: no newline in it and no carriage
/// return at its end.
pub open spec fn clean_row(r: Seq<char>) -> bool {
    no_newline(r) && (r.len() == 0 || r.last() != '\r')
}

/// Rows joined by newlines split back into the same rows.
pub proof fn lemma_lines_of_joined(rows: Seq<Seq<char>>)
    requires
        forall|i: int| 0 <= i < rows.len() ==> clean_row(#[trigger] rows[i]),
    ensures
        lines_from(joined(rows), 0) == rows,
    decreases rows.len(),
{
    if rows.len() > 0 {
        let r = rows[0];
        let rest = rows.drop_first();
        assert(rows =~= seq![r] + rest);
        lemma_joined_concat(seq![r], rest);
        assert(seq![r].drop_last() =~= Seq::<Seq<char>>::empty());
        let a = r + seq!['\n'];
        assert(joined(Seq::<Seq<char>>::empty()) == Seq::<char>::empty());
        assert(joined(seq![r]) =~= a);
        let s = joined(rows);
        assert(s == a + joined(rest));
        lemma_line_end(s, 0);
        assert(s[r.len() as int] == '\n');
        assert forall|i: int| 0 <= i < r.len() implies s[i] != '\n' by {
            assert(s[i] == r[i]);
        }
        assert(line_end(s, 0) == r.len());
        assert(s.subrange(0, r.len() as int) =~= r);
        assert(line_text(s, 0, r.len() as int) == r);
        lemma_lines_shift(a, joined(rest), 0);
        assert forall|i: int| 0 <= i < rest.len() implies clean_row(#[trigger] rest[i]) by {
            assert(rest[i] == rows[i + 1]);
        }
        lemma_lines_of_joined(rest);
        assert(lines_from(s, 0) =~= rows);
    }
}

// ---------------------------------------------------------------------------
// The television.
// ---------------------------------------------------------------------------

/// A screen row without its newline.
pub open spec fn screen_row_line(line: Option<Seq<char>>, row: int, screen_width: nat) -> Seq<char> {
    seq!['║'] + "  "@ + screen_body(line, row, screen_width) + "  "@ + seq!['║'] + controls_text(row)
}

/// The rows of the cabinet above the screen.
pub open spec fn head_rows(width: nat) -> Seq<Seq<char>> {
    seq![
        top_text(width + 29),
        brand_text(width + 6) + panel_header_text(),
        bezel_top_text(width) + panel_separator_text(),
    ]
}

/// The rows of the cabinet below the screen.
pub open spec fn tail_rows(width: nat) -> Seq<Seq<char>> {
    seq![
        bezel_bottom_text(width) + panel_bottom_text(),
        bottom_panel_text(width + 29),
        bottom_text(width + 29),
    ]
}

/// The screen rows showing `lines`.
pub open spec fn screen_rows(lines: Seq<Seq<char>>, width: nat, height: nat) -> Seq<Seq<char>> {
    Seq::new(cell_rows(height), |row: int| screen_row_line(line_at(lines, row), row, width))
}

/// Every row of the television, top to bottom.
pub open spec fn tv_row_list(screen: Seq<char>, width: nat, height: nat) -> Seq<Seq<char>> {
    head_rows(width) + screen_rows(lines_from(strip_home(screen), 0), width, height) + tail_rows(width)
}

proof fn lemma_tv_joined(screen: Seq<char>, width: nat, height: nat)
    ensures
        tv_text(screen, width, height) == joined(tv_row_list(screen, width, height)),
{
    let lines = lines_from(strip_home(screen), 0);
    let h = head_rows(width);
    let m = screen_rows(lines, width, height);
    let t = tail_rows(width);
    reveal_with_fuel(joined, 4);
    assert(h.drop_last().drop_last().drop_last() =~= Seq::<Seq<char>>::empty());
    assert(h.drop_last().drop_last() =~= seq![h[0]]);
    assert(h.drop_last() =~= seq![h[0], h[1]]);
    assert(joined(h) =~= tv_head(width));
    assert(t.drop_last().drop_last().drop_last() =~= Seq::<Seq<char>>::empty());
    assert(t.drop_last().drop_last() =~= seq![t[0]]);
    assert(t.drop_last() =~= seq![t[0], t[1]]);
    assert(joined(t) =~= tv_tail(width));
    let f = |row: int| screen_row_text(line_at(lines, row), row, width);
    let g = |row: int| screen_row_line(line_at(lines, row), row, width);
    assert forall|i: int| 0 <= i < cell_rows(height) implies #[trigger] f(i) == g(i) + seq!['\n'] by {
        assert(f(i) =~= g(i) + seq!['\n']);
    }
    lemma_concat_map_joined(cell_rows(height), f, g);
    assert(tv_rows(lines, width, height) == joined(m));
    lemma_joined_concat(h, m);
    lemma_joined_concat(h + m, t);
}

/// The last character of the reset sequence ends every cabinet row.
proof fn lemma_ends_reset(x: Seq<char>)
    ensures
        (x + "\x1b[0m"@).last() == 'm',
{
    reveal_strlit("\x1b[0m");
}

/// A screen row is as wide as the cabinet.
proof fn lemma_screen_row(line: Option<Seq<char>>, row: int, width: nat)
    requires
        line matches Some(l) ==> line_fits(l, width),
    ensures
        piece(screen_row_line(line, row, width), width + 29),
        clean_row(screen_row_line(line, row, width)),
{
    lemma_cabinet_escapes();
    lemma_cabinet_texts();
    lemma_plain_piece(seq!['║']);
    lemma_controls_piece(row);
    let body = screen_body(line, row, width);
    match line {
        Some(l) => {
            let k = visible_width_of(l);
            lemma_repeat_piece(' ', (width - k) as nat);
            assert(fill(k, width) == repeat(' ', (width - k) as nat) || k == width);
            if k == width {
                assert(fill(k, width) =~= repeat(' ', 0));
            }
            let shown = if row % 2 == 1 {
                "\x1b[2m"@ + l + "\x1b[22m"@
            } else {
                l
            };
            if row % 2 == 1 {
                lemma_join("\x1b[2m"@, 0, l, k);
                lemma_join("\x1b[2m"@ + l, k, "\x1b[22m"@, 0);
            }
            assert(piece(shown, k));
            lemma_join(shown, k, fill(k, width), (width - k) as nat);
            assert(body == shown + fill(k, width));
        },
        None => {
            lemma_repeat_piece(' ', width);
        },
    }
    assert(piece(body, width));
    lemma_join(seq!['║'], 1, "  "@, 2);
    lemma_join(seq!['║'] + "  "@, 3, body, width);
    lemma_join(seq!['║'] + "  "@ + body, 3 + width, "  "@, 2);
    lemma_join(seq!['║'] + "  "@ + body + "  "@, 5 + width, seq!['║'], 1);
    lemma_join(seq!['║'] + "  "@ + body + "  "@ + seq!['║'], 6 + width, controls_text(row), 23);
    let label = control_label(row);
    assert(controls_text(row) == "\x1b[90m"@ + "  │ "@ + label + fill(visible_width_of(label), 17) + "│║"@
        + "\x1b[0m"@);
    lemma_ends_reset("\x1b[90m"@ + "  │ "@ + label + fill(visible_width_of(label), 17) + "│║"@);
    assert(screen_row_line(line, row, width).last() == controls_text(row).last());
}

/// A line of the picture fits the screen: it ends outside any escape sequence
/// and occupies at most `width` cells.
pub open spec fn line_fits(l: Seq<char>, width: nat) -> bool {
    &&& no_newline(l)
    &&& ends_plain(l)
    &&& visible_width_of(l) <= width
}

/// The cabinet rows are as wide as the cabinet.
proof fn lemma_frame_rows(width: nat)
    requires
        width >= 16,
    ensures
        forall|i: int| 0 <= i < 3 ==> piece(#[trigger] head_rows(width)[i], width + 29) && clean_row(head_rows(width)[i]),
        forall|i: int| 0 <= i < 3 ==> piece(#[trigger] tail_rows(width)[i], width + 29) && clean_row(tail_rows(width)[i]),
{
    lemma_edges(width + 29);
    lemma_brand(width + 6);
    lemma_bezels(width);
    lemma_panel_pieces();
    lemma_bottom_panel(width + 29);
    lemma_join(brand_text(width + 6), width + 6, panel_header_text(), 23);
    lemma_join(bezel_top_text(width), width + 6, panel_separator_text(), 23);
    lemma_join(bezel_bottom_text(width), width + 6, panel_bottom_text(), 23);
    let n = (width + 27) as nat;
    lemma_ends_reset("\x1b[90m"@ + "╔"@ + repeat('═', n) + "╗"@);
    lemma_ends_reset("\x1b[90m"@ + "╚"@ + repeat('═', n) + "╝"@);
    lemma_ends_reset("\x1b[90m"@ + "  ┌──────────────────┐║"@);
    lemma_ends_reset("\x1b[90m"@ + "  │                  │║"@);
    lemma_ends_reset("\x1b[90m"@ + "  └──────────────────┘║"@);
    lemma_ends_reset(
        "\x1b[90m"@ + "║"@ + "  "@ + Seq::new(grille_width(width + 29), |i: int| speaker_char(i)) + "  ║"@,
    );
    assert((brand_text(width + 6) + panel_header_text()).last() == panel_header_text().last());
    assert((bezel_top_text(width) + panel_separator_text()).last() == panel_separator_text().last());
    assert((bezel_bottom_text(width) + panel_bottom_text()).last() == panel_bottom_text().last());
}

/// Every line of the television occupies the same number of cells,
/// `width + 29`, and there are `cell_rows(height) + 6` of them: three rows of
/// cabinet above the screen, one screen row per two pixel rows, three below.
/// This holds whenever each line of the picture fits the screen and the screen is
/// wide enough for the brand row (16 cells).
pub proof fn lemma_tv_rectangular(screen: Seq<char>, width: nat, height: nat)
    requires
        width >= 16,
        forall|i: int|
            0 <= i < lines_from(strip_home(screen), 0).len() ==> ends_plain(
                #[trigger] lines_from(strip_home(screen), 0)[i],
            ) && visible_width_of(lines_from(strip_home(screen), 0)[i]) <= width,
    ensures
        lines_from(tv_text(screen, width, height), 0).len() == cell_rows(height) + 6,
        forall|i: int|
            0 <= i < lines_from(tv_text(screen, width, height), 0).len() ==> piece(
                #[trigger] lines_from(tv_text(screen, width, height), 0)[i],
                width + 29,
            ),
{
    let lines = lines_from(strip_home(screen), 0);
    let rows = tv_row_list(screen, width, height);
    let h = head_rows(width);
    let m = screen_rows(lines, width, height);
    let t = tail_rows(width);
    lemma_lines_no_newline(strip_home(screen), 0);
    lemma_frame_rows(width);
    assert forall|r: int| 0 <= r < m.len() implies piece(#[trigger] m[r], width + 29) && clean_row(m[r]) by {
        if 0 <= r < lines.len() {
            assert(line_fits(lines[r], width));
        }
        lemma_screen_row(line_at(lines, r), r, width);
    }
    assert forall|i: int| 0 <= i < rows.len() implies piece(#[trigger] rows[i], width + 29) && clean_row(
        rows[i],
    ) by {
        if i < 3 {
            assert(rows[i] == h[i]);
        } else if i < 3 + m.len() {
            assert(rows[i] == m[i - 3]);
        } else {
            assert(rows[i] == t[i - 3 - m.len()]);
        }
    }
    lemma_tv_joined(screen, width, height);
    lemma_lines_of_joined(rows);
}

} // verus!
