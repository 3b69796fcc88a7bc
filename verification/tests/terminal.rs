use retrotermplayer::terminal::Terminal;
use retrotermplayer::text::{trim, is_space_char};

#[test]
fn terminal_sequences() {
    let _terminal = Terminal::new();
    assert_eq!(Terminal::enter_sequence(), "\x1b[?1049h\x1b[?25l\x1b[?7l\x1b[2J\x1b[H");
    assert_eq!(Terminal::frame_prefix(), "\x1b[H");
    assert_eq!(Terminal::leave_sequence(), "\x1b[0m\x1b[?7h\x1b[?25h\x1b[2J\x1b[H\x1b[?1049l");
}

#[test]
fn trimming_matches_str_trim() {
    for s in ["", "  ", " a b ", "\t\nx\r\n", "\u{3000}y\u{a0}", "\u{2028}z\u{85}", "plain"] {
        assert_eq!(trim(s), s.trim(), "{s:?}");
        assert_eq!(trim(&trim(s)), trim(s));
    }
    for c in ['\u{b}', '\u{c}', '\u{1680}', '\u{200a}', '\u{202f}', '\u{205f}', 'a', '\u{200b}'] {
        assert_eq!(is_space_char(c), c.is_whitespace(), "{c:?}");
    }
}
