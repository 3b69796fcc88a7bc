//! The terminal the video is drawn on.
use vstd::prelude::*;

verus! {

/// The terminal: alternate screen, hidden cursor, no line wrapping while playing.
pub struct Terminal;

impl Terminal {
    pub fn new() -> Self {
        Terminal
    }

    /// Enters the alternate screen, hides the cursor, disables line wrapping,
    /// clears the screen once and moves the cursor to the top-left.
    pub fn enter_sequence() -> (s: &'static str)
        ensures
            s@ == "\x1b[?1049h\x1b[?25l\x1b[?7l\x1b[2J\x1b[H"@,
    {
        "\x1b[?1049h\x1b[?25l\x1b[?7l\x1b[2J\x1b[H"
    }

    /// Moves the cursor home before a frame; the screen is not cleared between
    /// frames, which would show a blank interval.
    pub fn frame_prefix() -> (s: &'static str)
        ensures
            s@ == "\x1b[H"@,
    {
        "\x1b[H"
    }

    /// Restores the normal terminal state and leaves the alternate screen.
    pub fn leave_sequence() -> (s: &'static str)
        ensures
            s@ == "\x1b[0m\x1b[?7h\x1b[?25h\x1b[2J\x1b[H\x1b[?1049l"@,
    {
        "\x1b[0m\x1b[?7h\x1b[?25h\x1b[2J\x1b[H\x1b[?1049l"
    }
}

} // verus!
