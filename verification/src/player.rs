//! Playback decisions: keys, the status line and the mode a renderer number selects.
use vstd::prelude::*;

use crate::decoder::{retro_profile, true_color_profile, video_profile, DecoderProfile};
use crate::renderer::RendererKind;
use crate::source::VideoQuality;
use crate::text::{decimal2, push_decimal2};

verus! {

/// A keyboard command during playback.
#[derive(Debug, Clone, Copy, PartialEq, Eq, Structural)]
pub enum Input {
    Quit,
    Pause,
    SeekBackward,
    SeekForward,
}

/// The command typed as the bytes `bytes` (one read from the terminal).
pub open spec fn key_of(bytes: Seq<u8>) -> Option<Input> {
    if bytes.len() == 0 {
        None
    } else if bytes[0] == 0x71 || bytes[0] == 0x51 {
        // `q` or `Q`
        Some(Input::Quit)
    } else if bytes[0] == 0x20 {
        // space
        Some(Input::Pause)
    } else if bytes[0] == 0x1b {
        if bytes.len() >= 3 && bytes[1] == 0x5b && bytes[2] == 0x44 {
            // ESC [ D: left arrow
            Some(Input::SeekBackward)
        } else if bytes.len() >= 3 && bytes[1] == 0x5b && bytes[2] == 0x43 {
            // ESC [ C: right arrow
            Some(Input::SeekForward)
        } else {
            // plain ESC
            Some(Input::Quit)
        }
    } else {
        None
    }
}

/// Decodes the bytes of one terminal read into a playback command.
pub fn decode_key(bytes: &[u8]) -> (k: Option<Input>)
    ensures
        k == key_of(bytes@),
{
    if bytes.len() == 0 {
        return None;
    }
    match bytes[0] {
        0x71 | 0x51 => Some(Input::Quit),
        0x20 => Some(Input::Pause),
        0x1b => {
            if bytes.len() >= 3 && bytes[1] == 0x5b && bytes[2] == 0x44 {
                Some(Input::SeekBackward)
            } else if bytes.len() >= 3 && bytes[1] == 0x5b && bytes[2] == 0x43 {
                Some(Input::SeekForward)
            } else {
                Some(Input::Quit)
            }
        },
        _ => None,
    }
}

/// What one turn of the playback loop does after handling the key.
#[derive(Debug, Clone, Copy, PartialEq, Eq, Structural)]
pub enum Turn {
    /// Leave the loop.
    Stop,
    /// Paused: wait a moment without decoding.
    Wait,
    /// Decode and draw the next frame.
    Play,
}

/// The outcome of one turn of the playback loop.
#[derive(Debug, Clone, Copy, PartialEq, Eq)]
pub struct Step {
    /// Whether playback is paused afterwards.
    pub paused: bool,
    /// How many seconds to seek by before the turn goes on, if at all.
    pub seek: Option<i32>,
    /// What the turn does then.
    pub turn: Turn,
}

/// How far the arrow keys seek, in seconds.
pub open spec fn seek_step() -> i32 {
    15
}

/// One turn of the playback loop: `q` or ESC stops, space toggles the pause,
/// the arrows seek 15 seconds back or forward; then a paused player waits and
/// a playing one draws the next frame.
pub open spec fn step_of(paused: bool, key: Option<Input>) -> Step {
    let now_paused = if key == Some(Input::Pause) {
        !paused
    } else {
        paused
    };
    let seek = if key == Some(Input::SeekBackward) {
        Some((-seek_step()) as i32)
    } else if key == Some(Input::SeekForward) {
        Some(seek_step())
    } else {
        None
    };
    let turn = if key == Some(Input::Quit) {
        Turn::Stop
    } else if now_paused {
        Turn::Wait
    } else {
        Turn::Play
    };
    Step { paused: now_paused, seek, turn }
}

/// Decides one turn of the playback loop from the pause state and the key read.
pub fn playback_step(paused: bool, key: Option<Input>) -> (s: Step)
    ensures
        s == step_of(paused, key),
{
    match key {
        Some(Input::Quit) => Step { paused, seek: None, turn: Turn::Stop },
        Some(Input::Pause) => Step {
            paused: !paused,
            seek: None,
            turn: if paused { Turn::Play } else { Turn::Wait },
        },
        Some(Input::SeekBackward) => Step {
            paused,
            seek: Some(-15),
            turn: if paused { Turn::Wait } else { Turn::Play },
        },
        Some(Input::SeekForward) => Step {
            paused,
            seek: Some(15),
            turn: if paused { Turn::Wait } else { Turn::Play },
        },
        None => Step { paused, seek: None, turn: if paused { Turn::Wait } else { Turn::Play } },
    }
}

/// What the keys do during playback, whatever the pause state: `q` and ESC
/// stop; space toggles the pause and seeks nowhere; the left and right arrows
/// seek 15 seconds back and forward, playing or paused, and leave the pause
/// state alone; with no key nothing changes. Unless the player stops, a paused
/// player waits and a playing one draws the next frame.
pub proof fn lemma_playback_keys(paused: bool, key: Option<Input>)
    ensures
        step_of(paused, Some(Input::Quit)).turn == Turn::Stop,
        step_of(paused, Some(Input::Quit)).seek is None,
        step_of(paused, Some(Input::Pause)).paused == !paused,
        step_of(paused, Some(Input::Pause)).seek is None,
        step_of(paused, Some(Input::SeekForward)).seek == Some(15i32),
        step_of(paused, Some(Input::SeekBackward)).seek == Some(-15i32),
        step_of(paused, Some(Input::SeekForward)).paused == paused,
        step_of(paused, Some(Input::SeekBackward)).paused == paused,
        step_of(paused, None).paused == paused,
        step_of(paused, None).seek is None,
        key != Some(Input::Quit) ==> step_of(paused, key).turn == (if step_of(paused, key).paused {
            Turn::Wait
        } else {
            Turn::Play
        }),
{
}

/// A time as `MM:SS`, minutes not wrapping at the hour.
pub open spec fn clock_text(seconds: nat) -> Seq<char> {
    decimal2(seconds / 60) + seq![':'] + decimal2(seconds % 60)
}

/// Formats whole seconds as `MM:SS`.
pub fn format_time(seconds: u64) -> (s: String)
    ensures
        s@ == clock_text(seconds as nat),
{
    let minutes = seconds / 60;
    let rest = seconds % 60;
    let mut s = String::new();
    push_decimal2(&mut s, minutes);
    s.push(':');
    push_decimal2(&mut s, rest);
    assert(s@ =~= clock_text(seconds as nat));
    s
}

/// The status line under the picture.
pub open spec fn status_text(position: nat, duration: nat, paused: bool) -> Seq<char> {
    "\x1b[90m"@ + "  "@ + clock_text(position) + " / "@ + clock_text(duration) + (if paused {
        "    [ PAUSED ]"@
    } else {
        Seq::empty()
    }) + "    ← →  SEEK 15s    SPACE  "@ + (if paused {
        "RESUME"@
    } else {
        "PAUSE"@
    }) + "    Q  QUIT"@ + "\x1b[0m\n"@
}

/// Appends the status line: position and duration in whole seconds, the pause
/// state, and the keys.
pub fn append_status_line(output: &mut String, position: u64, duration: u64, paused: bool)
    ensures
        final(output)@ == old(output)@ + status_text(position as nat, duration as nat, paused),
{
    output.push_str("\x1b[90m");
    output.push_str("  ");
    output.push_str(format_time(position).as_str());
    output.push_str(" / ");
    output.push_str(format_time(duration).as_str());
    if paused {
        output.push_str("    [ PAUSED ]");
    }
    output.push_str("    ← →  SEEK 15s    SPACE  ");
    if paused {
        output.push_str("RESUME");
    } else {
        output.push_str("PAUSE");
    }
    output.push_str("    Q  QUIT");
    output.push_str("\x1b[0m\n");
    assert(output@ =~= old(output)@ + status_text(position as nat, duration as nat, paused));
}

/// The renderer, decoder profile and source quality that a renderer number selects.
pub open spec fn mode_of(renderer: usize) -> Option<(RendererKind, DecoderProfile, VideoQuality)> {
    if renderer == 1 {
        Some((RendererKind::Ascii, retro_profile(), VideoQuality::Low))
    } else if renderer == 2 {
        Some((RendererKind::MonoBlock, retro_profile(), VideoQuality::Low))
    } else if renderer == 3 {
        Some((RendererKind::ColorBlock, retro_profile(), VideoQuality::Medium))
    } else if renderer == 4 {
        Some((RendererKind::Video, video_profile(), VideoQuality::High))
    } else if renderer == 5 {
        Some((RendererKind::TrueColor, true_color_profile(), VideoQuality::High))
    } else {
        None
    }
}

/// How a renderer number is played: the renderer, the decoder profile and the
/// source quality.
pub fn playback_mode(renderer: usize) -> (m: Option<(RendererKind, DecoderProfile, VideoQuality)>)
    ensures
        m == mode_of(renderer),
{
    match renderer {
        1 => Some((RendererKind::Ascii, DecoderProfile::retro(), VideoQuality::Low)),
        2 => Some((RendererKind::MonoBlock, DecoderProfile::retro(), VideoQuality::Low)),
        3 => Some((RendererKind::ColorBlock, DecoderProfile::retro(), VideoQuality::Medium)),
        4 => Some((RendererKind::Video, DecoderProfile::video(), VideoQuality::High)),
        5 => Some((RendererKind::TrueColor, DecoderProfile::true_color(), VideoQuality::High)),
        _ => None,
    }
}

} // verus!
