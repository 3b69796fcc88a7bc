//! Decoded video frames and the decoder's settings.
use vstd::prelude::*;

use crate::text::{decimal, push_decimal, string_of};

verus! {

/// Controls how FFmpeg prepares video for a renderer: the size of the frames
/// it produces and how many of them it produces per second.
#[derive(Debug, Clone, Copy)]
pub struct DecoderProfile {
    pub width: usize,
    pub height: usize,
    pub fps: u32,
}

/// The profile of the retro renderers (ASCII shading, block and 256-color
/// blocks): smaller frames at a lower frame rate, 80x48 at 12 fps.
pub open spec fn retro_profile() -> DecoderProfile {
    DecoderProfile { width: 80, height: 48, fps: 12 }
}

/// The profile of the video renderer: 100x60 frames at 15 fps.
pub open spec fn video_profile() -> DecoderProfile {
    DecoderProfile { width: 100, height: 60, fps: 15 }
}

/// The profile of the 24-bit color renderer: like the video renderer's.
pub open spec fn true_color_profile() -> DecoderProfile {
    DecoderProfile { width: 100, height: 60, fps: 15 }
}

impl DecoderProfile {
    /// The profile of the retro renderers.
    pub fn retro() -> (p: DecoderProfile)
        ensures
            p == retro_profile(),
    {
        DecoderProfile { width: 80, height: 48, fps: 12 }
    }

    /// The profile of the 256-color video renderer.
    pub fn video() -> (p: DecoderProfile)
        ensures
            p == video_profile(),
    {
        DecoderProfile { width: 100, height: 60, fps: 15 }
    }

    /// The profile of the 24-bit color renderer.
    pub fn true_color() -> (p: DecoderProfile)
        ensures
            p == true_color_profile(),
    {
        DecoderProfile { width: 100, height: 60, fps: 15 }
    }
}

/// The retro profile asks FFmpeg for less than the video profiles: narrower
/// and lower frames, fewer pixels, and fewer frames per second.
pub proof fn lemma_retro_profile_smaller()
    ensures
        retro_profile().width < video_profile().width,
        retro_profile().height < video_profile().height,
        retro_profile().width * retro_profile().height < video_profile().width * video_profile().height,
        retro_profile().fps < video_profile().fps,
        video_profile() == true_color_profile(),
{
}

/// A decoded RGB video frame: `width * height` pixels, three bytes each, row by
/// row, at the start of `pixels`.
#[derive(Debug, Clone)]
pub struct VideoFrame {
    pub width: usize,
    pub height: usize,
    pub pixels: Vec<u8>,
}

/// The largest frame width the renderers accept: the television adds a fixed
/// border around each row, and the widened row must stay addressable.
pub open spec fn max_frame_width() -> int {
    usize::MAX - 64
}

impl VideoFrame {
    /// The pixel buffer holds (at least) `width * height` RGB triples.
    pub open spec fn wf(&self) -> bool {
        &&& self.pixels@.len() >= self.width * self.height * 3
        &&& self.width <= max_frame_width()
    }

    /// The RGB value of the pixel in column `x` of row `y`.
    pub open spec fn rgb_at(&self, x: int, y: int) -> (u8, u8, u8) {
        let i = (y * self.width + x) * 3;
        (self.pixels@[i], self.pixels@[i + 1], self.pixels@[i + 2])
    }

    pub fn pixel(&self, x: usize, y: usize) -> (p: (u8, u8, u8))
        requires
            self.wf(),
            x < self.width,
            y < self.height,
        ensures
            p == self.rgb_at(x as int, y as int),
    {
        // The buffer's length fits a usize, and it bounds every pixel index.
        let len = self.pixels.len();
        proof {
            assert(len >= self.width * self.height * 3);
            lemma_pixel_index(x as int, y as int, self.width as int, self.height as int);
        }
        let index = (y * self.width + x) * 3;
        (self.pixels[index], self.pixels[index + 1], self.pixels[index + 2])
    }
}

/// The three bytes of pixel `(x, y)` lie inside a `width * height * 3` buffer.
pub proof fn lemma_pixel_index(x: int, y: int, w: int, h: int)
    requires
        0 <= x < w,
        0 <= y < h,
    ensures
        (y * w + x) * 3 + 2 < w * h * 3,
        0 <= y * w + x,
        y * w + x < w * h,
{
    assert(y * w + x < w * h) by (nonlinear_arith)
        requires
            0 <= x < w,
            0 <= y < h,
    ;
    assert(0 <= y * w) by (nonlinear_arith)
        requires
            0 <= w,
            0 <= y,
    ;
}

/// Why a decoder profile cannot be used, if it cannot.
pub open spec fn profile_problem(profile: DecoderProfile) -> Option<Seq<char>> {
    if profile.width == 0 || profile.height == 0 {
        Some("Decoder profile dimensions must be greater than zero."@)
    } else if profile.fps == 0 {
        Some("Decoder profile FPS must be greater than zero."@)
    } else {
        None
    }
}

/// Checks that a profile asks for frames of some size at some rate.
pub fn check_profile(profile: &DecoderProfile) -> (r: Result<(), String>)
    ensures
        match (r, profile_problem(*profile)) {
            (Ok(()), None) => true,
            (Err(e), Some(m)) => e@ == m,
            _ => false,
        },
{
    if profile.width == 0 || profile.height == 0 {
        return Err(string_of("Decoder profile dimensions must be greater than zero."));
    }
    if profile.fps == 0 {
        return Err(string_of("Decoder profile FPS must be greater than zero."));
    }
    Ok(())
}

/// The FFmpeg video filter for a profile: scale into the frame keeping the
/// aspect ratio, pad to the exact size, and convert the frame rate.
pub open spec fn filter_text(profile: DecoderProfile) -> Seq<char> {
    "scale="@ + decimal(profile.width as nat) + ":"@ + decimal(profile.height as nat)
        + ":flags=lanczos:force_original_aspect_ratio=decrease,pad="@ + decimal(profile.width as nat) + ":"@
        + decimal(profile.height as nat) + ":(ow-iw)/2:(oh-ih)/2,fps="@ + decimal(profile.fps as nat)
}

/// Builds the FFmpeg video filter for a profile.
pub fn scale_filter(profile: &DecoderProfile) -> (f: String)
    ensures
        f@ == filter_text(*profile),
{
    let mut f = string_of("scale=");
    push_decimal(&mut f, profile.width as u64);
    f.push_str(":");
    push_decimal(&mut f, profile.height as u64);
    f.push_str(":flags=lanczos:force_original_aspect_ratio=decrease,pad=");
    push_decimal(&mut f, profile.width as u64);
    f.push_str(":");
    push_decimal(&mut f, profile.height as u64);
    f.push_str(":(ow-iw)/2:(oh-ih)/2,fps=");
    push_decimal(&mut f, profile.fps as u64);
    assert(f@ =~= filter_text(*profile));
    f
}

/// The FFmpeg command-line arguments: no keyboard input, quiet, start at
/// `position` seconds, read `input`, no audio or subtitles, apply `filter`,
/// and write raw RGB24 frames to standard output.
pub open spec fn ffmpeg_argument_list(position: Seq<char>, input: Seq<char>, filter: Seq<char>) -> Seq<Seq<char>> {
    seq![
        "-nostdin"@,
        "-loglevel"@,
        "quiet"@,
        "-ss"@,
        position,
        "-i"@,
        input,
        "-an"@,
        "-sn"@,
        "-vf"@,
        filter,
        "-f"@,
        "rawvideo"@,
        "-pix_fmt"@,
        "rgb24"@,
        "pipe:1"@,
    ]
}

/// Builds the FFmpeg command-line arguments.
pub fn ffmpeg_arguments(position: &str, input: &str, filter: &str) -> (args: Vec<String>)
    ensures
        args@.len() == 16,
        forall|i: int| 0 <= i < 16 ==> #[trigger] args@[i]@ == ffmpeg_argument_list(position@, input@, filter@)[i],
{
    let mut args: Vec<String> = Vec::new();
    args.push(string_of("-nostdin"));
    args.push(string_of("-loglevel"));
    args.push(string_of("quiet"));
    args.push(string_of("-ss"));
    args.push(string_of(position));
    args.push(string_of("-i"));
    args.push(string_of(input));
    args.push(string_of("-an"));
    args.push(string_of("-sn"));
    args.push(string_of("-vf"));
    args.push(string_of(filter));
    args.push(string_of("-f"));
    args.push(string_of("rawvideo"));
    args.push(string_of("-pix_fmt"));
    args.push(string_of("rgb24"));
    args.push(string_of("pipe:1"));
    args
}

/// How reading a frame proceeds after one read of `bytes_read` bytes.
#[derive(Debug, Clone, Copy, PartialEq, Eq, Structural)]
pub enum ReadProgress {
    /// More bytes are needed; the frame holds this many so far.
    Partial(usize),
    /// The frame is complete.
    Complete,
    /// FFmpeg's output ended.
    Ended,
}

/// The progress of a frame of `frame_size` bytes that held `offset` bytes
/// before a read returned `bytes_read` more.
pub open spec fn progress_of(offset: nat, frame_size: nat, bytes_read: nat) -> ReadProgress {
    if bytes_read == 0 {
        ReadProgress::Ended
    } else if offset + bytes_read == frame_size {
        ReadProgress::Complete
    } else {
        ReadProgress::Partial((offset + bytes_read) as usize)
    }
}

/// Accounts for one read into a frame buffer of `frame_size` bytes.
pub fn read_progress(offset: usize, frame_size: usize, bytes_read: usize) -> (p: ReadProgress)
    requires
        offset < frame_size,
        bytes_read <= frame_size - offset,
    ensures
        p == progress_of(offset as nat, frame_size as nat, bytes_read as nat),
        p matches ReadProgress::Partial(n) ==> offset < n < frame_size,
{
    if bytes_read == 0 {
        ReadProgress::Ended
    } else if offset + bytes_read == frame_size {
        ReadProgress::Complete
    } else {
        ReadProgress::Partial(offset + bytes_read)
    }
}

/// What an ended FFmpeg output means for the frame being read.
#[derive(Debug, Clone, Copy, PartialEq, Eq, Structural)]
pub enum StreamEnd {
    /// The video ended cleanly between frames.
    Finished,
    /// FFmpeg stopped in the middle of a frame.
    Truncated,
    /// FFmpeg failed before writing any of the frame.
    Failed,
}

/// Classifies the end of FFmpeg's output: `offset` bytes of the frame had
/// arrived and `success` tells whether FFmpeg exited successfully.
pub fn stream_end(offset: usize, success: bool) -> (e: StreamEnd)
    ensures
        e == (if offset == 0 && success {
            StreamEnd::Finished
        } else if offset > 0 {
            StreamEnd::Truncated
        } else {
            StreamEnd::Failed
        }),
{
    if offset == 0 && success {
        StreamEnd::Finished
    } else if offset > 0 {
        StreamEnd::Truncated
    } else {
        StreamEnd::Failed
    }
}

/// The start of the message for a frame cut short, before the exit status.
pub open spec fn truncated_text(offset: nat, frame_size: nat) -> Seq<char> {
    "FFmpeg ended before a complete frame was received ("@ + decimal(offset) + "/"@ + decimal(frame_size)
        + " bytes). Exit status: "@
}

/// Builds the message for a frame cut short; the exit status is appended by the caller.
pub fn truncated_message(offset: usize, frame_size: usize) -> (m: String)
    ensures
        m@ == truncated_text(offset as nat, frame_size as nat),
{
    let mut m = string_of("FFmpeg ended before a complete frame was received (");
    push_decimal(&mut m, offset as u64);
    m.push_str("/");
    push_decimal(&mut m, frame_size as u64);
    m.push_str(" bytes). Exit status: ");
    assert(m@ =~= truncated_text(offset as nat, frame_size as nat));
    m
}

} // verus!
