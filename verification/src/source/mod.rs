//! Video sources: what the user asked to play and how FFmpeg reaches it.
use vstd::prelude::*;

use crate::text::{chars_of, contains, has_infix, has_prefix, starts_with, string_from_range, string_of, trim, trimmed};

pub mod offline;

verus! {

/// Controls how much source video quality yt-dlp should request.
#[derive(Debug, Clone, Copy, PartialEq, Eq, Structural)]
pub enum VideoQuality {
    /// Lowest available video quality.
    Low,
    /// Prefer a video stream up to 360p.
    Medium,
    /// Prefer a video stream up to 720p.
    High,
}

/// A video stored on the local filesystem.
#[derive(Debug)]
pub struct LocalSource {
    pub path: String,
}

/// A directly reachable media URL, opened by FFmpeg itself.
#[derive(Debug)]
pub struct DirectSource {
    pub url: String,
}

/// A YouTube video, resolved to a media stream through yt-dlp.
#[derive(Debug)]
pub struct YouTubeSource {
    pub url: String,
}

/// A resolved video source.
#[derive(Debug)]
pub enum VideoSource {
    Local(LocalSource),
    Direct(DirectSource),
    YouTube(YouTubeSource),
}

/// What FFmpeg should open for a source.
#[derive(Debug)]
pub enum StreamPlan {
    /// This input can be handed to FFmpeg as it is.
    Ready(String),
    /// yt-dlp has to resolve `url` with the format selector `format` first.
    Extract { url: String, format: String },
}

/// What exists at a path on disk.
#[derive(Debug, Clone, Copy, PartialEq, Eq, Structural)]
pub enum PathKind {
    Missing,
    File,
    NotAFile,
}

/// The yt-dlp format selector for a quality.
pub open spec fn format_selector(quality: VideoQuality) -> Seq<char> {
    match quality {
        VideoQuality::Low => "worstvideo"@,
        VideoQuality::Medium => "bestvideo[height<=360]/worstvideo"@,
        VideoQuality::High => "bestvideo[height<=720]/bestvideo"@,
    }
}

/// The human-readable description of a source.
pub open spec fn description_of(source: VideoSource) -> Seq<char> {
    match source {
        VideoSource::Local(s) => "Local file: "@ + s.path@,
        VideoSource::Direct(s) => "Direct URL: "@ + s.url@,
        VideoSource::YouTube(s) => "YouTube: "@ + s.url@,
    }
}

impl YouTubeSource {
    /// The yt-dlp format selector requested for `quality`.
    pub fn format_for(quality: VideoQuality) -> (f: &'static str)
        ensures
            f@ == format_selector(quality),
    {
        match quality {
            VideoQuality::Low => "worstvideo",
            VideoQuality::Medium => "bestvideo[height<=360]/worstvideo",
            VideoQuality::High => "bestvideo[height<=720]/bestvideo",
        }
    }
}

/// The stream URL that yt-dlp printed, or the error to report: a failed run
/// reports its trimmed error output, an empty answer is an error too.
pub open spec fn ytdlp_outcome(success: bool, stdout: Seq<char>, stderr: Seq<char>) -> Result<Seq<char>, Seq<char>> {
    if !success {
        Err("yt-dlp failed to resolve the YouTube video.\n\n"@ + trimmed(stderr))
    } else if trimmed(stdout).len() == 0 {
        Err("yt-dlp returned an empty stream URL."@)
    } else {
        Ok(trimmed(stdout))
    }
}

/// Interprets a finished yt-dlp run: its exit status and what it printed.
pub fn ytdlp_result(success: bool, stdout: &str, stderr: &str) -> (r: Result<String, String>)
    ensures
        match (r, ytdlp_outcome(success, stdout@, stderr@)) {
            (Ok(s), Ok(t)) => s@ == t,
            (Err(e), Err(t)) => e@ == t,
            _ => false,
        },
{
    if !success {
        let mut message = string_of("yt-dlp failed to resolve the YouTube video.\n\n");
        let detail = trim(stderr);
        message.push_str(detail.as_str());
        return Err(message);
    }
    let stream = trim(stdout);
    if stream.as_str().is_empty() {
        return Err(string_of("yt-dlp returned an empty stream URL."));
    }
    Ok(stream)
}

impl VideoSource {
    pub fn description(&self) -> (d: String)
        ensures
            d@ == description_of(*self),
    {
        match self {
            VideoSource::Local(source) => {
                let mut d = string_of("Local file: ");
                d.push_str(source.path.as_str());
                d
            },
            VideoSource::Direct(source) => {
                let mut d = string_of("Direct URL: ");
                d.push_str(source.url.as_str());
                d
            },
            VideoSource::YouTube(source) => {
                let mut d = string_of("YouTube: ");
                d.push_str(source.url.as_str());
                d
            },
        }
    }

    /// What FFmpeg should consume: local files and direct URLs as they are,
    /// YouTube pages only after yt-dlp resolved the media stream.
    pub fn resolve_for_ffmpeg(&self, quality: VideoQuality) -> (plan: StreamPlan)
        ensures
            match *self {
                VideoSource::Local(s) => plan matches StreamPlan::Ready(i) && i@ == s.path@,
                VideoSource::Direct(s) => plan matches StreamPlan::Ready(i) && i@ == s.url@,
                VideoSource::YouTube(s) => plan matches StreamPlan::Extract { url, format } && url@
                    == s.url@ && format@ == format_selector(quality),
            },
    {
        match self {
            VideoSource::Local(source) => StreamPlan::Ready(string_of(source.path.as_str())),
            VideoSource::Direct(source) => StreamPlan::Ready(string_of(source.url.as_str())),
            VideoSource::YouTube(source) => StreamPlan::Extract {
                url: string_of(source.url.as_str()),
                format: string_of(YouTubeSource::format_for(quality)),
            },
        }
    }
}

/// A YouTube page address.
pub open spec fn is_youtube_address(s: Seq<char>) -> bool {
    has_infix(s, "youtube.com/"@) || has_infix(s, "youtu.be/"@) || has_infix(s, "youtube-nocookie.com/"@)
}

/// A URL of a protocol FFmpeg can open directly.
pub open spec fn is_url_address(s: Seq<char>) -> bool {
    has_prefix(s, "http://"@) || has_prefix(s, "https://"@) || has_prefix(s, "rtmp://"@) || has_prefix(
        s,
        "rtsp://"@,
    )
}

/// `~` and `~/...` expanded with the home directory, when it is known.
pub open spec fn expand_home(input: Seq<char>, home: Option<Seq<char>>) -> Seq<char> {
    match home {
        Some(h) => if input == "~"@ {
            h
        } else if has_prefix(input, "~/"@) {
            h + seq!['/'] + input.skip(2)
        } else {
            input
        },
        None => input,
    }
}

/// How an input resolves: `kind` tells what exists at its expanded path.
pub open spec fn resolution(input: Seq<char>, home: Option<Seq<char>>, kind: PathKind) -> Result<
    (int, Seq<char>),
    Seq<char>,
> {
    match kind {
        PathKind::File => Ok((0, expand_home(input, home))),
        PathKind::NotAFile => Err("The supplied path exists but is not a file."@),
        PathKind::Missing => if is_youtube_address(input) {
            Ok((2, input))
        } else if is_url_address(input) {
            Ok((1, input))
        } else {
            Err("Input is neither an existing local file nor a recognized URL."@)
        },
    }
}

/// The kind tag and the text of a source: 0 local path, 1 direct URL, 2 YouTube URL.
pub open spec fn source_parts(source: VideoSource) -> (int, Seq<char>) {
    match source {
        VideoSource::Local(s) => (0, s.path@),
        VideoSource::Direct(s) => (1, s.url@),
        VideoSource::YouTube(s) => (2, s.url@),
    }
}

pub fn is_youtube_url(input: &str) -> (b: bool)
    ensures
        b == is_youtube_address(input@),
{
    let chars = chars_of(input);
    contains(&chars, "youtube.com/") || contains(&chars, "youtu.be/") || contains(&chars, "youtube-nocookie.com/")
}

pub fn is_url(input: &str) -> (b: bool)
    ensures
        b == is_url_address(input@),
{
    let chars = chars_of(input);
    starts_with(&chars, "http://") || starts_with(&chars, "https://") || starts_with(&chars, "rtmp://")
        || starts_with(&chars, "rtsp://")
}

/// Expands `~` and `~/...` with the home directory `home`.
pub fn expand_home_directory(input: &str, home: Option<&str>) -> (e: String)
    ensures
        e@ == expand_home(input@, match home {
            Some(h) => Some(h@),
            None => None,
        }),
{
    let chars = chars_of(input);
    proof {
        reveal_strlit("~");
        reveal_strlit("~/");
    }
    if let Some(home) = home {
        if chars.len() == 1 && chars[0] == '~' {
            assert(input@ =~= "~"@);
            return string_of(home);
        }
        if starts_with(&chars, "~/") {
            let mut e = string_of(home);
            e.push('/');
            let rest = string_from_range(&chars, 2, chars.len());
            e.push_str(rest.as_str());
            assert(rest@ =~= input@.skip(2));
            assert(input@ != "~"@);
            return e;
        }
        proof {
            if input@ == "~"@ {
                assert(chars@[0] == '~');
            }
        }
    }
    string_of(input)
}

/// Detects the type of user input.
///
/// `home` is the home directory, if known, and `kind` tells what exists on disk
/// at the input with its home directory expanded.
pub fn resolve_source(input: &str, home: Option<&str>, kind: PathKind) -> (r: Result<VideoSource, String>)
    ensures
        match (r, resolution(input@, match home {
            Some(h) => Some(h@),
            None => None,
        }, kind)) {
            (Ok(s), Ok(t)) => source_parts(s) == t,
            (Err(e), Err(t)) => e@ == t,
            _ => false,
        },
{
    match kind {
        PathKind::File => {
            let path = expand_home_directory(input, home);
            return Ok(VideoSource::Local(LocalSource { path }));
        },
        PathKind::NotAFile => {
            return Err(string_of("The supplied path exists but is not a file."));
        },
        PathKind::Missing => {},
    }
    if is_youtube_url(input) {
        return Ok(VideoSource::YouTube(YouTubeSource { url: string_of(input) }));
    }
    if is_url(input) {
        return Ok(VideoSource::Direct(DirectSource { url: string_of(input) }));
    }
    Err(string_of("Input is neither an existing local file nor a recognized URL."))
}

} // verus!
