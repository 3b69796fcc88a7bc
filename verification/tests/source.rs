use retrotermplayer::source::offline::{
    filter_entries, is_hidden, is_video_file, load_entries, load_video_files, search_text,
    sort_entries, EntryInfo, Listing, SortKey,
};
use retrotermplayer::source::{
    expand_home_directory, is_url, is_youtube_url, resolve_source, ytdlp_result, DirectSource,
    LocalSource, PathKind, StreamPlan, VideoQuality, VideoSource, YouTubeSource,
};

fn entry(path: &str, is_dir: bool) -> EntryInfo {
    let name = path.rsplit('/').next().unwrap().to_string();
    EntryInfo { path: path.to_string(), name, is_dir, is_file: !is_dir }
}

fn names(entries: &[EntryInfo]) -> Vec<&str> {
    entries.iter().map(|e| e.name.as_str()).collect()
}

#[test]
fn an_existing_file_is_a_local_source() {
    match resolve_source("~/clip.mp4", Some("/home/ann"), PathKind::File) {
        Ok(VideoSource::Local(LocalSource { path })) => assert_eq!(path, "/home/ann/clip.mp4"),
        other => panic!("{other:?}"),
    }
    match resolve_source("https://youtube.com/watch?v=1", None, PathKind::File) {
        Ok(VideoSource::Local(LocalSource { path })) => assert_eq!(path, "https://youtube.com/watch?v=1"),
        other => panic!("{other:?}"),
    }
}

#[test]
fn youtube_addresses_go_through_ytdlp() {
    for url in [
        "https://www.youtube.com/watch?v=abc",
        "https://youtu.be/abc",
        "https://www.youtube-nocookie.com/embed/abc",
    ] {
        match resolve_source(url, None, PathKind::Missing) {
            Ok(VideoSource::YouTube(YouTubeSource { url: u })) => assert_eq!(u, url),
            other => panic!("{other:?}"),
        }
    }
}

#[test]
fn other_urls_are_opened_directly() {
    for url in ["http://x/a.mp4", "https://x/a.mp4", "rtmp://live/x", "rtsp://cam/1"] {
        match resolve_source(url, None, PathKind::Missing) {
            Ok(VideoSource::Direct(DirectSource { url: u })) => assert_eq!(u, url),
            other => panic!("{other:?}"),
        }
    }
}

#[test]
fn unknown_inputs_are_rejected() {
    assert_eq!(
        resolve_source("nowhere.mp4", None, PathKind::Missing).unwrap_err(),
        "Input is neither an existing local file nor a recognized URL."
    );
    assert_eq!(
        resolve_source("/tmp", None, PathKind::NotAFile).unwrap_err(),
        "The supplied path exists but is not a file."
    );
}

#[test]
fn url_recognition() {
    assert!(is_youtube_url("music.youtube.com/watch"));
    assert!(!is_youtube_url("https://youtube.com"));
    assert!(is_url("rtsp://a"));
    assert!(!is_url("file:///a"));
    assert!(!is_url(" http://a"));
}

#[test]
fn home_directory_expansion() {
    assert_eq!(expand_home_directory("~", Some("/h")), "/h");
    assert_eq!(expand_home_directory("~/x", Some("/h")), "/h/x");
    assert_eq!(expand_home_directory("~x", Some("/h")), "~x");
    assert_eq!(expand_home_directory("$HOME/x", Some("/h")), "$HOME/x");
    assert_eq!(expand_home_directory("~/x", None), "~/x");
}

#[test]
fn sources_describe_themselves() {
    let local = VideoSource::Local(LocalSource { path: "/v/a.mp4".to_string() });
    let direct = VideoSource::Direct(DirectSource { url: "http://x".to_string() });
    let tube = VideoSource::YouTube(YouTubeSource { url: "https://youtu.be/a".to_string() });
    assert_eq!(local.description(), "Local file: /v/a.mp4");
    assert_eq!(direct.description(), "Direct URL: http://x");
    assert_eq!(tube.description(), "YouTube: https://youtu.be/a");
}

#[test]
fn what_ffmpeg_opens() {
    let local = VideoSource::Local(LocalSource { path: "/v/a.mp4".to_string() });
    assert!(matches!(local.resolve_for_ffmpeg(VideoQuality::High), StreamPlan::Ready(p) if p == "/v/a.mp4"));
    let direct = VideoSource::Direct(DirectSource { url: "http://x".to_string() });
    assert!(matches!(direct.resolve_for_ffmpeg(VideoQuality::Low), StreamPlan::Ready(p) if p == "http://x"));
    let tube = VideoSource::YouTube(YouTubeSource { url: "https://youtu.be/a".to_string() });
    let formats = [
        (VideoQuality::Low, "worstvideo"),
        (VideoQuality::Medium, "bestvideo[height<=360]/worstvideo"),
        (VideoQuality::High, "bestvideo[height<=720]/bestvideo"),
    ];
    for (quality, expected) in formats {
        match tube.resolve_for_ffmpeg(quality) {
            StreamPlan::Extract { url, format } => {
                assert_eq!(url, "https://youtu.be/a");
                assert_eq!(format, expected);
            }
            other => panic!("{other:?}"),
        }
        assert_eq!(YouTubeSource::format_for(quality), expected);
    }
}

#[test]
fn ytdlp_answers() {
    assert_eq!(ytdlp_result(true, " https://cdn/x \n", ""), Ok("https://cdn/x".to_string()));
    assert_eq!(
        ytdlp_result(true, " \n", "warning"),
        Err("yt-dlp returned an empty stream URL.".to_string())
    );
    assert_eq!(
        ytdlp_result(false, "https://cdn/x", "ERROR: private video\n"),
        Err("yt-dlp failed to resolve the YouTube video.\n\nERROR: private video".to_string())
    );
}

#[test]
fn video_files_by_extension() {
    for name in ["a.mp4", "b.MKV", "c.webm", "d.Mov", "e.m4v", "f.avi", "g.wmv", "h.flv", "i.mpg",
        "j.mpeg", "k.ts", "l.mts", "m.m2ts", "n.3gp", "o.ogv", "x.y.mp4"] {
        assert!(is_video_file(name), "{name}");
    }
    for name in ["a.txt", "mp4", ".mp4", "a.", "a.mp4.bak", "a.mp5"] {
        assert!(!is_video_file(name), "{name}");
    }
    // The name alone decides; whether it is a regular file is the caller's test.
    assert!(is_video_file("folder.mkv"));
}

#[test]
fn hidden_entries() {
    assert!(is_hidden(".git"));
    assert!(is_hidden(".a.mp4"));
    assert!(!is_hidden("a.mp4"));
    assert!(!is_hidden(""));
}

#[test]
fn browsing_lists_directories_first_then_by_name() {
    let listing = vec![
        entry("/m/b.mp4", false),
        entry("/m/notes.txt", false),
        entry("/m/zeta", true),
        entry("/m/.hidden", true),
        entry("/m/A.mkv", false),
        entry("/m/alpha", true),
        entry("/m/.x.mp4", false),
    ];
    let shown = load_entries(listing, "");
    assert_eq!(names(&shown), vec!["alpha", "zeta", "A.mkv", "b.mp4"]);
}

#[test]
fn searching_matches_the_lowercase_path() {
    let listing = vec![
        entry("/m/Holiday/Beach.MP4", false),
        entry("/m/work/beachball.mkv", false),
        entry("/m/beach-notes.txt", false),
        entry("/m/Beach", true),
        entry("/m/other.mp4", false),
        entry("/m/.beach.mp4", false),
    ];
    let found = load_entries(listing, "BEACH");
    assert_eq!(names(&found), vec!["Beach.MP4", "beachball.mkv"]);
}

#[test]
fn search_text_is_lower_case() {
    assert_eq!(search_text("ÀBC"), "àbc");
    assert_eq!(search_text(""), "");
}

#[test]
fn folder_video_files_by_name() {
    let listing = vec![
        entry("/m/c.mp4", false),
        entry("/m/sub", true),
        entry("/m/a.avi", false),
        entry("/m/B.mov", false),
        entry("/m/readme", false),
    ];
    let files = load_video_files(listing);
    assert_eq!(names(&files), vec!["B.mov", "a.avi", "c.mp4"]);
}

#[test]
fn sorting_keeps_every_entry_once() {
    let items = vec![entry("/b", false), entry("/a", true), entry("/c", false), entry("/a", false)];
    let sorted = sort_entries(items, SortKey::Name);
    assert_eq!(names(&sorted), vec!["a", "a", "b", "c"]);
    // Entries with equal keys keep their order: the directory came first.
    assert!(sorted[0].is_dir && !sorted[1].is_dir);
    let ties = sort_entries(vec![entry("/x/B.mp4", false), entry("/x/b.mp4", false)], SortKey::LowercasePath);
    assert_eq!(names(&ties), vec!["B.mp4", "b.mp4"]);
    let by_path = sort_entries(vec![entry("/B", false), entry("/a", false)], SortKey::LowercasePath);
    assert_eq!(names(&by_path), vec!["a", "B"]);
}

#[test]
fn filtering_keeps_the_order() {
    let items = vec![entry("/z.mp4", false), entry("/d", true), entry("/a.mp4", false)];
    let kept = filter_entries(items, Listing::VideoFiles, "");
    assert_eq!(names(&kept), vec!["z.mp4", "a.mp4"]);
}

#[test]
fn only_regular_files_are_listed_as_videos() {
    let items = vec![entry("/m/clip.mp4", true), entry("/m/real.mp4", false)];
    let kept = filter_entries(items, Listing::VideoFiles, "");
    assert_eq!(names(&kept), vec!["real.mp4"]);
}
