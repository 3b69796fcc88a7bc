use retrotermplayer::decoder::{
    check_profile, ffmpeg_arguments, read_progress, scale_filter, stream_end, truncated_message,
    DecoderProfile, ReadProgress, StreamEnd, VideoFrame,
};

#[test]
fn the_profiles_ask_for_small_frames() {
    let retro = DecoderProfile::retro();
    let video = DecoderProfile::video();
    let true_color = DecoderProfile::true_color();
    assert_eq!((retro.width, retro.height, retro.fps), (80, 48, 12));
    assert_eq!((video.width, video.height, video.fps), (100, 60, 15));
    assert_eq!((true_color.width, true_color.height, true_color.fps), (100, 60, 15));
    for p in [retro, video, true_color] {
        assert_eq!(check_profile(&p), Ok(()));
    }
}

#[test]
fn retro_modes_use_smaller_frames_and_fewer_frames_per_second() {
    let retro = DecoderProfile::retro();
    let video = DecoderProfile::video();
    assert!(retro.width * retro.height < video.width * video.height);
    assert!(retro.fps < video.fps);
}

#[test]
fn a_profile_without_size_is_rejected() {
    let p = DecoderProfile { width: 0, height: 60, fps: 15 };
    assert_eq!(
        check_profile(&p),
        Err("Decoder profile dimensions must be greater than zero.".to_string())
    );
    let q = DecoderProfile { width: 10, height: 0, fps: 0 };
    assert_eq!(
        check_profile(&q),
        Err("Decoder profile dimensions must be greater than zero.".to_string())
    );
}

#[test]
fn a_profile_without_frame_rate_is_rejected() {
    let p = DecoderProfile { width: 10, height: 6, fps: 0 };
    assert_eq!(
        check_profile(&p),
        Err("Decoder profile FPS must be greater than zero.".to_string())
    );
}

#[test]
fn scale_filter_keeps_the_aspect_ratio_and_pads() {
    let p = DecoderProfile::video();
    assert_eq!(
        scale_filter(&p),
        "scale=100:60:flags=lanczos:force_original_aspect_ratio=decrease,pad=100:60:(ow-iw)/2:(oh-ih)/2,fps=15"
    );
    let q = DecoderProfile { width: 7, height: 1234, fps: 1 };
    assert_eq!(
        scale_filter(&q),
        "scale=7:1234:flags=lanczos:force_original_aspect_ratio=decrease,pad=7:1234:(ow-iw)/2:(oh-ih)/2,fps=1"
    );
}

#[test]
fn ffmpeg_is_asked_for_raw_rgb_on_stdout() {
    let args = ffmpeg_arguments("12.5", "movie.mp4", "scale=1:1");
    let expected = [
        "-nostdin", "-loglevel", "quiet", "-ss", "12.5", "-i", "movie.mp4", "-an", "-sn", "-vf",
        "scale=1:1", "-f", "rawvideo", "-pix_fmt", "rgb24", "pipe:1",
    ];
    assert_eq!(args, expected.iter().map(|s| s.to_string()).collect::<Vec<_>>());
}

#[test]
fn reading_a_frame_in_pieces() {
    assert_eq!(read_progress(0, 12, 5), ReadProgress::Partial(5));
    assert_eq!(read_progress(5, 12, 7), ReadProgress::Complete);
    assert_eq!(read_progress(5, 12, 0), ReadProgress::Ended);
    assert_eq!(read_progress(0, 12, 12), ReadProgress::Complete);
}

#[test]
fn the_end_of_the_stream_is_classified() {
    assert_eq!(stream_end(0, true), StreamEnd::Finished);
    assert_eq!(stream_end(0, false), StreamEnd::Failed);
    assert_eq!(stream_end(3, true), StreamEnd::Truncated);
    assert_eq!(stream_end(3, false), StreamEnd::Truncated);
}

#[test]
fn a_truncated_frame_is_reported_with_its_size() {
    assert_eq!(
        truncated_message(300, 18000),
        "FFmpeg ended before a complete frame was received (300/18000 bytes). Exit status: "
    );
}

#[test]
fn pixels_are_read_row_by_row() {
    let f = VideoFrame { width: 2, height: 2, pixels: (0..12).collect() };
    assert_eq!(f.pixel(0, 0), (0, 1, 2));
    assert_eq!(f.pixel(1, 0), (3, 4, 5));
    assert_eq!(f.pixel(0, 1), (6, 7, 8));
    assert_eq!(f.pixel(1, 1), (9, 10, 11));
}

#[test]
fn a_longer_buffer_is_read_from_its_start() {
    let f = VideoFrame { width: 1, height: 1, pixels: vec![1, 2, 3, 9, 9, 9] };
    assert_eq!(f.pixel(0, 0), (1, 2, 3));
}
