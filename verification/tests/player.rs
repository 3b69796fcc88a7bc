use retrotermplayer::decoder::DecoderProfile;
use retrotermplayer::player::{
    append_status_line, decode_key, format_time, playback_mode, playback_step, Input, Step, Turn,
};
use retrotermplayer::renderer::RendererKind;
use retrotermplayer::source::VideoQuality;

#[test]
fn keys_control_playback() {
    assert_eq!(decode_key(b"q"), Some(Input::Quit));
    assert_eq!(decode_key(b"Q"), Some(Input::Quit));
    assert_eq!(decode_key(b" "), Some(Input::Pause));
    assert_eq!(decode_key(b"\x1b[D"), Some(Input::SeekBackward));
    assert_eq!(decode_key(b"\x1b[C"), Some(Input::SeekForward));
    assert_eq!(decode_key(b"\x1b"), Some(Input::Quit));
    assert_eq!(decode_key(b"\x1b[A"), Some(Input::Quit));
    assert_eq!(decode_key(b"x"), None);
    assert_eq!(decode_key(b""), None);
}

#[test]
fn times_are_minutes_and_seconds() {
    assert_eq!(format_time(0), "00:00");
    assert_eq!(format_time(59), "00:59");
    assert_eq!(format_time(61), "01:01");
    assert_eq!(format_time(754), "12:34");
    assert_eq!(format_time(3600), "60:00");
    assert_eq!(format_time(6000), "100:00");
}

#[test]
fn status_line_while_playing() {
    let mut out = String::from("frame");
    append_status_line(&mut out, 75, 600, false);
    assert_eq!(
        out,
        "frame\x1b[90m  01:15 / 10:00    ← →  SEEK 15s    SPACE  PAUSE    Q  QUIT\x1b[0m\n"
    );
}

#[test]
fn status_line_while_paused() {
    let mut out = String::new();
    append_status_line(&mut out, 5, 9, true);
    assert_eq!(
        out,
        "\x1b[90m  00:05 / 00:09    [ PAUSED ]    ← →  SEEK 15s    SPACE  RESUME    Q  QUIT\x1b[0m\n"
    );
}

#[test]
fn renderer_numbers_select_a_mode() {
    let (kind, profile, quality) = playback_mode(1).unwrap();
    assert_eq!(kind, RendererKind::Ascii);
    assert_eq!((profile.width, profile.height, profile.fps), (80, 48, 12));
    assert_eq!(quality, VideoQuality::Low);
    assert_eq!(playback_mode(2).map(|m| (m.0, m.2)), Some((RendererKind::MonoBlock, VideoQuality::Low)));
    assert_eq!(
        playback_mode(3).map(|m| (m.0, m.2)),
        Some((RendererKind::ColorBlock, VideoQuality::Medium))
    );
    assert_eq!(playback_mode(4).map(|m| (m.0, m.2)), Some((RendererKind::Video, VideoQuality::High)));
    assert_eq!(
        playback_mode(5).map(|m| (m.0, m.2)),
        Some((RendererKind::TrueColor, VideoQuality::High))
    );
    let video: DecoderProfile = playback_mode(4).unwrap().1;
    assert_eq!((video.width, video.height, video.fps), (100, 60, 15));
    assert!(playback_mode(0).is_none());
    assert!(playback_mode(6).is_none());
}

#[test]
fn one_turn_of_the_playback_loop() {
    let step = |paused, key| playback_step(paused, key);
    assert_eq!(step(false, None), Step { paused: false, seek: None, turn: Turn::Play });
    assert_eq!(step(true, None), Step { paused: true, seek: None, turn: Turn::Wait });
    assert_eq!(step(false, Some(Input::Quit)).turn, Turn::Stop);
    assert_eq!(step(true, Some(Input::Quit)).turn, Turn::Stop);
    assert_eq!(step(false, Some(Input::Pause)), Step { paused: true, seek: None, turn: Turn::Wait });
    assert_eq!(step(true, Some(Input::Pause)), Step { paused: false, seek: None, turn: Turn::Play });
    assert_eq!(
        step(false, Some(Input::SeekBackward)),
        Step { paused: false, seek: Some(-15), turn: Turn::Play }
    );
    assert_eq!(
        step(true, Some(Input::SeekForward)),
        Step { paused: true, seek: Some(15), turn: Turn::Wait }
    );
    // Two presses of space come back to where they started.
    let once = step(false, Some(Input::Pause));
    assert!(!step(once.paused, Some(Input::Pause)).paused);
}
