use retrotermplayer::input::{
    command_line, expand_path, go_parent, is_back, main_choice, path_problem, pick_entry, Picked, offline_choice, parse_renderer, parse_usize,
    renderer_entry, selection, strip_line_end, url_entry, CommandLine, MainChoice, OfflineChoice,
    RendererEntry, Selection, UrlEntry,
};

fn chars(s: &str) -> Vec<char> {
    s.chars().collect()
}

#[test]
fn renderer_numbers_one_to_five_are_accepted() {
    for n in 1..=5usize {
        assert_eq!(parse_renderer(&n.to_string()), Ok(n));
    }
    assert_eq!(parse_renderer("+3"), Ok(3));
    assert_eq!(parse_renderer("003"), Ok(3));
}

#[test]
fn other_renderer_answers_are_rejected() {
    let message = Err("Renderer must be a number from 1 to 5.".to_string());
    for s in ["0", "6", "", " 3", "3 ", "-1", "x", "+", "99999999999999999999999"] {
        assert_eq!(parse_renderer(s), message, "{s:?}");
    }
}

#[test]
fn numbers_are_read_like_str_parse() {
    assert_eq!(parse_usize(&chars("0")), Some(0));
    assert_eq!(parse_usize(&chars("42")), Some(42));
    assert_eq!(parse_usize(&chars("+7")), Some(7));
    assert_eq!(parse_usize(&chars(&usize::MAX.to_string())), Some(usize::MAX));
    assert_eq!(parse_usize(&chars("18446744073709551616")), None);
    assert_eq!(parse_usize(&chars("")), None);
    assert_eq!(parse_usize(&chars("+")), None);
    assert_eq!(parse_usize(&chars("1a")), None);
    for n in [0usize, 5, 10, 99, 100, 12345] {
        assert_eq!(parse_usize(&chars(&n.to_string())), Some(n));
    }
}

#[test]
fn command_line_with_source_and_renderer() {
    match command_line(Some("movie.mp4".to_string()), Some("2".to_string())) {
        CommandLine::Ready(input) => {
            assert_eq!(input.source, "movie.mp4");
            assert_eq!(input.renderer, 2);
        }
        other => panic!("{other:?}"),
    }
}

#[test]
fn command_line_with_a_bad_renderer() {
    match command_line(Some("movie.mp4".to_string()), Some("9".to_string())) {
        CommandLine::Rejected(message) => {
            assert_eq!(message, "Renderer must be a number from 1 to 5.")
        }
        other => panic!("{other:?}"),
    }
}

#[test]
fn command_line_without_renderer_shows_usage() {
    match command_line(Some("movie.mp4".to_string()), None) {
        CommandLine::Rejected(message) => {
            assert!(message.starts_with("Missing renderer.\n\nUsage:\ncargo run -- <url-or-file-path> <renderer>"));
            assert!(message.ends_with("4 = Video + VHS CRT\n5 = TrueColor"));
        }
        other => panic!("{other:?}"),
    }
}

#[test]
fn command_line_without_arguments_is_interactive() {
    assert!(matches!(command_line(None, None), CommandLine::Interactive));
    assert!(matches!(command_line(None, Some("1".to_string())), CommandLine::Interactive));
}

#[test]
fn menu_answers_are_trimmed() {
    assert_eq!(main_choice(" 1\n"), MainChoice::Online);
    assert_eq!(main_choice("2"), MainChoice::Offline);
    assert_eq!(main_choice("0\r\n"), MainChoice::Exit);
    assert_eq!(main_choice("3"), MainChoice::Invalid);
    assert_eq!(main_choice(""), MainChoice::Invalid);
    assert_eq!(offline_choice("0"), OfflineChoice::Back);
    assert_eq!(offline_choice(" 1 "), OfflineChoice::EnterPath);
    assert_eq!(offline_choice("2"), OfflineChoice::Browse);
    assert_eq!(offline_choice("3\n"), OfflineChoice::Search);
    assert_eq!(offline_choice("4"), OfflineChoice::Invalid);
}

#[test]
fn online_urls_must_be_http() {
    assert!(matches!(url_entry(" 0 "), UrlEntry::Back));
    assert!(matches!(url_entry("   "), UrlEntry::Empty));
    match url_entry("  https://example.com/v.mp4\n") {
        UrlEntry::Accepted(url) => assert_eq!(url, "https://example.com/v.mp4"),
        other => panic!("{other:?}"),
    }
    assert!(matches!(url_entry("http://x"), UrlEntry::Accepted(_)));
    assert!(matches!(url_entry("ftp://example.com"), UrlEntry::Invalid));
    assert!(matches!(url_entry("rtmp://example.com"), UrlEntry::Invalid));
}

#[test]
fn list_selection() {
    assert_eq!(selection("0", 3), Selection::Back);
    assert_eq!(selection("1", 3), Selection::Pick(0));
    assert_eq!(selection(" 3 ", 3), Selection::Pick(2));
    assert_eq!(selection("4", 3), Selection::OutOfRange);
    assert_eq!(selection("00", 3), Selection::Invalid);
    assert_eq!(selection("x", 3), Selection::Invalid);
    assert_eq!(selection("1", 0), Selection::OutOfRange);
}

#[test]
fn renderer_menu_answers() {
    assert_eq!(renderer_entry("0"), RendererEntry::Back);
    assert_eq!(renderer_entry(" 4\n"), RendererEntry::Chosen(4));
    assert_eq!(renderer_entry("6"), RendererEntry::Invalid);
    assert_eq!(renderer_entry("00"), RendererEntry::Invalid);
}

#[test]
fn line_endings_are_removed() {
    assert_eq!(strip_line_end("abc\r\n"), "abc");
    assert_eq!(strip_line_end("abc\n\n"), "abc");
    assert_eq!(strip_line_end(" abc "), " abc ");
    assert_eq!(strip_line_end("\n"), "");
}

#[test]
fn typed_paths_are_unquoted_and_expanded() {
    let home = Some("/home/ann");
    assert_eq!(expand_path("  \"/tmp/a b.mp4\" ", home), "/tmp/a b.mp4");
    assert_eq!(expand_path("'/tmp/x.mkv'", home), "/tmp/x.mkv");
    assert_eq!(expand_path("~", home), "/home/ann");
    assert_eq!(expand_path("$HOME", home), "/home/ann");
    assert_eq!(expand_path("~/v/a.mp4", home), "/home/ann/v/a.mp4");
    assert_eq!(expand_path("$HOME/v/a.mp4", home), "/home/ann/v/a.mp4");
    assert_eq!(expand_path("\"~/q.mp4\"", home), "/home/ann/q.mp4");
    assert_eq!(expand_path("~other", home), "~other");
    assert_eq!(expand_path("~/a", None), "~/a");
    assert_eq!(expand_path("\"", home), "\"");
    assert_eq!(expand_path("\"\"", home), "");
}

#[test]
fn going_up_a_directory() {
    let mut p = String::from("/home/ann/videos");
    assert!(go_parent(&mut p));
    assert_eq!(p, "/home/ann");
    assert!(go_parent(&mut p));
    assert_eq!(p, "/home");
    assert!(go_parent(&mut p));
    assert_eq!(p, "/");
    assert!(!go_parent(&mut p));
    assert_eq!(p, "/");
    let mut relative = String::from("videos");
    assert!(go_parent(&mut relative));
    assert_eq!(relative, "");
    assert!(!go_parent(&mut relative));
}

#[test]
fn zero_or_nothing_goes_back() {
    assert!(is_back("0"));
    assert!(is_back(" 0 \n"));
    assert!(is_back(""));
    assert!(is_back("  "));
    assert!(!is_back("00"));
    assert!(!is_back("movie"));
}

#[test]
fn typed_paths_are_checked_against_the_disk() {
    assert_eq!(path_problem(false, false, "a.mp4"), Some("File does not exist.".to_string()));
    assert_eq!(path_problem(true, false, "dir"), Some("That path is not a file.".to_string()));
    assert_eq!(path_problem(true, true, "notes.txt"), Some("Unsupported video file.".to_string()));
    assert_eq!(path_problem(true, true, "Clip.MKV"), None);
}

#[test]
fn picking_a_folder_enters_it_and_a_file_plays_it() {
    assert!(matches!(pick_entry(true, "/m/sub"), Picked::Folder(p) if p == "/m/sub"));
    assert!(matches!(pick_entry(false, "/m/a.mp4"), Picked::Video(p) if p == "/m/a.mp4"));
}
