use retrotermplayer::decoder::VideoFrame;
use retrotermplayer::renderer::ascii::character as block_character;
use retrotermplayer::renderer::ascii_shading::{brightness, character as shading_character};
use retrotermplayer::renderer::color::rgb_to_ansi256;
use retrotermplayer::renderer::mono_video::clamp_coord;
use retrotermplayer::renderer::sgr::{push_color, push_number};
use retrotermplayer::renderer::truecolor::push_rgb_color;
use retrotermplayer::renderer::tv::{render_cabinet, visible_width};
use retrotermplayer::renderer::vhs::{darken, rgb_to_ansi256 as vhs_rgb_to_ansi256};
use retrotermplayer::renderer::video::{
    ansi256_rgb, ansi_cube_rgb, bayer_dither, cube_component, cube_level, grayscale_to_ansi,
    push_indexed_row,
};
use retrotermplayer::renderer::{
    create_renderer, RendererChoice, RendererKind,
    cell_pixels, AsciiRenderer, AsciiShadingRenderer, ColorRenderer, Renderer, TrueColorRenderer,
    TvRenderer, VhsRenderer,
};

fn frame(width: usize, height: usize, pixels: Vec<u8>) -> VideoFrame {
    VideoFrame { width, height, pixels }
}

/// A frame whose pixels run through a few colors, so every renderer has work to do.
fn busy_frame(width: usize, height: usize) -> VideoFrame {
    let mut pixels = Vec::new();
    for y in 0..height {
        for x in 0..width {
            pixels.push(((x * 37 + y * 11) % 256) as u8);
            pixels.push(((x * 5 + y * 91) % 256) as u8);
            pixels.push(((x * 123 + y * 7) % 256) as u8);
        }
    }
    frame(width, height, pixels)
}

/// Visible cells of a line, counted independently of the library: everything
/// between ESC [ and a final byte is skipped.
fn cells(line: &str) -> usize {
    let mut count = 0;
    let mut chars = line.chars().peekable();
    while let Some(c) = chars.next() {
        if c == '\x1b' {
            if chars.peek() == Some(&'[') {
                chars.next();
                for d in chars.by_ref() {
                    if ('\x40'..='\x7e').contains(&d) {
                        break;
                    }
                }
            }
            continue;
        }
        count += 1;
    }
    count
}

#[test]
fn shading_maps_black_and_white_to_the_ends_of_the_ramp() {
    let f = frame(2, 2, vec![0, 0, 0, 255, 255, 255, 0, 0, 0, 255, 255, 255]);
    let mut out = String::new();
    AsciiShadingRenderer::new().render(&f, &mut out);
    assert_eq!(out, "\x1b[H@ \n");
}

#[test]
fn block_renderer_uses_half_blocks() {
    let f = frame(2, 2, vec![255, 255, 255, 255, 255, 255, 0, 0, 0, 255, 255, 255]);
    let mut out = String::new();
    AsciiRenderer::new().render(&f, &mut out);
    assert_eq!(out, "\x1b[H▀█\n");
}

#[test]
fn block_characters_follow_the_threshold_of_100() {
    assert_eq!(block_character(101, 101), '█');
    assert_eq!(block_character(101, 100), '▀');
    assert_eq!(block_character(100, 101), '▄');
    assert_eq!(block_character(100, 100), ' ');
}

#[test]
fn shading_ramp_runs_from_dense_to_light() {
    let expected = ['@', '#', '8', '&', 'o', ':', ',', '.', ' '];
    for (i, c) in expected.iter().enumerate() {
        // The smallest brightness that reaches ramp position i.
        let b = ((i * 255 + 7) / 8) as u8;
        assert_eq!(shading_character(b), *c);
    }
    assert_eq!(shading_character(31), '@');
    assert_eq!(shading_character(32), '#');
    assert_eq!(shading_character(254), '.');
}

#[test]
fn brightness_uses_bt601_weights() {
    assert_eq!(brightness((255, 255, 255)), 255);
    assert_eq!(brightness((0, 0, 0)), 0);
    assert_eq!(brightness((255, 0, 0)), 76);
    assert_eq!(brightness((0, 255, 0)), 149);
    assert_eq!(brightness((0, 0, 255)), 29);
}

#[test]
fn shading_averages_the_two_pixels_of_a_cell() {
    // Upper white (255), lower black (0): mean 127, ramp position 3.
    let f = frame(1, 2, vec![255, 255, 255, 0, 0, 0]);
    let mut out = String::new();
    AsciiShadingRenderer::new().render(&f, &mut out);
    assert_eq!(out, "\x1b[H&\n");
}

#[test]
fn ansi256_mapping_of_the_color_renderer() {
    assert_eq!(rgb_to_ansi256(255, 0, 0), 196);
    assert_eq!(rgb_to_ansi256(0, 255, 0), 46);
    assert_eq!(rgb_to_ansi256(0, 0, 255), 21);
    assert_eq!(rgb_to_ansi256(0, 0, 0), 16);
    assert_eq!(rgb_to_ansi256(255, 255, 255), 231);
    // Exactly on the grayscale ramp.
    assert_eq!(rgb_to_ansi256(128, 128, 128), 244);
    assert_eq!(rgb_to_ansi256(7, 14, 7), 232);
    // (255, 135, 0) is one step away in two channels.
    assert_eq!(rgb_to_ansi256(254, 134, 0), 208);
    assert_eq!(rgb_to_ansi256(95, 135, 175), 16 + 36 + 12 + 3);
}

/// The RGB value of an extended-palette entry, written out independently.
fn entry_rgb(c: u8) -> (i32, i32, i32) {
    let level = |v: u8| if v == 0 { 0 } else { 55 + 40 * v as i32 };
    if c >= 232 {
        let g = 8 + 10 * (c as i32 - 232);
        (g, g, g)
    } else {
        let i = c - 16;
        (level(i / 36), level((i % 36) / 6), level(i % 6))
    }
}

#[test]
fn ansi256_is_the_nearest_palette_entry() {
    for r in (0..=255u16).step_by(23) {
        for g in (0..=255u16).step_by(29) {
            for b in (0..=255u16).step_by(31) {
                let (r, g, b) = (r as u8, g as u8, b as u8);
                let dist = |c: u8| {
                    let (pr, pg, pb) = entry_rgb(c);
                    let (dr, dg, db) = (r as i32 - pr, g as i32 - pg, b as i32 - pb);
                    dr * dr + dg * dg + db * db
                };
                let best = (16..=255u8).min_by_key(|&c| dist(c)).unwrap();
                assert_eq!(rgb_to_ansi256(r, g, b), best, "{r} {g} {b}");
            }
        }
    }
}

#[test]
fn ansi256_stays_in_the_extended_palette() {
    for r in (0..=255u16).step_by(15) {
        for g in (0..=255u16).step_by(17) {
            for b in (0..=255u16).step_by(51) {
                assert!(rgb_to_ansi256(r as u8, g as u8, b as u8) >= 16);
            }
        }
    }
}

#[test]
fn color_renderer_writes_one_cell_per_pixel_pair() {
    let f = frame(1, 2, vec![255, 0, 0, 0, 0, 255]);
    let mut out = String::new();
    ColorRenderer::new().render(&f, &mut out);
    assert_eq!(out, "\x1b[H\x1b[38;5;196m\x1b[48;5;21m▀\x1b[0m\n");
}

#[test]
fn color_renderer_pads_an_odd_last_row_with_black() {
    let f = frame(1, 1, vec![255, 255, 255]);
    let mut out = String::new();
    ColorRenderer::new().render(&f, &mut out);
    assert_eq!(out, "\x1b[H\x1b[38;5;231m\x1b[48;5;16m▀\x1b[0m\n");
}

#[test]
fn truecolor_renderer_repeats_a_color_only_when_it_changes() {
    let f = frame(2, 2, vec![1, 2, 3, 1, 2, 3, 4, 5, 6, 7, 8, 9]);
    let mut out = String::new();
    TrueColorRenderer::new().render(&f, &mut out);
    assert_eq!(
        out,
        "\x1b[H\x1b[38;2;1;2;3m\x1b[48;2;4;5;6m▀\x1b[48;2;7;8;9m▀\x1b[0m\n"
    );
}

#[test]
fn truecolor_sequence_is_written_digit_by_digit() {
    let mut out = String::from(">");
    push_rgb_color(&mut out, 38, (0, 10, 255));
    assert_eq!(out, ">\x1b[38;2;0;10;255m");
}

#[test]
fn vhs_darkens_every_fourth_row_and_uses_the_cube() {
    let f = frame(1, 2, vec![255, 255, 255, 255, 0, 0]);
    let mut vhs = VhsRenderer::new();
    let mut out = String::new();
    vhs.render(&f, &mut out);
    assert_eq!(out, "\x1b[H\x1b[38;5;102m\x1b[48;5;88m▀\x1b[0m\n");
}

#[test]
fn vhs_shifts_the_picture_every_37th_frame() {
    let f = frame(3, 1, vec![255, 0, 0, 0, 255, 0, 0, 0, 255]);
    let mut vhs = VhsRenderer::new();
    let mut out = String::new();
    for _ in 0..36 {
        vhs.render(&f, &mut out);
    }
    assert_eq!(
        out,
        "\x1b[H\x1b[38;5;88m\x1b[48;5;16m▀\x1b[38;5;28m\x1b[48;5;16m▀\x1b[38;5;18m\x1b[48;5;16m▀\x1b[0m\n"
    );
    vhs.render(&f, &mut out);
    assert_eq!(
        out,
        "\x1b[H\x1b[38;5;88m\x1b[48;5;16m▀\x1b[38;5;88m\x1b[48;5;16m▀\x1b[38;5;88m\x1b[48;5;16m▀\x1b[0m\n"
    );
    vhs.render(&f, &mut out);
    assert!(out.contains("\x1b[38;5;28m"));
}

#[test]
fn vhs_palette_ignores_the_grayscale_ramp() {
    assert_eq!(vhs_rgb_to_ansi256(128, 128, 128), 16 + 36 * 2 + 6 * 2 + 2);
    assert_eq!(vhs_rgb_to_ansi256(255, 255, 255), 231);
    assert_eq!(darken((255, 128, 1)), (127, 64, 0));
}

#[test]
fn cell_pixels_reads_black_below_the_last_row() {
    let f = frame(2, 1, vec![1, 2, 3, 4, 5, 6]);
    assert_eq!(cell_pixels(&f, 1, 0), ((4, 5, 6), (0, 0, 0)));
    let g = frame(1, 2, vec![1, 2, 3, 4, 5, 6]);
    assert_eq!(cell_pixels(&g, 0, 0), ((1, 2, 3), (4, 5, 6)));
}

#[test]
fn visible_width_skips_escape_sequences() {
    assert_eq!(visible_width(""), 0);
    assert_eq!(visible_width("abc"), 3);
    assert_eq!(visible_width("\x1b[38;5;196m▀\x1b[0m"), 1);
    assert_eq!(visible_width("● REC"), 5);
    // A lone ESC hides nothing but itself.
    assert_eq!(visible_width("\x1bx"), 1);
    // An unfinished sequence hides the rest.
    assert_eq!(visible_width("a\x1b[12"), 1);
}

#[test]
fn cabinet_around_a_tiny_picture() {
    let mut out = String::new();
    render_cabinet("\x1b[Hab\n", 2, 1, &mut out);
    let grey = "\x1b[90m";
    let reset = "\x1b[0m";
    let mut expected = String::new();
    expected.push_str(&format!("{grey}╔{}╗{reset}\n", "═".repeat(29)));
    expected.push_str(&format!(
        "{grey}║  \x1b[97mRETROTERMCRT-480{grey}  ║{reset}{grey}  ┌──────────────────┐║{reset}\n"
    ));
    expected.push_str(&format!("{grey}║ ╭──╮ ║{grey}  │                  │║{reset}\n"));
    expected.push_str(&format!("║  ab  ║{grey}  │ ● REC{}│║{reset}\n", " ".repeat(12)));
    expected.push_str(&format!("{grey}║ ╰──╯ ║{grey}  └──────────────────┘║{reset}\n"));
    expected.push_str(&format!("{grey}║  ··••  ··••  ··••  ··••  ·  ║{reset}\n"));
    expected.push_str(&format!("{grey}╚{}╝{reset}\n", "═".repeat(29)));
    assert_eq!(out, expected);
}

#[test]
fn cabinet_dims_odd_rows_and_fills_missing_lines() {
    let mut out = String::new();
    render_cabinet("x\r\ny\n", 16, 6, &mut out);
    let lines: Vec<&str> = out.lines().collect();
    assert_eq!(lines.len(), 3 + 3 + 3);
    assert!(lines[3].starts_with(&format!("║  x{}  ║", " ".repeat(15))));
    assert!(lines[4].starts_with(&format!("║  \x1b[2my\x1b[22m{}  ║", " ".repeat(15))));
    assert!(lines[5].starts_with(&format!("║  {}  ║", " ".repeat(16))));
    assert!(lines[4].contains("▶ PLAY"));
}

#[test]
fn every_renderer_draws_a_rectangle() {
    let f = busy_frame(7, 5);
    let mut renderers: Vec<(&str, String)> = Vec::new();
    let mut out = String::new();
    AsciiRenderer::new().render(&f, &mut out);
    renderers.push(("block", out.clone()));
    AsciiShadingRenderer::new().render(&f, &mut out);
    renderers.push(("shading", out.clone()));
    ColorRenderer::new().render(&f, &mut out);
    renderers.push(("color", out.clone()));
    TrueColorRenderer::new().render(&f, &mut out);
    renderers.push(("truecolor", out.clone()));
    VhsRenderer::new().render(&f, &mut out);
    renderers.push(("vhs", out.clone()));
    for (name, text) in renderers {
        let body = text.strip_prefix("\x1b[H").expect(name);
        let lines: Vec<&str> = body.lines().collect();
        assert_eq!(lines.len(), 3, "{name}");
        for line in lines {
            assert_eq!(cells(line), 7, "{name}");
            assert_eq!(visible_width(line), 7, "{name}");
        }
    }
}

#[test]
fn television_is_a_rectangle_around_every_renderer() {
    let f = busy_frame(20, 7);
    let mut texts = Vec::new();
    let mut out = String::new();
    TvRenderer::new(AsciiRenderer::new()).render(&f, &mut out);
    texts.push(out.clone());
    TvRenderer::new(AsciiShadingRenderer::new()).render(&f, &mut out);
    texts.push(out.clone());
    TvRenderer::new(ColorRenderer::new()).render(&f, &mut out);
    texts.push(out.clone());
    TvRenderer::new(TrueColorRenderer::new()).render(&f, &mut out);
    texts.push(out.clone());
    TvRenderer::new(VhsRenderer::new()).render(&f, &mut out);
    texts.push(out.clone());
    for text in texts {
        let lines: Vec<&str> = text.lines().collect();
        assert_eq!(lines.len(), 4 + 6);
        for line in lines {
            assert_eq!(cells(line), 20 + 29);
        }
    }
}

#[test]
fn narrow_television_has_a_wider_brand_row() {
    // Below 16 cells the brand row no longer fits and sticks out.
    let mut out = String::new();
    render_cabinet("\x1b[Hab\n", 8, 2, &mut out);
    let widths: Vec<usize> = out.lines().map(cells).collect();
    assert_eq!(widths[0], 37);
    assert_eq!(widths[1], 45);
}

#[test]
fn palette_helpers_of_the_video_renderer() {
    assert_eq!(bayer_dither(0, 0), -2);
    assert_eq!(bayer_dither(1, 0), 1);
    assert_eq!(bayer_dither(0, 1), 2);
    assert_eq!(bayer_dither(3, 5), -1);
    assert_eq!(cube_level(0), 0);
    assert_eq!(cube_level(1), 95);
    assert_eq!(cube_level(5), 255);
    assert_eq!(cube_component(3), 175);
    assert_eq!(ansi_cube_rgb(5, 0, 2), (255, 0, 135));
    assert_eq!(ansi256_rgb(196), (255, 0, 0));
    assert_eq!(ansi256_rgb(232), (8, 8, 8));
    assert_eq!(ansi256_rgb(255), (238, 238, 238));
    assert_eq!(ansi256_rgb(7), (0, 0, 0));
    assert_eq!(grayscale_to_ansi(0), 16);
    assert_eq!(grayscale_to_ansi(8), 232);
    assert_eq!(grayscale_to_ansi(128), 243);
    assert_eq!(grayscale_to_ansi(248), 255);
    assert_eq!(grayscale_to_ansi(249), 231);
}

#[test]
fn cube_entries_read_back_their_levels() {
    for r in 0..=5u8 {
        for g in 0..=5u8 {
            for b in 0..=5u8 {
                let index = 16 + 36 * r + 6 * g + b;
                assert_eq!(ansi256_rgb(index), ansi_cube_rgb(r, g, b));
            }
        }
    }
}

#[test]
fn gray_levels_map_into_black_white_or_the_ramp() {
    for v in 0..=255u8 {
        let c = grayscale_to_ansi(v);
        assert!(c == 16 || c == 231 || c >= 232);
    }
}

#[test]
fn indexed_row_repeats_codes_only_on_change() {
    let mut out = String::new();
    push_indexed_row(&mut out, &vec![(196, 16), (196, 21), (46, 21)]);
    assert_eq!(
        out,
        "\x1b[38;5;196m\x1b[48;5;16m▀\x1b[48;5;21m▀\x1b[38;5;46m▀\x1b[0m\n"
    );
    let mut empty = String::new();
    push_indexed_row(&mut empty, &vec![]);
    assert_eq!(empty, "\x1b[0m\n");
}

#[test]
fn palette_sequences_and_numbers() {
    let mut out = String::new();
    push_number(&mut out, 0);
    push_number(&mut out, 9);
    push_number(&mut out, 10);
    push_number(&mut out, 255);
    assert_eq!(out, "0910255");
    let mut code = String::new();
    push_color(&mut code, 48, 7);
    assert_eq!(code, "\x1b[48;5;7m");
}

#[test]
fn neighbour_coordinates_stay_inside_the_frame() {
    assert_eq!(clamp_coord(-1, 10), 0);
    assert_eq!(clamp_coord(0, 10), 0);
    assert_eq!(clamp_coord(9, 10), 9);
    assert_eq!(clamp_coord(10, 10), 9);
    assert_eq!(clamp_coord(5, 1), 0);
}

#[test]
fn television_advances_its_inner_renderer_once_per_frame() {
    let f = frame(16, 1, [255u8, 0, 0, 0, 255, 0].repeat(8));
    let mut tv = TvRenderer::new(VhsRenderer::new());
    let mut direct = VhsRenderer::new();
    let mut out = String::new();
    let mut inner = String::new();
    for _ in 0..40 {
        tv.render(&f, &mut out);
        direct.render(&f, &mut inner);
        let mut expected = String::new();
        render_cabinet(&inner, 16, 1, &mut expected);
        assert_eq!(out, expected);
    }
}

#[test]
fn renderers_read_a_longer_buffer_from_its_start() {
    let f = frame(1, 1, vec![1, 2, 3, 200, 200, 200]);
    let mut out = String::new();
    TrueColorRenderer::new().render(&f, &mut out);
    assert_eq!(out, "\x1b[H\x1b[38;2;1;2;3m\x1b[48;2;0;0;0m▀\x1b[0m\n");
    VhsRenderer::new().render(&f, &mut out);
    assert_eq!(out, "\x1b[H\x1b[38;5;16m\x1b[48;5;16m▀\x1b[0m\n");
}

#[test]
fn each_kind_chooses_its_renderer() {
    assert!(matches!(create_renderer(RendererKind::Ascii), RendererChoice::AsciiShading(_)));
    assert!(matches!(create_renderer(RendererKind::MonoBlock), RendererChoice::MonoBlock(_)));
    assert!(matches!(create_renderer(RendererKind::ColorBlock), RendererChoice::ColorBlock(_)));
    assert!(matches!(create_renderer(RendererKind::Video), RendererChoice::Video));
    assert!(matches!(create_renderer(RendererKind::TrueColor), RendererChoice::TrueColor(_)));
}

#[test]
fn widths_add_up_after_closed_escapes() {
    let a = "\x1b[38;5;196m▀\x1b[0mab";
    let b = "c\x1b[1m";
    assert_eq!(visible_width(&format!("{a}{b}")), visible_width(a) + visible_width(b));
    assert_eq!(visible_width("plain text"), 10);
}
