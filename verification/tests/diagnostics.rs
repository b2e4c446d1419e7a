use std::collections::{HashMap, VecDeque};

use dx11_overlay::debug::debug_overlay::{
    add_to_debug_log_overlay, clear_debug_overlay, clear_log_area, draw_char, draw_debug_overlay,
    get_overlay, refresh_overlay_buffer, TextRun, LOG_MODE, MAX_LOG_LINES, OVERLAY_HEIGHT,
    OVERLAY_LEN, OVERLAY_WIDTH, STAT_MODE,
};
use dx11_overlay::debug::statistics::{
    frame_statistics, get_stats_map, refresh_due, send_statistic, FRAME_TIME_CUSTOM,
    FRAME_TIME_DIFF, FRAME_TIME_TOTAL,
};
use dx11_overlay::debug::{
    dump_debug_data, format_log_line, process_matches, DebugFeatures, DebugReport,
};
use dx11_overlay::text::{is_whitespace, push_decimal};
use dx11_overlay::ui::frame::{ChannelCounts, FrameBuffer};
use dx11_overlay::ui::mmf::MMFData;
use dx11_overlay::ui::rendering::{CompositeEngine, OverlayState, PresentPhase};

fn pixel(buf: &[u8], x: usize, y: usize) -> [u8; 4] {
    let at = (y * OVERLAY_WIDTH + x) * 4;
    [buf[at], buf[at + 1], buf[at + 2], buf[at + 3]]
}

const BORDER: [u8; 4] = [200, 200, 200, 255];
const BACKGROUND: [u8; 4] = [0, 0, 20, 200];

fn features(overlay: bool) -> DebugFeatures {
    DebugFeatures { rendering_enabled: true, processing_enabled: true, debug_overlay_enabled: overlay }
}

fn run(text: &str, y: u32, fresh_line: bool) -> (String, u32, bool) {
    (text.to_string(), y, fresh_line)
}

fn plain(runs: Vec<TextRun>) -> Vec<(String, u32, bool)> {
    runs.into_iter().map(|r| (r.text, r.y, r.fresh_line)).collect()
}

#[test]
fn overlay_image_has_a_border_around_the_background() {
    let buf = get_overlay();
    assert_eq!(buf.len(), 600 * 180 * 4);
    assert_eq!(buf.len(), OVERLAY_LEN);
    for y in 0..OVERLAY_HEIGHT {
        for x in 0..OVERLAY_WIDTH {
            let edge = x == 0 || x == 599 || y == 0 || y == 179;
            assert_eq!(pixel(&buf, x, y), if edge { BORDER } else { BACKGROUND });
        }
    }
}

#[test]
fn clearing_wipes_the_inside_and_keeps_the_border() {
    let mut buf = vec![7u8; OVERLAY_LEN];
    clear_log_area(&mut buf);
    assert_eq!(pixel(&buf, 0, 0), [7; 4]);
    assert_eq!(pixel(&buf, 599, 90), [7; 4]);
    assert_eq!(pixel(&buf, 300, 179), [7; 4]);
    assert_eq!(pixel(&buf, 0, 100), [7; 4]);
    assert_eq!(pixel(&buf, 1, 1), BACKGROUND);
    assert_eq!(pixel(&buf, 598, 178), BACKGROUND);
    assert_eq!(pixel(&buf, 300, 90), BACKGROUND);
}

#[test]
fn glyph_is_drawn_grey_and_opaque() {
    let mut buf = get_overlay();
    let bitmap = [0, 128, 255, 1, 0, 0];
    // Pen at column 8, glyph two pixels right of it; baseline in row 25, the
    // glyph's two rows end three rows above it: the bitmap begins at (10, 20).
    assert!(draw_char(&mut buf, 8, 25, 2, 3, 3, 2, &bitmap));
    assert_eq!(pixel(&buf, 10, 20), BACKGROUND);
    assert_eq!(pixel(&buf, 11, 20), [128, 128, 128, 255]);
    assert_eq!(pixel(&buf, 12, 20), [255, 255, 255, 255]);
    assert_eq!(pixel(&buf, 10, 21), [1, 1, 1, 255]);
    assert_eq!(pixel(&buf, 11, 21), BACKGROUND);
    assert_eq!(pixel(&buf, 12, 21), BACKGROUND);
    assert_eq!(pixel(&buf, 13, 20), BACKGROUND);
    let mut expected = get_overlay();
    for (x, y, v) in [(11usize, 20usize, 128u8), (12, 20, 255), (10, 21, 1)] {
        let at = (y * 600 + x) * 4;
        expected[at..at + 4].copy_from_slice(&[v, v, v, 255]);
    }
    assert_eq!(buf, expected);
}

#[test]
fn glyph_below_the_baseline_and_left_of_the_pen() {
    let mut buf = get_overlay();
    // A descender: the bitmap ends two rows below the baseline and begins one
    // pixel left of the pen, so it begins at (4, 30 - 3 + 2) = (4, 29).
    assert!(draw_char(&mut buf, 5, 30, -1, -2, 1, 3, &[7, 8, 9]));
    assert_eq!(pixel(&buf, 4, 28), BACKGROUND);
    assert_eq!(pixel(&buf, 4, 29), [7, 7, 7, 255]);
    assert_eq!(pixel(&buf, 4, 30), [8, 8, 8, 255]);
    assert_eq!(pixel(&buf, 4, 31), [9, 9, 9, 255]);
    assert_eq!(pixel(&buf, 4, 32), BACKGROUND);
    assert_eq!(pixel(&buf, 5, 30), BACKGROUND);
}

#[test]
fn glyph_outside_the_image_is_left_out() {
    let mut buf = get_overlay();
    let bitmap = [9u8; 9];
    // The bitmap begins at (598, 178): only its first two rows and columns fall into the image.
    assert!(draw_char(&mut buf, 598, 181, 0, 0, 3, 3, &bitmap));
    assert_eq!(pixel(&buf, 598, 178), [9, 9, 9, 255]);
    assert_eq!(pixel(&buf, 599, 179), [9, 9, 9, 255]);
    assert_eq!(pixel(&buf, 0, 179), BORDER);
    assert_eq!(pixel(&buf, 597, 178), BACKGROUND);
    let before = buf.clone();
    assert!(draw_char(&mut buf, 600, 3, 0, 0, 3, 3, &bitmap));
    assert!(draw_char(&mut buf, 0, 183, 0, 0, 3, 3, &bitmap));
    assert!(draw_char(&mut buf, usize::MAX, usize::MAX, i32::MAX, i32::MIN, 3, 3, &bitmap));
    assert!(draw_char(&mut buf, 0, 0, i32::MIN, i32::MAX, 3, 3, &bitmap));
    assert_eq!(buf, before);
}

#[test]
fn glyph_that_begins_before_the_image_is_cut() {
    let mut buf = get_overlay();
    let bitmap = [1, 2, 3, 4, 5, 6, 7, 8, 9];
    // The bitmap begins at (-1, -2): only its last row and last two columns fall into the image.
    assert!(draw_char(&mut buf, 0, 1, -1, 0, 3, 3, &bitmap));
    assert_eq!(pixel(&buf, 0, 0), [8, 8, 8, 255]);
    assert_eq!(pixel(&buf, 1, 0), [9, 9, 9, 255]);
    assert_eq!(pixel(&buf, 2, 0), BORDER);
    assert_eq!(pixel(&buf, 0, 1), BORDER);
    assert_eq!(pixel(&buf, 1, 1), BACKGROUND);
}

#[test]
fn glyph_needs_its_whole_bitmap() {
    let mut buf = get_overlay();
    assert!(!draw_char(&mut buf, 10, 20, 0, 0, 3, 3, &[9u8; 8]));
    assert!(!draw_char(&mut buf, 10, 20, 0, 0, usize::MAX, usize::MAX, &[9u8; 8]));
    assert_eq!(buf, get_overlay());
    assert!(draw_char(&mut buf, 10, 20, 0, 0, 0, 5, &[]));
    assert_eq!(buf, get_overlay());
}

#[test]
fn overlay_is_copied_one_pixel_in() {
    let overlay = get_overlay();
    let width = 640u32;
    let mut pixels = vec![0x33u8; (width * 200 * 4) as usize];
    assert!(draw_debug_overlay(&mut pixels, width, &overlay));
    let row = (width * 4) as usize;
    for y in [0usize, 1, 90, 179] {
        assert_eq!(&pixels[y * row..y * row + 4], &[0x33; 4]);
        assert_eq!(&pixels[y * row + 4..y * row + 4 + 2400], &overlay[y * 2400..(y + 1) * 2400]);
        assert_eq!(&pixels[y * row + 2404..(y + 1) * row], &vec![0x33u8; row - 2404][..]);
    }
    assert_eq!(&pixels[180 * row..], &vec![0x33u8; 20 * row][..]);
}

#[test]
fn overlay_is_not_copied_into_a_frame_that_cannot_hold_it() {
    let overlay = get_overlay();
    let mut narrow = vec![0u8; 599 * 200 * 4];
    assert!(!draw_debug_overlay(&mut narrow, 599, &overlay));
    assert_eq!(narrow, vec![0u8; 599 * 200 * 4]);
    let mut low = vec![0u8; 640 * 179 * 4];
    assert!(!draw_debug_overlay(&mut low, 640, &overlay));
    let mut just_enough = vec![0u8; 179 * 2400 + 4 + 2400];
    assert!(draw_debug_overlay(&mut just_enough, 600, &overlay));
    let mut one_short = vec![0u8; 179 * 2400 + 4 + 2399];
    assert!(!draw_debug_overlay(&mut one_short, 600, &overlay));
    let mut pixels = vec![0u8; 640 * 200 * 4];
    assert!(!draw_debug_overlay(&mut pixels, 640, &overlay[..OVERLAY_LEN - 1].to_vec()));
}

#[test]
fn clearing_the_overlay_makes_its_place_transparent() {
    let width = 640u32;
    let row = (width * 4) as usize;
    let mut pixels = vec![0x44u8; row * 200];
    assert!(clear_debug_overlay(&mut pixels, width));
    for y in 0..200usize {
        for x in 0..640usize {
            let at = y * row + x * 4;
            let cleared = y < 180 && (1..=600).contains(&x);
            assert_eq!(&pixels[at..at + 3], &[0x44; 3]);
            assert_eq!(pixels[at + 3], if cleared { 0 } else { 0x44 });
        }
    }
    let mut small = vec![0x44u8; 100];
    assert!(!clear_debug_overlay(&mut small, 5));
    assert_eq!(small, vec![0x44u8; 100]);
}

#[test]
fn log_keeps_the_newest_twelve_lines() {
    assert_eq!(MAX_LOG_LINES, 12);
    let mut log = VecDeque::new();
    for n in 0..12 {
        assert!(!add_to_debug_log_overlay(&mut log, format!("line {n}"), &features(false)));
    }
    assert_eq!(log.len(), 12);
    assert_eq!(log.front().unwrap(), "line 11");
    assert_eq!(log.back().unwrap(), "line 0");
    assert!(add_to_debug_log_overlay(&mut log, "line 12".to_string(), &features(true)));
    assert_eq!(log.len(), 12);
    assert_eq!(log.front().unwrap(), "line 12");
    assert_eq!(log.back().unwrap(), "line 1");
    let expected: Vec<String> = (1..=12).rev().map(|n| format!("line {n}")).collect();
    assert_eq!(log.iter().cloned().collect::<Vec<_>>(), expected);
}

#[test]
fn log_mode_shows_the_oldest_line_on_top() {
    let mut log = VecDeque::new();
    for text in ["first", "second", "third"] {
        add_to_debug_log_overlay(&mut log, text.to_string(), &features(true));
    }
    let mut buf = vec![1u8; OVERLAY_LEN];
    let runs = refresh_overlay_buffer(&mut buf, LOG_MODE, &log, None);
    assert_eq!(
        plain(runs),
        vec![run("first", 12, true), run("second", 26, true), run("third", 40, true)]
    );
    assert_eq!(pixel(&buf, 5, 5), BACKGROUND);
    assert_eq!(pixel(&buf, 0, 5), [1; 4]);
}

#[test]
fn full_log_ends_on_the_last_baseline() {
    let mut log = VecDeque::new();
    for n in 0..12 {
        add_to_debug_log_overlay(&mut log, format!("{n}"), &features(true));
    }
    let mut buf = get_overlay();
    let runs = plain(refresh_overlay_buffer(&mut buf, LOG_MODE, &log, None));
    assert_eq!(runs.len(), 12);
    assert_eq!(runs[0], run("0", 12, true));
    assert_eq!(runs[11], run("11", 12 + 14 * 11, true));
}

#[test]
fn stat_mode_shows_the_three_frame_times() {
    let mut stats = get_stats_map();
    send_statistic(&mut stats, FRAME_TIME_CUSTOM, 1500);
    send_statistic(&mut stats, FRAME_TIME_TOTAL, 4_000_000_000);
    send_statistic(&mut stats, FRAME_TIME_DIFF, 0);
    let mut buf = get_overlay();
    let runs = refresh_overlay_buffer(&mut buf, STAT_MODE, &VecDeque::new(), Some(&stats));
    assert_eq!(
        plain(runs),
        vec![
            run("Custom render: 1500ns.  ", 12, true),
            run("Total render: 4000000000ns.  ", 12, false),
            run("Original: 0ns.  ", 12, false),
        ]
    );
}

#[test]
fn nothing_is_shown_without_statistics_or_in_an_unknown_mode() {
    let mut log = VecDeque::new();
    add_to_debug_log_overlay(&mut log, "a line".to_string(), &features(true));
    let mut buf = get_overlay();
    assert!(refresh_overlay_buffer(&mut buf, STAT_MODE, &log, None).is_empty());
    assert!(refresh_overlay_buffer(&mut buf, 2, &log, Some(&get_stats_map())).is_empty());
    assert!(refresh_overlay_buffer(&mut buf, 255, &log, None).is_empty());
}

#[test]
fn statistics_start_with_a_hundred_zeroed_slots() {
    let stats = get_stats_map();
    assert_eq!(stats.len(), 100);
    for key in 0..100u32 {
        assert_eq!(stats.get(&key), Some(&0));
    }
    assert_eq!(stats.get(&100), None);
}

#[test]
fn sent_statistic_replaces_the_value() {
    let mut stats: HashMap<u32, u32> = get_stats_map();
    send_statistic(&mut stats, 1, 77);
    send_statistic(&mut stats, 1, 78);
    send_statistic(&mut stats, 500, 9);
    assert_eq!(stats.get(&1), Some(&78));
    assert_eq!(stats.get(&500), Some(&9));
    assert_eq!(stats.get(&0), Some(&0));
    assert_eq!(stats.len(), 101);
}

#[test]
fn statistics_are_redrawn_at_most_twice_a_second() {
    assert!(refresh_due(500, &features(true), STAT_MODE));
    assert!(refresh_due(u64::MAX, &features(true), STAT_MODE));
    assert!(!refresh_due(499, &features(true), STAT_MODE));
    assert!(!refresh_due(500, &features(false), STAT_MODE));
    assert!(!refresh_due(500, &features(true), LOG_MODE));
}

#[test]
fn frame_times_are_cut_to_32_bits() {
    assert_eq!(frame_statistics(1_000, 16_000), [(0, 1_000), (1, 16_000), (2, 15_000)]);
    assert_eq!(
        frame_statistics(0x1_0000_0005, 0x2_0000_0009),
        [(0, 5), (1, 9), (2, 4)]
    );
    assert_eq!((FRAME_TIME_CUSTOM, FRAME_TIME_TOTAL, FRAME_TIME_DIFF), (0, 1, 2));
}

#[test]
fn frame_time_difference_wraps_around() {
    assert_eq!(
        frame_statistics(0xFFFF_FFFB, 0x1_0000_0005),
        [(0, 0xFFFF_FFFB), (1, 5), (2, 10)]
    );
    assert_eq!(frame_statistics(1, 0), [(0, 1), (1, 0), (2, u32::MAX)]);
    assert_eq!(frame_statistics(u128::MAX, u128::MAX), [(0, u32::MAX), (1, u32::MAX), (2, 0)]);
}

#[test]
fn dump_reports_and_resets() {
    let mut engine = CompositeEngine::new();
    let state =
        OverlayState { width: 3, height: 2, addr1: 5, addr2: 6, target_width: 3, target_height: 2 };
    engine.state = Some(state);
    engine.phase = PresentPhase::AwaitOriginal;
    let mut frame = FrameBuffer::new();
    let mut src = vec![0u8; 3 * 2 * 4];
    src[0] = 1;
    src[4] = 1;
    src[5] = 1;
    src[11] = 255;
    assert!(frame.store_full(3, 2, &src));
    let report = dump_debug_data(&mut engine, &mut frame);
    assert_eq!(
        report,
        DebugReport {
            state,
            frame_width: 3,
            frame_height: 2,
            counts: ChannelCounts { r: 2, g: 1, b: 0, a: 1 },
        }
    );
    assert_eq!(engine.state, None);
    assert_eq!(engine.phase, PresentPhase::AwaitOriginal);
    assert_eq!(engine.frame, MMFData::new());
    assert_eq!((frame.width, frame.height), (3, 2));
    assert_eq!(frame.pixels, vec![0u8; 24]);
}

#[test]
fn dump_of_an_engine_without_frames() {
    let mut engine = CompositeEngine::new();
    engine.state = Some(OverlayState::new());
    let mut frame = FrameBuffer::new();
    let report = dump_debug_data(&mut engine, &mut frame);
    assert_eq!(report.state, OverlayState::new());
    assert_eq!((report.frame_width, report.frame_height), (0, 0));
    assert_eq!(report.counts, ChannelCounts { r: 0, g: 0, b: 0, a: 0 });
    assert_eq!(engine.state, None);
    assert!(frame.pixels.is_empty());
}

#[test]
fn process_names_are_compared_without_case() {
    assert!(process_matches("Blish HUD.exe", "Blish HUD.exe"));
    assert!(process_matches("BLISH hud.EXE", "Blish HUD.exe"));
    assert!(!process_matches("Blish HUD.exe ", "Blish HUD.exe"));
    assert!(!process_matches("Blish_HUD.exe", "Blish HUD.exe"));
    assert!(!process_matches("", "Blish HUD.exe"));
    assert!(process_matches("", ""));
    assert!(!process_matches("\u{c9}t\u{e9}.exe", "\u{e9}t\u{e9}.exe"));
    assert!(process_matches("\u{e9}T\u{e9}.EXE", "\u{e9}t\u{e9}.exe"));
    assert!(!process_matches("[", "{"));
    assert!(!process_matches("@", "`"));
}

#[test]
fn log_lines_of_errors_name_their_place() {
    assert_eq!(
        format_log_line("2026-01-02 03:04:05", "ERROR", true, Some("src/ui/mmf.rs"), Some(120), "no header"),
        "[2026-01-02 03:04:05] [external-dx11-overlay] [ERROR] [src/ui/mmf.rs:120] no header"
    );
    assert_eq!(
        format_log_line("t", "ERROR", true, None, None, "m"),
        "[t] [external-dx11-overlay] [ERROR] [<unknown>:0] m"
    );
    assert_eq!(
        format_log_line("t", "ERROR", true, None, Some(u32::MAX), ""),
        "[t] [external-dx11-overlay] [ERROR] [<unknown>:4294967295] "
    );
}

#[test]
fn log_lines_of_other_levels_do_not() {
    assert_eq!(
        format_log_line("2026-01-02 03:04:05", "INFO", false, Some("src/lib.rs"), Some(7), "Attaching to process"),
        "[2026-01-02 03:04:05] [external-dx11-overlay] [INFO] Attaching to process"
    );
    assert_eq!(format_log_line("", "", false, None, None, ""), "[] [external-dx11-overlay] [] ");
}

#[test]
fn numbers_are_written_in_decimal() {
    for (value, expected) in [
        (0u64, "0"),
        (7, "7"),
        (10, "10"),
        (99, "99"),
        (100, "100"),
        (1_234_567_890, "1234567890"),
        (u64::MAX, "18446744073709551615"),
    ] {
        let mut text = String::from("n=");
        push_decimal(&mut text, value);
        assert_eq!(text, format!("n={expected}"));
    }
}

#[test]
fn white_space_is_what_the_standard_library_says() {
    for code in 0..=0x3100u32 {
        if let Some(c) = char::from_u32(code) {
            assert_eq!(is_whitespace(c), c.is_whitespace(), "U+{code:04X}");
        }
    }
    assert!(!is_whitespace('\u{feff}'));
    assert!(!is_whitespace('\u{200b}'));
    assert!(!is_whitespace(char::MAX));
}
