//! The diagnostics overlay: a small RGBA image with a border, into which log
//! lines or statistics are drawn, and which is copied into the frame at its
//! top left corner.

use vstd::prelude::*;
use std::collections::HashMap;
use std::collections::VecDeque;
use vstd::string::StringExecFns;
use super::DebugFeatures;
use super::statistics::{FRAME_TIME_CUSTOM, FRAME_TIME_DIFF, FRAME_TIME_TOTAL};
use crate::text::{decimal, push_decimal};
use crate::ui::frame::{copy_rows, lemma_byte_of_row, lemma_row_byte, rows_copied, rows_fit};

verus! {

broadcast use vstd::std_specs::hash::group_hash_axioms;

/// Width of the overlay image, in pixels.
pub const OVERLAY_WIDTH: usize = 600;

/// Height of the overlay image, in pixels.
pub const OVERLAY_HEIGHT: usize = 180;

/// Number of bytes of the overlay image.
pub const OVERLAY_LEN: usize = 432000;

/// Number of bytes of one row of the overlay image.
pub const OVERLAY_ROW: usize = 2400;

/// Overlay mode: the log is shown.
pub const LOG_MODE: u8 = 0;

/// Overlay mode: the frame statistics are shown.
pub const STAT_MODE: u8 = 1;

/// Number of log lines that are kept.
pub const MAX_LOG_LINES: usize = 12;

/// Red value of the background colour.
pub const DEBUG_OVERLAY_BG_R: u8 = 0;

/// Green value of the background colour.
pub const DEBUG_OVERLAY_BG_G: u8 = 0;

/// Blue value of the background colour.
pub const DEBUG_OVERLAY_BG_B: u8 = 20;

/// Alpha value of the background colour.
pub const DEBUG_OVERLAY_BG_A: u8 = 200;

/// Colour value of the border's red, green and blue channels.
pub const BORDER_TONE: u8 = 200;

/// Whether the overlay pixel in column `i` of row `j` belongs to the border.
pub open spec fn on_border(i: int, j: int) -> bool {
    i == 0 || i == OVERLAY_WIDTH - 1 || j == 0 || j == OVERLAY_HEIGHT - 1
}

/// The background colour's value in channel `c`.
pub open spec fn background(c: int) -> u8 {
    if c == 0 {
        DEBUG_OVERLAY_BG_R
    } else if c == 1 {
        DEBUG_OVERLAY_BG_G
    } else if c == 2 {
        DEBUG_OVERLAY_BG_B
    } else {
        DEBUG_OVERLAY_BG_A
    }
}

/// The border colour's value in channel `c`.
pub open spec fn border(c: int) -> u8 {
    if c == 3 {
        255
    } else {
        BORDER_TONE
    }
}

/// Column of the overlay pixel that byte `k` belongs to.
pub open spec fn column_of(k: int) -> int {
    k / 4 % 600
}

/// Row of the overlay pixel that byte `k` belongs to.
pub open spec fn row_of(k: int) -> int {
    k / 4 / 600
}

/// The empty overlay image: a border around the background colour.
pub open spec fn empty_overlay() -> Seq<u8> {
    Seq::new(
        OVERLAY_LEN as nat,
        |k: int|
            if on_border(column_of(k), row_of(k)) {
                border(k % 4)
            } else {
                background(k % 4)
            },
    )
}

/// The overlay image with everything inside the border set to the background colour.
pub open spec fn cleared(image: Seq<u8>) -> Seq<u8> {
    Seq::new(
        image.len(),
        |k: int|
            if on_border(column_of(k), row_of(k)) {
                image[k]
            } else {
                background(k % 4)
            },
    )
}

/// The first `done` pixels painted as `target` has them, the others as in `image`.
spec fn partly(image: Seq<u8>, target: Seq<u8>, done: int) -> Seq<u8> {
    Seq::new(
        image.len(),
        |k: int|
            if k / 4 < done {
                target[k]
            } else {
                image[k]
            },
    )
}

/// Sets everything inside the border of an overlay image to the background
/// colour, which wipes out what was drawn. The border is left as it is.
pub fn clear_log_area(buf: &mut Vec<u8>)
    requires
        old(buf)@.len() == OVERLAY_LEN,
    ensures
        final(buf)@ == cleared(old(buf)@),
{
    let ghost before = buf@;
    let ghost target = cleared(before);
    let mut j: usize = 0;
    assert(buf@ =~= partly(before, target, 0));
    while j < OVERLAY_HEIGHT
        invariant
            j <= OVERLAY_HEIGHT,
            before.len() == OVERLAY_LEN,
            target == cleared(before),
            buf@ == partly(before, target, j * 600),
        decreases OVERLAY_HEIGHT - j,
    {
        let mut i: usize = 0;
        while i < OVERLAY_WIDTH
            invariant
                j < OVERLAY_HEIGHT,
                i <= OVERLAY_WIDTH,
                before.len() == OVERLAY_LEN,
                target == cleared(before),
                buf@ == partly(before, target, j * 600 + i),
            decreases OVERLAY_WIDTH - i,
        {
            let idx: usize = (j * OVERLAY_WIDTH + i) * 4;
            if i == 0 || i == OVERLAY_WIDTH - 1 || j == 0 || j == OVERLAY_HEIGHT - 1 {
            } else {
                buf[idx] = DEBUG_OVERLAY_BG_R;
                buf[idx + 1] = DEBUG_OVERLAY_BG_G;
                buf[idx + 2] = DEBUG_OVERLAY_BG_B;
                buf[idx + 3] = DEBUG_OVERLAY_BG_A;
            }
            assert(buf@ =~= partly(before, target, j * 600 + i + 1));
            i = i + 1;
        }
        j = j + 1;
    }
    assert(buf@ =~= target);
}

/// Builds the empty overlay image.
pub fn get_overlay() -> (buf: Vec<u8>)
    ensures
        buf@ == empty_overlay(),
{
    let mut buf: Vec<u8> = vec![0u8; OVERLAY_LEN];
    let ghost before = buf@;
    let ghost target = empty_overlay();
    let mut j: usize = 0;
    assert(buf@ =~= partly(before, target, 0));
    while j < OVERLAY_HEIGHT
        invariant
            j <= OVERLAY_HEIGHT,
            before.len() == OVERLAY_LEN,
            target == empty_overlay(),
            buf@ == partly(before, target, j * 600),
        decreases OVERLAY_HEIGHT - j,
    {
        let mut i: usize = 0;
        while i < OVERLAY_WIDTH
            invariant
                j < OVERLAY_HEIGHT,
                i <= OVERLAY_WIDTH,
                before.len() == OVERLAY_LEN,
                target == empty_overlay(),
                buf@ == partly(before, target, j * 600 + i),
            decreases OVERLAY_WIDTH - i,
        {
            let idx: usize = (j * OVERLAY_WIDTH + i) * 4;
            if i == 0 || i == OVERLAY_WIDTH - 1 || j == 0 || j == OVERLAY_HEIGHT - 1 {
                buf[idx] = BORDER_TONE;
                buf[idx + 1] = BORDER_TONE;
                buf[idx + 2] = BORDER_TONE;
                buf[idx + 3] = 255;
            } else {
                buf[idx] = DEBUG_OVERLAY_BG_R;
                buf[idx + 1] = DEBUG_OVERLAY_BG_G;
                buf[idx + 2] = DEBUG_OVERLAY_BG_B;
                buf[idx + 3] = DEBUG_OVERLAY_BG_A;
            }
            assert(buf@ =~= partly(before, target, j * 600 + i + 1));
            i = i + 1;
        }
        j = j + 1;
    }
    assert(buf@ =~= target);
    buf
}

/// The log after a line was added: the new line in front, and of the lines
/// before it as many as leave the log within `MAX_LOG_LINES`; the oldest line,
/// at the back, is the one that goes.
pub open spec fn log_with(log: Seq<String>, line: String) -> Seq<String> {
    if log.len() == MAX_LOG_LINES {
        seq![line] + log.drop_last()
    } else {
        seq![line] + log
    }
}

/// Adds a line to the log that the overlay shows. Returns whether the overlay
/// image has to be drawn anew, which is so while the overlay is switched on.
pub fn add_to_debug_log_overlay(
    log: &mut VecDeque<String>,
    line: String,
    features: &DebugFeatures,
) -> (refresh: bool)
    ensures
        final(log)@ == log_with(old(log)@, line),
        refresh == features.debug_overlay_enabled,
{
    if log.len() == MAX_LOG_LINES {
        let _ = log.pop_back();
    }
    log.push_front(line);
    assert(log@ =~= log_with(old(log)@, line));
    features.debug_overlay_enabled
}

/// Copies the overlay image into a frame `width` pixels wide, one pixel in
/// from the frame's left edge, starting in its first row. Nothing is copied
/// unless the frame holds the whole image; the result tells.
pub fn draw_debug_overlay(pixels: &mut Vec<u8>, width: u32, overlay: &Vec<u8>) -> (done: bool)
    ensures
        done == rows_fit(
            old(pixels)@.len() as int,
            overlay@.len() as int,
            4,
            width * 4,
            OVERLAY_ROW as int,
            OVERLAY_HEIGHT as int,
        ),
        done ==> final(pixels)@ == rows_copied(
            old(pixels)@,
            overlay@,
            4,
            width * 4,
            OVERLAY_ROW as int,
            OVERLAY_HEIGHT as int,
        ),
        !done ==> final(pixels)@ == old(pixels)@,
{
    let pitch: u64 = width as u64 * 4;
    if pitch > usize::MAX as u64 {
        proof {
            assert(old(pixels)@.len() <= usize::MAX) by {
                let _ = pixels.len();
            }
            assert(179 * (width * 4) >= width * 4);
        }
        return false;
    }
    copy_rows(pixels, 4, pitch as usize, overlay.as_slice(), OVERLAY_ROW, OVERLAY_HEIGHT)
}

/// The frame with the alpha values of the overlay's place set to zero.
pub open spec fn alpha_cleared(pixels: Seq<u8>, pitch: int) -> Seq<u8> {
    Seq::new(
        pixels.len(),
        |k: int|
            if k >= 4 && (k - 4) / pitch < OVERLAY_HEIGHT && (k - 4) % pitch < OVERLAY_ROW && (k
                - 4) % pitch % 4 == 3 {
                0
            } else {
                pixels[k]
            },
    )
}

/// The frame while the alpha values of row `y` are being cleared: the rows above
/// it are done, and of row `y` the first `i` pixels.
spec fn alpha_clearing(pixels: Seq<u8>, pitch: int, y: int, i: int) -> Seq<u8> {
    Seq::new(
        pixels.len(),
        |k: int|
            if k >= 4 && (k - 4) % pitch < OVERLAY_ROW && (k - 4) % pitch % 4 == 3 && ((k - 4)
                / pitch < y || ((k - 4) / pitch == y && (k - 4) % pitch / 4 < i)) {
                0
            } else {
                pixels[k]
            },
    )
}

/// Makes the overlay's place in a frame transparent again, after the overlay
/// was switched off: the alpha value of each pixel that `draw_debug_overlay`
/// writes is set to zero. Nothing is changed unless the frame holds the whole
/// place; the result tells.
pub fn clear_debug_overlay(pixels: &mut Vec<u8>, width: u32) -> (done: bool)
    ensures
        done == rows_fit(
            old(pixels)@.len() as int,
            OVERLAY_LEN as int,
            4,
            width * 4,
            OVERLAY_ROW as int,
            OVERLAY_HEIGHT as int,
        ),
        done ==> final(pixels)@ == alpha_cleared(old(pixels)@, width * 4),
        !done ==> final(pixels)@ == old(pixels)@,
{
    let len: usize = pixels.len();
    let wide: u64 = width as u64 * 4;
    if wide < OVERLAY_ROW as u64 {
        return false;
    }
    let needed: u64 = 4 + 179 * wide + OVERLAY_ROW as u64;
    if (len as u64) < needed {
        return false;
    }
    let pitch: usize = wide as usize;
    let ghost before = pixels@;
    let ghost p = pitch as int;
    let mut y: usize = 0;
    proof {
        let after = alpha_clearing(before, p, 0, 0);
        assert forall|k: int| 0 <= k < after.len() implies pixels@[k] == after[k] by {
            if k >= 4 {
                lemma_byte_of_row(k - 4, p);
            }
        }
        assert(pixels@ =~= after);
    }
    while y < OVERLAY_HEIGHT
        invariant
            y <= OVERLAY_HEIGHT,
            p == pitch,
            OVERLAY_ROW <= pitch,
            pixels@.len() == before.len(),
            4 + 179 * p + OVERLAY_ROW <= before.len() <= usize::MAX,
            pixels@ == alpha_clearing(before, p, y as int, 0),
        decreases OVERLAY_HEIGHT - y,
    {
        proof {
            let yi = y as int;
            assert(yi * p <= 179 * p && 0 <= yi * p) by (nonlinear_arith)
                requires
                    0 <= yi <= 179,
                    0 <= p,
            ;
            assert(y * pitch == yi * p);
        }
        let row: usize = y * pitch + 4;
        let mut i: usize = 0;
        while i < OVERLAY_WIDTH
            invariant
                y < OVERLAY_HEIGHT,
                i <= OVERLAY_WIDTH,
                p == pitch,
                OVERLAY_ROW <= pitch,
                row == y * p + 4,
                pixels@.len() == before.len(),
                row + OVERLAY_ROW <= before.len() <= usize::MAX,
                pixels@ == alpha_clearing(before, p, y as int, i as int),
            decreases OVERLAY_WIDTH - i,
        {
            let ghost start = pixels@;
            pixels[row + i * 4 + 3] = 0;
            proof {
                let after = alpha_clearing(before, p, y as int, i + 1);
                lemma_row_byte(y as int, i * 4 + 3, p);
                assert forall|k: int| 0 <= k < after.len() implies pixels@[k] == after[k] by {
                    if k >= 4 {
                        lemma_byte_of_row(k - 4, p);
                    }
                    if k == row + i * 4 + 3 {
                        assert(k - 4 == y * p + (i * 4 + 3));
                    } else {
                        assert(pixels@[k] == start[k]);
                        assert(!(k >= 4 && (k - 4) / p == y && (k - 4) % p == i * 4 + 3));
                    }
                }
                assert(pixels@ =~= after);
            }
            i = i + 1;
        }
        proof {
            let after = alpha_clearing(before, p, y + 1, 0);
            assert forall|k: int| 0 <= k < after.len() implies pixels@[k] == after[k] by {
                if k >= 4 {
                    lemma_byte_of_row(k - 4, p);
                }
            }
            assert(pixels@ =~= after);
        }
        y = y + 1;
    }
    proof {
        let after = alpha_cleared(before, p);
        assert forall|k: int| 0 <= k < after.len() implies pixels@[k] == after[k] by {
            if k >= 4 {
                lemma_byte_of_row(k - 4, p);
            }
        }
        assert(pixels@ =~= after);
    }
    true
}

/// The coverage that a glyph's bitmap has for the overlay pixel in column `i` of
/// row `j`, when the glyph's top left corner is placed at (`gx`, `gy`); zero
/// outside the glyph.
pub open spec fn glyph_value(
    bitmap: Seq<u8>,
    gx: int,
    gy: int,
    width: int,
    height: int,
    i: int,
    j: int,
) -> u8 {
    if 0 <= i - gx < width && 0 <= j - gy < height {
        bitmap[(j - gy) * width + (i - gx)]
    } else {
        0
    }
}

/// The overlay image with a glyph drawn into it: where the glyph's coverage is
/// not zero, the pixel turns grey with that value and fully opaque.
pub open spec fn with_glyph(
    image: Seq<u8>,
    bitmap: Seq<u8>,
    gx: int,
    gy: int,
    width: int,
    height: int,
) -> Seq<u8> {
    Seq::new(
        image.len(),
        |k: int|
            {
                let value = glyph_value(bitmap, gx, gy, width, height, column_of(k), row_of(k));
                if value == 0 {
                    image[k]
                } else if k % 4 == 3 {
                    255
                } else {
                    value
                }
            },
    )
}

/// The overlay image while a glyph is being drawn: done are the glyph's rows
/// above `row` and, of that row, the columns left of `col`.
spec fn glyph_drawing(
    image: Seq<u8>,
    bitmap: Seq<u8>,
    gx: int,
    gy: int,
    width: int,
    height: int,
    row: int,
    col: int,
) -> Seq<u8> {
    Seq::new(
        image.len(),
        |k: int|
            {
                let i = column_of(k);
                let j = row_of(k);
                let value = glyph_value(bitmap, gx, gy, width, height, i, j);
                if value == 0 || !(j - gy < row || (j - gy == row && i - gx < col)) {
                    image[k]
                } else if k % 4 == 3 {
                    255
                } else {
                    value
                }
            },
    )
}

/// Column of the overlay image at which a glyph's bitmap begins, for a pen at
/// column `x` and a glyph whose bitmap begins `xmin` pixels right of the pen.
pub open spec fn glyph_left(x: usize, xmin: i32) -> int {
    x + xmin
}

/// Row of the overlay image at which a glyph's bitmap begins, for a baseline in
/// row `y` and a glyph of the given height whose bitmap ends `ymin` pixels
/// above the baseline.
pub open spec fn glyph_top(y: usize, ymin: i32, height: usize) -> int {
    y - height - ymin
}

/// Draws a rasterized glyph into the overlay image. The pen stands at column
/// `x`, the baseline is row `y`; `xmin` and `ymin` place the glyph's bitmap
/// relative to them. `bitmap` holds the glyph's coverage, row by row, `width`
/// values per row. Parts of the glyph outside the image are left out.
/// Nothing is drawn unless the bitmap holds `width * height` values; the
/// result tells.
pub fn draw_char(
    buf: &mut Vec<u8>,
    x: usize,
    y: usize,
    xmin: i32,
    ymin: i32,
    width: usize,
    height: usize,
    bitmap: &[u8],
) -> (done: bool)
    requires
        old(buf)@.len() == OVERLAY_LEN,
    ensures
        done == (width * height <= bitmap@.len()),
        done ==> final(buf)@ == with_glyph(
            old(buf)@,
            bitmap@,
            glyph_left(x, xmin),
            glyph_top(y, ymin, height),
            width as int,
            height as int,
        ),
        !done ==> final(buf)@ == old(buf)@,
{
    let bitmap_len: usize = bitmap.len();
    match width.checked_mul(height) {
        Some(total) => {
            if bitmap_len < total {
                return false;
            }
        },
        None => {
            return false;
        },
    }
    let ghost before = buf@;
    let ghost w = width as int;
    let ghost h = height as int;
    let gx: i128 = x as i128 + xmin as i128;
    let gy: i128 = y as i128 - height as i128 - ymin as i128;
    // The rows and columns of the bitmap that fall into the image.
    let first_row: i128 = if gy < 0 { -gy } else { 0 };
    let end_row: i128 = if OVERLAY_HEIGHT as i128 - gy < height as i128 {
        OVERLAY_HEIGHT as i128 - gy
    } else {
        height as i128
    };
    let first_col: i128 = if gx < 0 { -gx } else { 0 };
    let end_col: i128 = if OVERLAY_WIDTH as i128 - gx < width as i128 {
        OVERLAY_WIDTH as i128 - gx
    } else {
        width as i128
    };
    if first_row >= end_row || first_col >= end_col {
        assert(buf@ =~= with_glyph(before, bitmap@, gx as int, gy as int, w, h));
        return true;
    }
    let mut row: usize = first_row as usize;
    assert(buf@ =~= glyph_drawing(before, bitmap@, gx as int, gy as int, w, h, first_row as int, 0));
    while row < end_row as usize
        invariant
            0 <= first_row <= row <= end_row <= height,
            0 <= first_col < end_col <= width,
            first_row == (if gy < 0 { -gy } else { 0 }),
            first_col == (if gx < 0 { -gx } else { 0 }),
            end_row == (if OVERLAY_HEIGHT - gy < height { OVERLAY_HEIGHT - gy } else { height as int }),
            end_col == (if OVERLAY_WIDTH - gx < width { OVERLAY_WIDTH - gx } else { width as int }),
            w == width,
            h == height,
            w * h <= bitmap@.len() <= usize::MAX,
            before.len() == OVERLAY_LEN,
            buf@.len() == OVERLAY_LEN,
            buf@ == glyph_drawing(before, bitmap@, gx as int, gy as int, w, h, row as int, 0),
        decreases end_row - row,
    {
        proof {
            let r = row as int;
            assert(r * w + w <= h * w && 0 <= r * w) by (nonlinear_arith)
                requires
                    0 <= r < h,
                    0 <= w,
            ;
            assert(h * w == w * h) by (nonlinear_arith);
            assert(row * width == r * w);
        }
        let line: usize = row * width;
        let mut col: usize = first_col as usize;
        assert(buf@ =~= glyph_drawing(
            before,
            bitmap@,
            gx as int,
            gy as int,
            w,
            h,
            row as int,
            first_col as int,
        ));
        while col < end_col as usize
            invariant
                0 <= first_row <= row < end_row <= height,
                0 <= first_col <= col <= end_col <= width,
                first_row == (if gy < 0 { -gy } else { 0 }),
                first_col == (if gx < 0 { -gx } else { 0 }),
                end_row == (if OVERLAY_HEIGHT - gy < height {
                    OVERLAY_HEIGHT - gy
                } else {
                    height as int
                }),
                end_col == (if OVERLAY_WIDTH - gx < width {
                    OVERLAY_WIDTH - gx
                } else {
                    width as int
                }),
                w == width,
                h == height,
                line == row * w,
                line + width <= bitmap@.len() <= usize::MAX,
                before.len() == OVERLAY_LEN,
                buf@.len() == OVERLAY_LEN,
                buf@ == glyph_drawing(
                    before,
                    bitmap@,
                    gx as int,
                    gy as int,
                    w,
                    h,
                    row as int,
                    col as int,
                ),
            decreases end_col - col,
        {
            let src: u8 = bitmap[line + col];
            if src != 0 {
                let px: usize = (gx + col as i128) as usize;
                let py: usize = (gy + row as i128) as usize;
                let at: usize = (py * OVERLAY_WIDTH + px) * 4;
                buf[at] = src;
                buf[at + 1] = src;
                buf[at + 2] = src;
                buf[at + 3] = 255;
            }
            assert(buf@ =~= glyph_drawing(
                before,
                bitmap@,
                gx as int,
                gy as int,
                w,
                h,
                row as int,
                col + 1,
            ));
            col = col + 1;
        }
        assert(buf@ =~= glyph_drawing(before, bitmap@, gx as int, gy as int, w, h, row + 1, 0));
        row = row + 1;
    }
    assert(buf@ =~= with_glyph(before, bitmap@, gx as int, gy as int, w, h));
    true
}

/// Column at which a line of text begins.
pub const TEXT_LEFT: u32 = 2;

/// Baseline of the first line of text.
pub const FIRST_BASELINE: u32 = 12;

/// Distance between the baselines of two lines of text.
pub const LINE_STEP: u32 = 14;

/// Size of the font, in pixels.
pub const FONT_SIZE: u32 = 12;

/// Column that no glyph may reach: a line of text ends before it.
pub const MAX_X: u32 = 595;

/// A piece of text to draw into the overlay image.
#[derive(Debug)]
pub struct TextRun {
    pub text: String,
    /// Baseline of the text.
    pub y: u32,
    /// Whether the text begins at `TEXT_LEFT`; else it goes on where the run
    /// before it ended.
    pub fresh_line: bool,
}

/// A piece of text to draw, as a plain value.
pub struct RunView {
    pub text: Seq<char>,
    pub y: int,
    pub fresh_line: bool,
}

impl View for TextRun {
    type V = RunView;

    open spec fn view(&self) -> RunView {
        RunView { text: self.text@, y: self.y as int, fresh_line: self.fresh_line }
    }
}

/// The runs that show the log: one line of text for each log line, the oldest
/// on top.
pub open spec fn log_runs(log: Seq<String>) -> Seq<RunView> {
    Seq::new(
        log.len(),
        |i: int|
            RunView {
                text: log[log.len() - 1 - i]@,
                y: FIRST_BASELINE + LINE_STEP * i,
                fresh_line: true,
            },
    )
}

/// The text that shows one statistic.
pub open spec fn stat_text(label: Seq<char>, value: u32) -> Seq<char> {
    label + decimal(value as nat) + "ns.  "@
}

/// The runs that show the frame statistics: three texts, one after the other
/// on the first line.
pub open spec fn stat_runs(stats: Map<u32, u32>) -> Seq<RunView> {
    seq![
        RunView {
            text: stat_text("Custom render: "@, stats[FRAME_TIME_CUSTOM]),
            y: FIRST_BASELINE as int,
            fresh_line: true,
        },
        RunView {
            text: stat_text("Total render: "@, stats[FRAME_TIME_TOTAL]),
            y: FIRST_BASELINE as int,
            fresh_line: false,
        },
        RunView {
            text: stat_text("Original: "@, stats[FRAME_TIME_DIFF]),
            y: FIRST_BASELINE as int,
            fresh_line: false,
        },
    ]
}

/// What the overlay shows in a mode: the log, the statistics if there are
/// any, and nothing in a mode that is not known.
pub open spec fn overlay_runs(mode: u8, log: Seq<String>, stats: Option<Map<u32, u32>>) -> Seq<
    RunView,
> {
    if mode == LOG_MODE {
        log_runs(log)
    } else if mode == STAT_MODE && stats is Some {
        stat_runs(stats->Some_0)
    } else {
        Seq::empty()
    }
}

/// Whether the table holds the three frame statistics.
pub open spec fn has_frame_times(stats: Map<u32, u32>) -> bool {
    stats.contains_key(FRAME_TIME_CUSTOM) && stats.contains_key(FRAME_TIME_TOTAL)
        && stats.contains_key(FRAME_TIME_DIFF)
}

fn stat_run(label: &str, value: u32, fresh_line: bool) -> (run: TextRun)
    ensures
        run@ == (RunView {
            text: stat_text(label@, value),
            y: FIRST_BASELINE as int,
            fresh_line,
        }),
{
    let mut text = String::from_str(label);
    push_decimal(&mut text, value as u64);
    text.append("ns.  ");
    TextRun { text, y: FIRST_BASELINE, fresh_line }
}

/// Prepares the overlay image for drawing anew: wipes out what was drawn and
/// returns the texts to draw, in their order. The caller rasterizes them and
/// draws each glyph with `draw_char`.
pub fn refresh_overlay_buffer(
    buf: &mut Vec<u8>,
    mode: u8,
    log: &VecDeque<String>,
    stats: Option<&HashMap<u32, u32>>,
) -> (runs: Vec<TextRun>)
    requires
        old(buf)@.len() == OVERLAY_LEN,
        log@.len() <= MAX_LOG_LINES,
        mode == STAT_MODE && stats is Some ==> has_frame_times(stats->Some_0@),
    ensures
        final(buf)@ == cleared(old(buf)@),
        runs@.len() == overlay_runs(
            mode,
            log@,
            match stats {
                Some(table) => Some(table@),
                None => None,
            },
        ).len(),
        forall|i: int|
            0 <= i < runs@.len() ==> (#[trigger] runs@[i])@ == overlay_runs(
                mode,
                log@,
                match stats {
                    Some(table) => Some(table@),
                    None => None,
                },
            )[i],
{
    clear_log_area(buf);
    let mut runs: Vec<TextRun> = Vec::new();
    if mode == LOG_MODE {
        let count: usize = log.len();
        let mut i: usize = 0;
        while i < count
            invariant
                i <= count,
                count == log@.len(),
                count <= MAX_LOG_LINES,
                runs@.len() == i,
                forall|k: int| 0 <= k < i ==> (#[trigger] runs@[k])@ == log_runs(log@)[k],
            decreases count - i,
        {
            let line: &String = &log[count - 1 - i];
            let text = line.clone();
            runs.push(TextRun { text, y: FIRST_BASELINE + LINE_STEP * i as u32, fresh_line: true });
            i = i + 1;
        }
    } else if mode == STAT_MODE {
        match stats {
            Some(table) => {
                let custom = *table.get(&FRAME_TIME_CUSTOM).unwrap();
                let total = *table.get(&FRAME_TIME_TOTAL).unwrap();
                let diff = *table.get(&FRAME_TIME_DIFF).unwrap();
                runs.push(stat_run("Custom render: ", custom, true));
                runs.push(stat_run("Total render: ", total, false));
                runs.push(stat_run("Original: ", diff, false));
            },
            None => {},
        }
    }
    runs
}

} // verus!
