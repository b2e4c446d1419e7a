//! The in-process frame cache of the pixel-copy transport: a tightly packed RGBA
//! buffer, row-major, four bytes per pixel.

use vstd::prelude::*;
use super::{MAX_DIMENSION, dimensions_valid};

verus! {

/// Number of bytes of a frame of the given dimensions.
pub open spec fn frame_len(width: u32, height: u32) -> int {
    width as int * height as int * 4
}

/// Position, in a frame `width` pixels wide, of channel `c` of the pixel at (`x`, `y`).
pub open spec fn byte_at(width: int, x: int, y: int, c: int) -> int {
    (y * width + x) * 4 + c
}

/// A byte position of a frame lies inside it, and determines its pixel and channel.
pub proof fn lemma_byte_at(width: int, height: int, x: int, y: int, c: int)
    requires
        0 <= x < width,
        0 <= y < height,
        0 <= c < 4,
    ensures
        0 <= byte_at(width, x, y, c) < width * height * 4,
        byte_at(width, x, y, c) / 4 == y * width + x,
        byte_at(width, x, y, c) % 4 == c,
        (y * width + x) / width == y,
        (y * width + x) % width == x,
{
    assert(0 <= y * width + x < width * height) by (nonlinear_arith)
        requires
            0 <= x < width,
            0 <= y < height,
    ;
    assert((y * width + x) / width == y && (y * width + x) % width == x) by (nonlinear_arith)
        requires
            0 <= x < width,
            0 <= y,
    ;
}

/// A frame of valid dimensions has at most 400 000 000 bytes.
pub proof fn lemma_frame_len_bound(width: u32, height: u32)
    requires
        width <= MAX_DIMENSION,
        height <= MAX_DIMENSION,
    ensures
        0 <= frame_len(width, height) <= 400_000_000,
{
    assert(0 <= width as int * height as int <= 100_000_000) by (nonlinear_arith)
        requires
            0 <= width as int <= 10000,
            0 <= height as int <= 10000,
    ;
}

/// The cached frame.
#[derive(Debug)]
pub struct FrameBuffer {
    pub width: u32,
    pub height: u32,
    pub pixels: Vec<u8>,
}

impl FrameBuffer {
    /// The buffer holds exactly the bytes of a frame of its dimensions, and the
    /// dimensions are within the accepted range, or zero while nothing is cached.
    pub open spec fn wf(&self) -> bool {
        &&& self.width <= MAX_DIMENSION
        &&& self.height <= MAX_DIMENSION
        &&& self.pixels@.len() == frame_len(self.width, self.height)
    }

    /// The alpha value cached for the pixel at (`x`, `y`); zero outside the frame.
    pub open spec fn alpha(&self, x: int, y: int) -> u8 {
        if 0 <= x < self.width && 0 <= y < self.height && byte_at(self.width as int, x, y, 3)
            < self.pixels@.len() {
            self.pixels@[byte_at(self.width as int, x, y, 3)]
        } else {
            0
        }
    }

    /// Whether the pixel at (`x`, `y`) belongs to the overlay's opaque region.
    pub open spec fn opaque_at(&self, x: int, y: int) -> bool {
        self.alpha(x, y) > 0
    }

    /// An empty cache: no frame has arrived.
    pub fn new() -> (buffer: FrameBuffer)
        ensures
            buffer.wf(),
            buffer.width == 0,
            buffer.height == 0,
            buffer.pixels@.len() == 0,
    {
        FrameBuffer { width: 0, height: 0, pixels: Vec::new() }
    }

    /// Checks that the buffer holds exactly the bytes of a frame of its dimensions.
    pub fn is_sound(&self) -> (sound: bool)
        ensures
            sound == self.wf(),
    {
        if self.width > MAX_DIMENSION || self.height > MAX_DIMENSION {
            return false;
        }
        proof {
            lemma_frame_len_bound(self.width, self.height);
        }
        self.pixels.len() as u64 == self.width as u64 * self.height as u64 * 4
    }

    /// Tells whether a pointer position lies on an opaque pixel of the cached frame.
    pub fn is_overlay_pixel(&self, x: i32, y: i32) -> (opaque: bool)
        ensures
            opaque == self.opaque_at(x as int, y as int),
    {
        if x < 0 || y < 0 || x as u32 >= self.width || y as u32 >= self.height {
            return false;
        }
        proof {
            lemma_byte_at(self.width as int, self.height as int, x as int, y as int, 3);
            assert(self.width as int * self.height as int * 4 <= 0xFFFF_FFFF * 0xFFFF_FFFF * 4)
                by (nonlinear_arith)
                requires
                    0 <= self.width as int <= 0xFFFF_FFFF,
                    0 <= self.height as int <= 0xFFFF_FFFF,
            ;
        }
        let at: u128 = (y as u128 * self.width as u128 + x as u128) * 4 + 3;
        if at >= self.pixels.len() as u128 {
            return false;
        }
        self.pixels[at as usize] > 0
    }

    /// Takes in a whole frame. The frame is accepted exactly when its dimensions
    /// are valid and `src` holds at least the bytes of one frame of that size; the
    /// cache then has these dimensions and holds exactly the frame's bytes, in a
    /// buffer of exactly that many bytes. A frame that is not accepted leaves the
    /// cache as it was.
    pub fn store_full(&mut self, width: u32, height: u32, src: &[u8]) -> (stored: bool)
        ensures
            stored == (dimensions_valid(width, height) && src@.len() >= frame_len(width, height)),
            stored ==> final(self).wf() && final(self).width == width && final(self).height
                == height && final(self).pixels@ == src@.take(frame_len(width, height)),
            !stored ==> *final(self) == *old(self),
    {
        if width == 0 || height == 0 || width > MAX_DIMENSION || height > MAX_DIMENSION {
            return false;
        }
        proof {
            lemma_frame_len_bound(width, height);
        }
        let len: usize = (width as u64 * height as u64 * 4) as usize;
        if src.len() < len {
            return false;
        }
        let mut pixels: Vec<u8> = Vec::with_capacity(len);
        let mut i: usize = 0;
        while i < len
            invariant
                i <= len <= src@.len(),
                pixels@ == src@.take(i as int),
            decreases len - i,
        {
            pixels.push(src[i]);
            assert(src@.take(i as int).push(src@[i as int]) =~= src@.take(i + 1));
            i = i + 1;
        }
        self.width = width;
        self.height = height;
        self.pixels = pixels;
        true
    }
}

/// A rectangle of a frame that changed since the frame before.
#[derive(Clone, Copy, Debug, PartialEq, Eq, Structural)]
pub struct DirtyRect {
    pub x: u32,
    pub y: u32,
    pub w: u32,
    pub h: u32,
}

impl DirtyRect {
    /// Whether the pixel at (`px`, `py`) lies inside the rectangle.
    pub open spec fn covers(&self, px: int, py: int) -> bool {
        self.x <= px < self.x + self.w && self.y <= py < self.y + self.h
    }
}

/// Whether one of the rectangles holds the pixel at (`px`, `py`).
pub open spec fn covered(rects: Seq<DirtyRect>, px: int, py: int) -> bool {
    exists|i: int| 0 <= i < rects.len() && (#[trigger] rects[i]).covers(px, py)
}

/// Column of the pixel that byte `k` of a frame belongs to.
pub open spec fn pixel_x(k: int, width: int) -> int {
    (k / 4) % width
}

/// Row of the pixel that byte `k` of a frame belongs to.
pub open spec fn pixel_y(k: int, width: int) -> int {
    (k / 4) / width
}

/// The frame that results from laying the dirty rectangles of `src` over the
/// frame `prev`: inside their union the bytes of `src`, elsewhere those of `prev`.
pub open spec fn composite(prev: Seq<u8>, src: Seq<u8>, rects: Seq<DirtyRect>, width: int) -> Seq<
    u8,
> {
    Seq::new(
        prev.len(),
        |k: int|
            if covered(rects, pixel_x(k, width), pixel_y(k, width)) {
                src[k]
            } else {
                prev[k]
            },
    )
}

/// The frame while the rectangle `rect` is being copied: the rectangles `before`
/// are done, and of `rect` the rows above `y` and, in row `y`, the pixels left of `x`.
spec fn painting(
    prev: Seq<u8>,
    src: Seq<u8>,
    before: Seq<DirtyRect>,
    rect: DirtyRect,
    x: int,
    y: int,
    width: int,
) -> Seq<u8> {
    Seq::new(
        prev.len(),
        |k: int|
            {
                let px = pixel_x(k, width);
                let py = pixel_y(k, width);
                if covered(before, px, py) || (rect.covers(px, py) && (py < y || (py == y && px
                    < x))) {
                    src[k]
                } else {
                    prev[k]
                }
            },
    )
}

proof fn lemma_pixel_of_byte(k: int, width: int, height: int)
    requires
        0 <= k < width * height * 4,
        0 < width,
        0 <= height,
    ensures
        0 <= pixel_x(k, width) < width,
        0 <= pixel_y(k, width) < height,
        k / 4 == pixel_y(k, width) * width + pixel_x(k, width),
{
    let p = k / 4;
    assert(0 <= p < width * height);
    assert(p == (p / width) * width + p % width && 0 <= p % width < width) by (nonlinear_arith)
        requires
            0 < width,
            0 <= p,
    ;
    assert(0 <= p / width < height) by (nonlinear_arith)
        requires
            0 < width,
            0 <= p < width * height,
            p == (p / width) * width + p % width,
            0 <= p % width < width,
    ;
}

proof fn lemma_covered_push(before: Seq<DirtyRect>, rect: DirtyRect, px: int, py: int)
    ensures
        covered(before.push(rect), px, py) == (covered(before, px, py) || rect.covers(px, py)),
{
    let all = before.push(rect);
    if covered(before, px, py) {
        let i = choose|i: int| 0 <= i < before.len() && (#[trigger] before[i]).covers(px, py);
        assert(all[i].covers(px, py));
    }
    if rect.covers(px, py) {
        assert(all[before.len() as int].covers(px, py));
    }
    if covered(all, px, py) {
        let i = choose|i: int| 0 <= i < all.len() && (#[trigger] all[i]).covers(px, py);
        if i < before.len() {
            assert(before[i].covers(px, py));
        }
    }
}

impl FrameBuffer {
    /// Takes in the changed rectangles of a frame of the cached dimensions. `src`
    /// is the producer's whole frame, of which only the rectangles are read. The
    /// update is accepted exactly when `src` holds at least the bytes of one frame;
    /// the cache then holds the rectangles' union laid over the frame before.
    /// Parts of a rectangle that lie outside the frame are ignored.
    pub fn store_dirty(&mut self, src: &[u8], rects: &[DirtyRect]) -> (stored: bool)
        requires
            old(self).wf(),
        ensures
            stored == (src@.len() >= frame_len(old(self).width, old(self).height)),
            final(self).wf(),
            final(self).width == old(self).width,
            final(self).height == old(self).height,
            stored ==> final(self).pixels@ == composite(
                old(self).pixels@,
                src@,
                rects@,
                old(self).width as int,
            ),
            !stored ==> final(self).pixels@ == old(self).pixels@,
    {
        proof {
            lemma_frame_len_bound(self.width, self.height);
        }
        if src.len() < self.pixels.len() {
            return false;
        }
        let width = self.width;
        let height = self.height;
        let ghost prev = self.pixels@;
        let mut r: usize = 0;
        assert(self.pixels@ =~= composite(prev, src@, rects@.take(0), width as int));
        while r < rects.len()
            invariant
                r <= rects@.len(),
                self.width == width,
                self.height == height,
                self.wf(),
                prev.len() == frame_len(width, height),
                src@.len() >= prev.len(),
                self.pixels@ == composite(prev, src@, rects@.take(r as int), width as int),
            decreases rects@.len() - r,
        {
            let rect = rects[r];
            let ghost before = rects@.take(r as int);
            let x0: u32 = if rect.x < width { rect.x } else { width };
            let y0: u32 = if rect.y < height { rect.y } else { height };
            let x1: u32 = if rect.w < width - x0 { x0 + rect.w } else { width };
            let y1: u32 = if rect.h < height - y0 { y0 + rect.h } else { height };
            let mut y: u32 = y0;
            assert(self.pixels@ =~= painting(
                prev,
                src@,
                before,
                rect,
                x0 as int,
                y as int,
                width as int,
            )) by {
                assert forall|k: int| 0 <= k < prev.len() implies !(rect.covers(
                    pixel_x(k, width as int),
                    pixel_y(k, width as int),
                ) && pixel_y(k, width as int) < y0) by {}
            }
            while y < y1
                invariant
                    y0 <= y <= y1 <= height,
                    x0 <= x1 <= width,
                    x0 == (if rect.x < width { rect.x } else { width }),
                    y0 == (if rect.y < height { rect.y } else { height }),
                    x1 == (if rect.w < width - x0 { (x0 + rect.w) as u32 } else { width }),
                    y1 == (if rect.h < height - y0 { (y0 + rect.h) as u32 } else { height }),
                    self.width == width,
                    self.height == height,
                    self.wf(),
                    prev.len() == frame_len(width, height),
                    src@.len() >= prev.len(),
                    self.pixels@ == painting(
                        prev,
                        src@,
                        before,
                        rect,
                        x0 as int,
                        y as int,
                        width as int,
                    ),
                decreases y1 - y,
            {
                let mut x: u32 = x0;
                while x < x1
                    invariant
                        y0 <= y < y1 <= height,
                        x0 <= x <= x1 <= width,
                        x0 == (if rect.x < width { rect.x } else { width }),
                        y0 == (if rect.y < height { rect.y } else { height }),
                        x1 == (if rect.w < width - x0 { (x0 + rect.w) as u32 } else { width }),
                        y1 == (if rect.h < height - y0 { (y0 + rect.h) as u32 } else { height }),
                        self.width == width,
                        self.height == height,
                        self.wf(),
                        prev.len() == frame_len(width, height),
                        src@.len() >= prev.len(),
                        self.pixels@ == painting(
                            prev,
                            src@,
                            before,
                            rect,
                            x as int,
                            y as int,
                            width as int,
                        ),
                    decreases x1 - x,
                {
                    proof {
                        lemma_byte_at(width as int, height as int, x as int, y as int, 0);
                        lemma_byte_at(width as int, height as int, x as int, y as int, 3);
                        lemma_frame_len_bound(width, height);
                        assert(0 <= y as int * width as int) by (nonlinear_arith)
                            requires
                                0 <= y as int,
                                0 <= width as int,
                        ;
                    }
                    let at: usize = ((y as u64 * width as u64 + x as u64) * 4) as usize;
                    let ghost start = self.pixels@;
                    self.pixels[at] = src[at];
                    self.pixels[at + 1] = src[at + 1];
                    self.pixels[at + 2] = src[at + 2];
                    self.pixels[at + 3] = src[at + 3];
                    proof {
                        let w = width as int;
                        let after = painting(prev, src@, before, rect, x + 1, y as int, w);
                        assert(self.pixels@.len() == after.len());
                        assert forall|k: int| 0 <= k < after.len() implies self.pixels@[k]
                            == after[k] by {
                            lemma_pixel_of_byte(k, w, height as int);
                            let px = pixel_x(k, w);
                            let py = pixel_y(k, w);
                            if at <= k < at + 4 {
                                assert(k / 4 == y * w + x);
                                assert(px == x && py == y);
                                assert(rect.covers(px, py));
                            } else {
                                assert(self.pixels@[k] == start[k]);
                                assert(k / 4 != y * w + x);
                                assert(!(px == x && py == y));
                            }
                        }
                        assert(self.pixels@ =~= after);
                    }
                    x = x + 1;
                }
                proof {
                    let w = width as int;
                    let after = painting(prev, src@, before, rect, x0 as int, y + 1, w);
                    assert forall|k: int| 0 <= k < after.len() implies self.pixels@[k]
                        == after[k] by {
                        lemma_pixel_of_byte(k, w, height as int);
                    }
                    assert(self.pixels@ =~= after);
                }
                y = y + 1;
            }
            proof {
                let w = width as int;
                let done = rects@.take(r + 1);
                assert(done =~= before.push(rect));
                let after = composite(prev, src@, done, w);
                assert forall|k: int| 0 <= k < after.len() implies self.pixels@[k] == after[k] by {
                    lemma_pixel_of_byte(k, w, height as int);
                    lemma_covered_push(before, rect, pixel_x(k, w), pixel_y(k, w));
                }
                assert(self.pixels@ =~= after);
            }
            r = r + 1;
        }
        assert(rects@.take(r as int) =~= rects@);
        true
    }
}

/// A full-frame rectangle is a full copy: laying one rectangle that spans the
/// whole frame over any frame before gives the new frame's bytes.
pub proof fn lemma_full_rect_is_full_copy(prev: Seq<u8>, src: Seq<u8>, width: u32, height: u32)
    requires
        0 < width,
        prev.len() == frame_len(width, height),
        src.len() == frame_len(width, height),
    ensures
        composite(prev, src, seq![DirtyRect { x: 0, y: 0, w: width, h: height }], width as int)
            == src,
{
    let rects = seq![DirtyRect { x: 0, y: 0, w: width, h: height }];
    let all = composite(prev, src, rects, width as int);
    assert forall|k: int| 0 <= k < src.len() implies all[k] == src[k] by {
        lemma_pixel_of_byte(k, width as int, height as int);
        assert(rects[0].covers(pixel_x(k, width as int), pixel_y(k, width as int)));
    }
    assert(all =~= src);
}

/// The buffer `dst` after `rows` rows of `row_len` bytes each, packed tightly
/// in `src`, were written into it: row `r` starts at byte `offset + r * pitch`.
pub open spec fn rows_copied(
    dst: Seq<u8>,
    src: Seq<u8>,
    offset: int,
    pitch: int,
    row_len: int,
    rows: int,
) -> Seq<u8> {
    Seq::new(
        dst.len(),
        |k: int|
            if k >= offset && (k - offset) / pitch < rows && (k - offset) % pitch < row_len {
                src[(k - offset) / pitch * row_len + (k - offset) % pitch]
            } else {
                dst[k]
            },
    )
}

/// Number of bytes that a buffer needs to take `rows` rows at the given offset and pitch.
pub open spec fn rows_end(offset: int, pitch: int, row_len: int, rows: int) -> int {
    if rows == 0 {
        0
    } else {
        offset + (rows - 1) * pitch + row_len
    }
}

/// Whether rows can be copied: a row fits into the pitch, the source holds all
/// rows, and the buffer reaches to the end of the last row.
pub open spec fn rows_fit(
    dst_len: int,
    src_len: int,
    offset: int,
    pitch: int,
    row_len: int,
    rows: int,
) -> bool {
    &&& 0 < pitch
    &&& row_len <= pitch
    &&& rows * row_len <= src_len
    &&& rows_end(offset, pitch, row_len, rows) <= dst_len
}

/// The buffer while row `y` is being written: the rows above it are done, and
/// of row `y` the first `b` bytes.
spec fn rows_copying(
    dst: Seq<u8>,
    src: Seq<u8>,
    offset: int,
    pitch: int,
    row_len: int,
    y: int,
    b: int,
) -> Seq<u8> {
    Seq::new(
        dst.len(),
        |k: int|
            if k >= offset && (k - offset) % pitch < row_len && ((k - offset) / pitch < y || ((k
                - offset) / pitch == y && (k - offset) % pitch < b)) {
                src[(k - offset) / pitch * row_len + (k - offset) % pitch]
            } else {
                dst[k]
            },
    )
}

/// A byte of a row lies in that row, at its place.
pub proof fn lemma_row_byte(y: int, b: int, pitch: int)
    requires
        0 <= y,
        0 <= b < pitch,
    ensures
        (y * pitch + b) / pitch == y,
        (y * pitch + b) % pitch == b,
        0 <= y * pitch,
{
    assert((y * pitch + b) / pitch == y && (y * pitch + b) % pitch == b && 0 <= y * pitch)
        by (nonlinear_arith)
        requires
            0 <= y,
            0 <= b < pitch,
    ;
}

/// Every byte lies in one row, at one place.
pub proof fn lemma_byte_of_row(k: int, pitch: int)
    requires
        0 <= k,
        0 < pitch,
    ensures
        k == (k / pitch) * pitch + k % pitch,
        0 <= k % pitch < pitch,
        0 <= k / pitch,
{
    assert(k == (k / pitch) * pitch + k % pitch && 0 <= k % pitch < pitch && 0 <= k / pitch)
        by (nonlinear_arith)
        requires
            0 <= k,
            0 < pitch,
    ;
}

/// Copies `rows` rows of `row_len` bytes each, packed tightly in `src`, into
/// `dst`, where row `r` starts at byte `offset + r * pitch`. The bytes of `dst`
/// between the rows are left alone. Nothing is written unless the rows fit.
pub fn copy_rows(
    dst: &mut Vec<u8>,
    offset: usize,
    pitch: usize,
    src: &[u8],
    row_len: usize,
    rows: usize,
) -> (done: bool)
    ensures
        done == rows_fit(
            old(dst)@.len() as int,
            src@.len() as int,
            offset as int,
            pitch as int,
            row_len as int,
            rows as int,
        ),
        done ==> final(dst)@ == rows_copied(
            old(dst)@,
            src@,
            offset as int,
            pitch as int,
            row_len as int,
            rows as int,
        ),
        !done ==> final(dst)@ == old(dst)@,
{
    if pitch == 0 || pitch < row_len {
        return false;
    }
    let src_len: usize = src.len();
    let dst_len: usize = dst.len();
    let ghost before = dst@;
    let ghost o = offset as int;
    let ghost p = pitch as int;
    let ghost w = row_len as int;
    if rows == 0 {
        proof {
            let after = rows_copied(before, src@, o, p, w, 0);
            assert forall|k: int| 0 <= k < after.len() implies dst@[k] == after[k] by {
                if k >= o {
                    lemma_byte_of_row(k - o, p);
                }
            }
            assert(dst@ =~= after);
            assert(0 * w == 0);
        }
        return true;
    }
    let src_needed = match rows.checked_mul(row_len) {
        Some(total) => total,
        None => {
            return false;
        },
    };
    if src_len < src_needed {
        return false;
    }
    let last_row = match (rows - 1).checked_mul(pitch) {
        Some(total) => total,
        None => {
            proof {
                assert((rows - 1) * p >= 0) by (nonlinear_arith)
                    requires
                        rows - 1 >= 0,
                        p >= 0,
                ;
            }
            return false;
        },
    };
    let dst_needed = match last_row.checked_add(offset) {
        Some(sum) => match sum.checked_add(row_len) {
            Some(end) => end,
            None => {
                return false;
            },
        },
        None => {
            return false;
        },
    };
    if dst_len < dst_needed {
        return false;
    }
    let mut y: usize = 0;
    proof {
        let after = rows_copying(before, src@, o, p, w, 0, 0);
        assert forall|k: int| 0 <= k < after.len() implies dst@[k] == after[k] by {
            if k >= o {
                lemma_byte_of_row(k - o, p);
            }
        }
        assert(dst@ =~= after);
    }
    while y < rows
        invariant
            y <= rows,
            o == offset,
            p == pitch,
            w == row_len,
            0 < pitch,
            row_len <= pitch,
            rows * w <= src@.len() <= usize::MAX,
            dst@.len() == before.len(),
            before.len() <= usize::MAX,
            o + (rows - 1) * p + w <= before.len(),
            dst@ == rows_copying(before, src@, o, p, w, y as int, 0),
        decreases rows - y,
    {
        let mut b: usize = 0;
        proof {
            lemma_row_byte(y as int, 0, p);
            let yi = y as int;
            let h = rows as int;
            assert(yi * p <= (h - 1) * p && 0 <= yi * p) by (nonlinear_arith)
                requires
                    0 <= yi <= h - 1,
                    0 <= p,
            ;
            assert(yi * w + w <= h * w && 0 <= yi * w) by (nonlinear_arith)
                requires
                    0 <= yi < h,
                    0 <= w,
            ;
            assert(y * pitch == yi * p);
            assert(y * row_len == yi * w);
        }
        let dst_row: usize = offset + y * pitch;
        let src_row: usize = y * row_len;
        while b < row_len
            invariant
                y < rows,
                b <= row_len,
                o == offset,
                p == pitch,
                w == row_len,
                0 < pitch,
                row_len <= pitch,
                dst_row == o + y * p,
                src_row == y * w,
                dst_row + row_len <= dst@.len() <= usize::MAX,
                src_row + row_len <= src@.len() <= usize::MAX,
                dst@.len() == before.len(),
                dst@ == rows_copying(before, src@, o, p, w, y as int, b as int),
            decreases row_len - b,
        {
            let ghost start = dst@;
            dst[dst_row + b] = src[src_row + b];
            proof {
                let after = rows_copying(before, src@, o, p, w, y as int, b + 1);
                lemma_row_byte(y as int, b as int, p);
                assert forall|k: int| 0 <= k < after.len() implies dst@[k] == after[k] by {
                    if k >= o {
                        lemma_byte_of_row(k - o, p);
                    }
                    if k == dst_row + b {
                        assert(k - o == y * p + b);
                    } else {
                        assert(dst@[k] == start[k]);
                        assert(!(k >= o && (k - o) / p == y && (k - o) % p == b));
                    }
                }
                assert(dst@ =~= after);
            }
            b = b + 1;
        }
        proof {
            let after = rows_copying(before, src@, o, p, w, y + 1, 0);
            assert forall|k: int| 0 <= k < after.len() implies dst@[k] == after[k] by {
                if k >= o {
                    lemma_byte_of_row(k - o, p);
                }
            }
            assert(dst@ =~= after);
        }
        y = y + 1;
    }
    proof {
        let after = rows_copied(before, src@, o, p, w, rows as int);
        assert forall|k: int| 0 <= k < after.len() implies dst@[k] == after[k] by {
            if k >= o {
                lemma_byte_of_row(k - o, p);
            }
        }
        assert(dst@ =~= after);
    }
    true
}

impl FrameBuffer {
    /// Writes the cached frame into the memory of an upload texture whose rows
    /// are `pitch` bytes apart. The pitch may exceed the frame's row length; the
    /// bytes between two rows are left alone. Nothing is written unless the pitch
    /// holds a row and the memory holds the frame.
    pub fn upload_rows(&self, dst: &mut Vec<u8>, pitch: usize) -> (done: bool)
        requires
            self.wf(),
        ensures
            done == rows_fit(
                old(dst)@.len() as int,
                self.pixels@.len() as int,
                0,
                pitch as int,
                self.width * 4,
                self.height as int,
            ),
            done ==> final(dst)@ == rows_copied(
                old(dst)@,
                self.pixels@,
                0,
                pitch as int,
                self.width * 4,
                self.height as int,
            ),
            !done ==> final(dst)@ == old(dst)@,
    {
        copy_rows(
            dst,
            0,
            pitch,
            self.pixels.as_slice(),
            self.width as usize * 4,
            self.height as usize,
        )
    }
}

/// Number of the first `n` pixels of a buffer whose channel `c` is above zero.
pub open spec fn lit_pixels(pixels: Seq<u8>, c: int, n: int) -> nat
    decreases n,
{
    if n <= 0 {
        0
    } else {
        lit_pixels(pixels, c, n - 1) + if pixels[4 * (n - 1) + c] > 0 {
            1nat
        } else {
            0nat
        }
    }
}

/// How many pixels of a buffer have a red, green, blue and alpha value above zero.
#[derive(Clone, Copy, Debug, PartialEq, Eq, Structural)]
pub struct ChannelCounts {
    pub r: usize,
    pub g: usize,
    pub b: usize,
    pub a: usize,
}

proof fn lemma_lit_pixels_bound(pixels: Seq<u8>, c: int, n: int)
    requires
        0 <= n,
    ensures
        lit_pixels(pixels, c, n) <= n,
    decreases n,
{
    if n > 0 {
        lemma_lit_pixels_bound(pixels, c, n - 1);
    }
}

/// Counts, for each channel, the whole pixels of a buffer in which it is above
/// zero. Bytes after the last whole pixel are not looked at.
pub fn count_channels(pixels: &[u8]) -> (counts: ChannelCounts)
    ensures
        counts.r == lit_pixels(pixels@, 0, pixels@.len() as int / 4),
        counts.g == lit_pixels(pixels@, 1, pixels@.len() as int / 4),
        counts.b == lit_pixels(pixels@, 2, pixels@.len() as int / 4),
        counts.a == lit_pixels(pixels@, 3, pixels@.len() as int / 4),
{
    let n: usize = pixels.len() / 4;
    let mut counts = ChannelCounts { r: 0, g: 0, b: 0, a: 0 };
    let mut i: usize = 0;
    while i < n
        invariant
            i <= n,
            n == pixels@.len() as int / 4,
            pixels@.len() <= usize::MAX,
            counts.r == lit_pixels(pixels@, 0, i as int),
            counts.g == lit_pixels(pixels@, 1, i as int),
            counts.b == lit_pixels(pixels@, 2, i as int),
            counts.a == lit_pixels(pixels@, 3, i as int),
        decreases n - i,
    {
        proof {
            lemma_lit_pixels_bound(pixels@, 0, i as int);
            lemma_lit_pixels_bound(pixels@, 1, i as int);
            lemma_lit_pixels_bound(pixels@, 2, i as int);
            lemma_lit_pixels_bound(pixels@, 3, i as int);
        }
        if pixels[4 * i] > 0 {
            counts.r = counts.r + 1;
        }
        if pixels[4 * i + 1] > 0 {
            counts.g = counts.g + 1;
        }
        if pixels[4 * i + 2] > 0 {
            counts.b = counts.b + 1;
        }
        if pixels[4 * i + 3] > 0 {
            counts.a = counts.a + 1;
        }
        i = i + 1;
    }
    counts
}

} // verus!
