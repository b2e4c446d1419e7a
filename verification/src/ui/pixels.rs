//! The polling discipline of the pixel-copy transport.
//!
//! Header layout, little-endian: width at offset 0 (u32), height at 4 (u32),
//! the "frame ready" flag at 8 (u32), the "frame consumed" flag at 12 (u32);
//! 16 bytes in all. The body holds the frame, tightly packed RGBA.
//!
//! The producer sets "frame ready" when the body holds a whole frame and leaves
//! the body alone until it sees "frame consumed". The consumer copies the frame
//! into its cache and only then clears "frame ready" and sets "frame consumed".

use vstd::prelude::*;
use super::frame::{DirtyRect, FrameBuffer, composite, frame_len, lemma_frame_len_bound};
use super::mmf::{le_u32, lemma_u32_le_round_trip, read_u32_le, u32_le_bytes, write_u32_le};
use super::{MAX_DIMENSION, dimensions_valid};

verus! {

/// Size in bytes of the header of the pixel-copy transport.
pub const PIXEL_HEADER_SIZE: usize = 16;

/// The fields of the header of the pixel-copy transport.
#[derive(Clone, Copy, Debug, PartialEq, Eq, Structural)]
pub struct PixelHeader {
    pub width: u32,
    pub height: u32,
    /// Not zero while the body holds a frame that was not consumed yet.
    pub ready: u32,
    /// Not zero once the consumer has copied the frame.
    pub consumed: u32,
}

/// The fields found at their fixed offsets.
pub open spec fn raw_pixel_header(bytes: Seq<u8>) -> PixelHeader {
    PixelHeader {
        width: le_u32(bytes, 0) as u32,
        height: le_u32(bytes, 4) as u32,
        ready: le_u32(bytes, 8) as u32,
        consumed: le_u32(bytes, 12) as u32,
    }
}

/// Whether a frame waits to be copied: the header is complete, says "ready"
/// and announces valid dimensions, and the body holds a frame of that size.
pub open spec fn frame_waiting(header: Seq<u8>, body_len: nat) -> bool {
    let raw = raw_pixel_header(header);
    &&& header.len() >= PIXEL_HEADER_SIZE
    &&& raw.ready != 0
    &&& dimensions_valid(raw.width, raw.height)
    &&& body_len >= frame_len(raw.width, raw.height)
}

/// The header after the consumer has acknowledged the frame: "frame ready" is
/// cleared, "frame consumed" is set, everything else is as it was.
pub open spec fn acknowledged(header: Seq<u8>) -> Seq<u8> {
    header.take(8) + u32_le_bytes(0) + u32_le_bytes(1) + header.skip(16)
}

/// What an iteration of the polling discipline did.
#[derive(Clone, Copy, Debug, PartialEq, Eq, Structural)]
pub enum Polled {
    /// No frame was waiting; nothing was touched.
    NotReady,
    /// The frame was copied and acknowledged. `resized` tells that its
    /// dimensions differ from those cached before.
    Copied { resized: bool },
}

/// The cached pixels after a waiting frame was copied. A frame of new
/// dimensions, or one without a list of dirty rectangles, is copied whole;
/// else only the dirty rectangles are laid over the pixels cached before.
pub open spec fn pixels_after(
    cached: FrameBuffer,
    header: Seq<u8>,
    body: Seq<u8>,
    rects: Option<Seq<DirtyRect>>,
) -> Seq<u8> {
    let raw = raw_pixel_header(header);
    if raw.width != cached.width || raw.height != cached.height || rects is None {
        body.take(frame_len(raw.width, raw.height))
    } else {
        composite(cached.pixels@, body, rects->Some_0, raw.width as int)
    }
}

/// One iteration of the polling discipline, on the header and the body as they
/// are mapped. If a frame is waiting it is copied into the cache, whole or by
/// its dirty rectangles, and the header is acknowledged after the copy; if
/// none is waiting, neither the cache nor the header is touched.
pub fn poll_frame(
    cache: &mut FrameBuffer,
    header: &mut Vec<u8>,
    body: &[u8],
    rects: Option<&[DirtyRect]>,
) -> (polled: Polled)
    requires
        old(cache).wf(),
    ensures
        final(cache).wf(),
        !frame_waiting(old(header)@, body@.len()) ==> polled is NotReady && *final(cache) == *old(
            cache,
        ) && final(header)@ == old(header)@,
        frame_waiting(old(header)@, body@.len()) ==> {
            let raw = raw_pixel_header(old(header)@);
            &&& polled == (Polled::Copied {
                resized: raw.width != old(cache).width || raw.height != old(cache).height,
            })
            &&& final(cache).width == raw.width
            &&& final(cache).height == raw.height
            &&& final(cache).pixels@ == pixels_after(
                *old(cache),
                old(header)@,
                body@,
                match rects {
                    Some(list) => Some(list@),
                    None => None,
                },
            )
            &&& final(header)@ == acknowledged(old(header)@)
        },
{
    if header.len() < PIXEL_HEADER_SIZE {
        return Polled::NotReady;
    }
    let width = read_u32_le(header.as_slice(), 0);
    let height = read_u32_le(header.as_slice(), 4);
    let ready = read_u32_le(header.as_slice(), 8);
    if ready == 0 || width == 0 || height == 0 || width > MAX_DIMENSION || height > MAX_DIMENSION {
        return Polled::NotReady;
    }
    proof {
        lemma_frame_len_bound(width, height);
    }
    let len: usize = (width as u64 * height as u64 * 4) as usize;
    if body.len() < len {
        return Polled::NotReady;
    }
    let resized = width != cache.width || height != cache.height;
    match rects {
        Some(list) if !resized => {
            let stored = cache.store_dirty(body, list);
            assert(stored);
        },
        _ => {
            let stored = cache.store_full(width, height, body);
            assert(stored);
        },
    }
    // The frame is in the cache: only now the producer may write the next one.
    let clear = write_u32_le(0);
    let set = write_u32_le(1);
    let mut i: usize = 0;
    while i < 4
        invariant
            i <= 4,
            header@.len() == old(header)@.len(),
            header@.len() >= PIXEL_HEADER_SIZE,
            clear@ == u32_le_bytes(0),
            set@ == u32_le_bytes(1),
            forall|k: int| 0 <= k < i ==> header@[8 + k] == clear@[k] && header@[12 + k] == set@[k],
            forall|k: int|
                0 <= k < header@.len() && !(8 <= k < 8 + i) && !(12 <= k < 12 + i) ==> header@[k]
                    == old(header)@[k],
        decreases 4 - i,
    {
        header.set(8 + i, clear[i]);
        header.set(12 + i, set[i]);
        i = i + 1;
    }
    assert(header@ =~= acknowledged(old(header)@));
    Polled::Copied { resized }
}

/// A frame is consumed once: after the acknowledgement no frame is waiting,
/// until the producer says "ready" again. The announced dimensions stay.
pub proof fn lemma_acknowledged_frame_is_consumed(header: Seq<u8>, body_len: nat)
    requires
        header.len() >= PIXEL_HEADER_SIZE,
    ensures
        !frame_waiting(acknowledged(header), body_len),
        raw_pixel_header(acknowledged(header)) == (PixelHeader {
            ready: 0,
            consumed: 1,
            ..raw_pixel_header(header)
        }),
{
    let after = acknowledged(header);
    lemma_u32_le_round_trip(0);
    lemma_u32_le_round_trip(1);
    assert(forall|k: int| 0 <= k < 8 ==> after[k] == header[k]);
    assert(forall|k: int| 8 <= k < 12 ==> after[k] == u32_le_bytes(0)[k - 8]);
    assert(forall|k: int| 12 <= k < 16 ==> after[k] == u32_le_bytes(1)[k - 12]);
}

} // verus!
