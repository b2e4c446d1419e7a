//! Frame transport and compositing.

use vstd::prelude::*;

pub mod blend;
pub mod frame;
pub mod mmf;
pub mod pixels;
pub mod rendering;

verus! {

/// Name of the mapping that holds the shared header record.
pub const HEADER_NAME: &'static str = "BlishHUD_Header";

/// Name of the signal with which the producer wakes the transport.
pub const WAKE_EVENT_NAME: &'static str = "Global\\BlishHUD_WakeEvent";

/// Name of the signal with which the consumer announces new dimensions.
pub const RESIZE_EVENT_NAME: &'static str = "Global\\BlishHUD_ResizeEvent";

/// Name of the object that the producer holds for as long as it lives.
pub const LIVENESS_MUTEX_NAME: &'static str = "Global\\blish_isalive_mutex";

/// Size in bytes of the shared header record.
pub const HEADER_SIZE: usize = 28;

/// Largest width or height, in pixels, that a header may announce.
pub const MAX_DIMENSION: u32 = 10000;

/// Whether a pair of dimensions describes a frame that may be acted upon.
pub open spec fn dimensions_valid(width: u32, height: u32) -> bool {
    0 < width <= MAX_DIMENSION && 0 < height <= MAX_DIMENSION
}

/// Tests a pair of dimensions against the accepted range.
pub fn check_dimensions(width: u32, height: u32) -> (ok: bool)
    ensures
        ok == dimensions_valid(width, height),
{
    width != 0 && height != 0 && width <= MAX_DIMENSION && height <= MAX_DIMENSION
}

} // verus!
