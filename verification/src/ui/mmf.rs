//! The shared header record and the consumer side of the frame transport.
//!
//! Header layout, little-endian: width at offset 0 (u32), height at 4 (u32),
//! active buffer index at 8 (u32), first resource handle at 12 (u64), second
//! resource handle at 20 (u64); 28 bytes in all.

use vstd::prelude::*;
use super::rendering::{CompositeEngine, OverlayState};
use super::{HEADER_SIZE, MAX_DIMENSION, dimensions_valid};

verus! {

/// The unsigned 32-bit value stored little-endian in four bytes of `bytes`, starting at `at`.
pub open spec fn le_u32(bytes: Seq<u8>, at: int) -> int {
    bytes[at] as int + 0x100 * (bytes[at + 1] as int) + 0x1_0000 * (bytes[at + 2] as int)
        + 0x100_0000 * (bytes[at + 3] as int)
}

/// The unsigned 64-bit value stored little-endian in eight bytes of `bytes`, starting at `at`.
pub open spec fn le_u64(bytes: Seq<u8>, at: int) -> int {
    le_u32(bytes, at) + 0x1_0000_0000 * le_u32(bytes, at + 4)
}

/// The four bytes that store `value` little-endian.
pub open spec fn u32_le_bytes(value: u32) -> Seq<u8> {
    seq![
        (value as int % 0x100) as u8,
        (value as int / 0x100 % 0x100) as u8,
        (value as int / 0x1_0000 % 0x100) as u8,
        (value as int / 0x100_0000) as u8,
    ]
}

/// Reads a little-endian u32 at a fixed offset.
pub fn read_u32_le(bytes: &[u8], at: usize) -> (value: u32)
    requires
        at + 4 <= bytes.len(),
    ensures
        value as int == le_u32(bytes@, at as int),
{
    let b0: u32 = bytes[at] as u32;
    let b1: u32 = bytes[at + 1] as u32;
    let b2: u32 = bytes[at + 2] as u32;
    let b3: u32 = bytes[at + 3] as u32;
    b0 + 0x100 * b1 + 0x1_0000 * b2 + 0x100_0000 * b3
}

/// Reads a little-endian u64 at a fixed offset.
pub fn read_u64_le(bytes: &[u8], at: usize) -> (value: u64)
    requires
        at + 8 <= bytes.len(),
    ensures
        value as int == le_u64(bytes@, at as int),
{
    let low: u64 = read_u32_le(bytes, at) as u64;
    let high: u64 = read_u32_le(bytes, at + 4) as u64;
    low + 0x1_0000_0000 * high
}

/// Decoding the bytes of an encoded value gives the value back.
pub proof fn lemma_u32_le_round_trip(value: u32)
    ensures
        u32_le_bytes(value).len() == 4,
        le_u32(u32_le_bytes(value), 0) == value as int,
{
    let v = value as int;
    assert(v / 0x100_0000 < 0x100);
    assert(v == v % 0x100 + 0x100 * (v / 0x100 % 0x100) + 0x1_0000 * (v / 0x1_0000 % 0x100)
        + 0x100_0000 * (v / 0x100_0000));
}

/// The eight bytes that announce a width and a height at the start of the header.
pub open spec fn dimension_bytes(width: u32, height: u32) -> Seq<u8> {
    u32_le_bytes(width) + u32_le_bytes(height)
}

/// The fields of the shared header record.
#[derive(Clone, Copy, Debug, PartialEq, Eq, Structural)]
pub struct FrameHeader {
    pub width: u32,
    pub height: u32,
    pub index: u32,
    pub addr1: u64,
    pub addr2: u64,
}

/// Why a header record was rejected.
#[derive(Clone, Copy, Debug, PartialEq, Eq, Structural)]
pub enum HeaderError {
    /// Fewer than `HEADER_SIZE` bytes were handed in.
    Truncated,
    /// The width or the height is zero: nothing has been published yet.
    ZeroDimension,
    /// The width or the height exceeds `MAX_DIMENSION`.
    OversizedDimension,
    /// The active buffer index names neither of the two buffers.
    BadIndex,
}

/// The fields found at their fixed offsets, without any validation.
pub open spec fn raw_header(bytes: Seq<u8>) -> FrameHeader {
    FrameHeader {
        width: le_u32(bytes, 0) as u32,
        height: le_u32(bytes, 4) as u32,
        index: le_u32(bytes, 8) as u32,
        addr1: le_u64(bytes, 12) as u64,
        addr2: le_u64(bytes, 20) as u64,
    }
}

/// What `FrameHeader::parse` returns for a byte string.
pub open spec fn parse_header(bytes: Seq<u8>) -> Result<FrameHeader, HeaderError> {
    let raw = raw_header(bytes);
    if bytes.len() < HEADER_SIZE {
        Err(HeaderError::Truncated)
    } else if raw.width == 0 || raw.height == 0 {
        Err(HeaderError::ZeroDimension)
    } else if raw.width > MAX_DIMENSION || raw.height > MAX_DIMENSION {
        Err(HeaderError::OversizedDimension)
    } else if raw.index >= 2 {
        Err(HeaderError::BadIndex)
    } else {
        Ok(raw)
    }
}

impl FrameHeader {
    /// Reads and validates a header record. The record is accepted exactly when it is
    /// complete, both dimensions lie in `1..=MAX_DIMENSION` and the index is 0 or 1.
    pub fn parse(bytes: &[u8]) -> (parsed: Result<FrameHeader, HeaderError>)
        ensures
            parsed == parse_header(bytes@),
            parsed is Ok ==> dimensions_valid(parsed->Ok_0.width, parsed->Ok_0.height),
    {
        if bytes.len() < HEADER_SIZE {
            return Err(HeaderError::Truncated);
        }
        let width = read_u32_le(bytes, 0);
        let height = read_u32_le(bytes, 4);
        let index = read_u32_le(bytes, 8);
        let addr1 = read_u64_le(bytes, 12);
        let addr2 = read_u64_le(bytes, 20);
        if width == 0 || height == 0 {
            Err(HeaderError::ZeroDimension)
        } else if width > MAX_DIMENSION || height > MAX_DIMENSION {
            Err(HeaderError::OversizedDimension)
        } else if index >= 2 {
            Err(HeaderError::BadIndex)
        } else {
            Ok(FrameHeader { width, height, index, addr1, addr2 })
        }
    }
}

/// Encodes a value as four little-endian bytes.
pub fn write_u32_le(value: u32) -> (bytes: [u8; 4])
    ensures
        bytes@ == u32_le_bytes(value),
{
    let bytes = [
        (value % 0x100) as u8,
        (value / 0x100 % 0x100) as u8,
        (value / 0x1_0000 % 0x100) as u8,
        (value / 0x100_0000) as u8,
    ];
    assert(bytes@ =~= u32_le_bytes(value));
    bytes
}

/// Writes new dimensions into the first eight bytes of a header image, as the
/// consumer does to ask the producer for another frame size. A header image that
/// is too short to hold them is left alone.
/// Returns whether the dimensions were written, that is, whether the resize
/// signal has to be raised.
pub fn set_mmf_dimensions(header: &mut Vec<u8>, w: u32, h: u32) -> (written: bool)
    ensures
        written == (old(header)@.len() >= 8),
        written ==> final(header)@ == dimension_bytes(w, h) + old(header)@.skip(8),
        !written ==> final(header)@ == old(header)@,
{
    if header.len() < 8 {
        return false;
    }
    let wb = write_u32_le(w);
    let hb = write_u32_le(h);
    let mut i: usize = 0;
    while i < 4
        invariant
            i <= 4,
            header@.len() == old(header)@.len(),
            header@.len() >= 8,
            wb@ == u32_le_bytes(w),
            hb@ == u32_le_bytes(h),
            forall|k: int| 0 <= k < i ==> header@[k] == wb@[k] && header@[k + 4] == hb@[k],
            forall|k: int|
                0 <= k < header@.len() && !(k < i) && !(4 <= k < 4 + i) ==> header@[k] == old(
                    header,
                )@[k],
        decreases 4 - i,
    {
        header.set(i, wb[i]);
        header.set(i + 4, hb[i]);
        i = i + 1;
    }
    assert(header@ =~= dimension_bytes(w, h) + old(header)@.skip(8));
    true
}

/// A header image that received new dimensions reads back with exactly those
/// dimensions, and with its index and handles untouched.
pub proof fn lemma_dimensions_read_back(header: Seq<u8>, w: u32, h: u32)
    requires
        header.len() >= HEADER_SIZE,
    ensures
        raw_header(dimension_bytes(w, h) + header.skip(8)) == (FrameHeader {
            width: w,
            height: h,
            ..raw_header(header)
        }),
{
    let after = dimension_bytes(w, h) + header.skip(8);
    lemma_u32_le_round_trip(w);
    lemma_u32_le_round_trip(h);
    assert(forall|k: int| 0 <= k < 4 ==> after[k] == u32_le_bytes(w)[k]);
    assert(forall|k: int| 4 <= k < 8 ==> after[k] == u32_le_bytes(h)[k - 4]);
    assert(forall|k: int| 8 <= k < header.len() ==> after[k] == header[k]);
}

/// The width and height of a window's client area, given its rectangle. A
/// rectangle whose right or bottom edge lies before its left or top edge has
/// no extent in that direction.
pub open spec fn client_size(left: i32, top: i32, right: i32, bottom: i32) -> (u32, u32) {
    (
        if right > left {
            (right - left) as u32
        } else {
            0
        },
        if bottom > top {
            (bottom - top) as u32
        } else {
            0
        },
    )
}

/// Computes the dimensions to announce to the producer from the rectangle of
/// the host window's client area.
pub fn client_dimensions(left: i32, top: i32, right: i32, bottom: i32) -> (size: (u32, u32))
    ensures
        size == client_size(left, top, right, bottom),
{
    let width: u32 = if right > left {
        (right as i64 - left as i64) as u32
    } else {
        0
    };
    let height: u32 = if bottom > top {
        (bottom as i64 - top as i64) as u32
    } else {
        0
    };
    (width, height)
}

/// What a probe of the producer's liveness object came back with.
#[derive(Clone, Copy, Debug, PartialEq, Eq, Structural)]
pub enum MutexProbe {
    /// The named object exists and could be opened.
    Opened,
    /// Opening failed with this operating-system error code.
    Failed(u32),
}

/// Error code: the named object does not exist.
pub const ERROR_FILE_NOT_FOUND: u32 = 2;

/// Error code: the name is not a valid object name.
pub const ERROR_INVALID_NAME: u32 = 123;

/// The bits of a result code of the system, read as an unsigned number.
pub open spec fn result_bits(hresult: i32) -> int {
    hresult as int % 0x1_0000_0000
}

/// The error code that a result code of the system carries: its low 16 bits
/// where it is a failure that wraps an operating-system error, and else the
/// result code itself.
pub open spec fn system_code(hresult: i32) -> u32 {
    if result_bits(hresult) / 0x1_0000 == 0x8007 {
        (result_bits(hresult) % 0x1_0000) as u32
    } else {
        result_bits(hresult) as u32
    }
}

/// Makes a probe from the result code with which opening the liveness object failed.
pub fn probe_failed(hresult: i32) -> (probe: MutexProbe)
    ensures
        probe == MutexProbe::Failed(system_code(hresult)),
{
    let bits: u32 = if hresult >= 0 {
        hresult as u32
    } else {
        (hresult as i64 + 0x1_0000_0000) as u32
    };
    if bits / 0x1_0000 == 0x8007 {
        MutexProbe::Failed(bits % 0x1_0000)
    } else {
        MutexProbe::Failed(bits)
    }
}

/// Whether a probe shows the producer alive: it is dead exactly when the probe
/// failed with one of the two "not found" codes.
pub open spec fn probe_alive(probe: MutexProbe) -> bool {
    match probe {
        MutexProbe::Opened => true,
        MutexProbe::Failed(code) => code != ERROR_FILE_NOT_FOUND && code != ERROR_INVALID_NAME,
    }
}

/// Judges the producer's liveness from a probe of its named object. Any failure
/// other than "not found" counts as alive, so that a passing fault tears nothing down.
pub fn is_blish_alive(probe: MutexProbe) -> (alive: bool)
    ensures
        alive == probe_alive(probe),
{
    match probe {
        MutexProbe::Opened => true,
        MutexProbe::Failed(code) => code != ERROR_FILE_NOT_FOUND && code != ERROR_INVALID_NAME,
    }
}

/// The consumer's cached copy of what the transport last saw.
#[derive(Clone, Copy, Debug, PartialEq, Eq, Structural)]
pub struct MMFData {
    /// Whether the header mapping is open and mapped.
    pub mapped: bool,
    pub width: u32,
    pub height: u32,
    pub index: u32,
    pub addr1: u64,
    pub addr2: u64,
    pub is_blish_alive: bool,
}

/// What the transport does after waking up.
#[derive(Clone, Copy, Debug, PartialEq, Eq, Structural)]
pub enum WakeAction {
    /// The producer has just died: unmap everything and clear the cache.
    Cleanup,
    /// No header mapping is open: try to open it.
    OpenHeader,
    /// Read the header record and publish it.
    ReadHeader,
}

/// What follows from publishing a header record.
#[derive(Clone, Copy, Debug, PartialEq, Eq, Structural)]
pub struct Published {
    /// The resource handles differ from the last ones seen.
    pub update_textures: bool,
    /// The mapping was opened just now: the producer has to be told the window's size.
    pub send_dimensions: bool,
}

/// How the transport thread waits before its next iteration.
#[derive(Clone, Copy, Debug, PartialEq, Eq, Structural)]
pub enum Wait {
    /// Sleep, then create the wake signal again.
    Sleep { millis: u32 },
    /// Wait for the wake signal, at most this long.
    Signal { timeout_millis: u32 },
}

/// Pause before the wake signal is created again after a failure.
pub const SIGNAL_RETRY_MILLIS: u32 = 100;

/// Longest wait for the wake signal while the header is mapped.
pub const WAKE_TIMEOUT_MILLIS: u32 = 100;

/// Longest wait for the wake signal while no header mapping could be opened.
pub const OPEN_RETRY_MILLIS: u32 = 1000;

/// The cache after a header record was read while the producer's liveness was `alive`.
pub open spec fn published(before: MMFData, alive: bool, bytes: Seq<u8>) -> MMFData {
    match parse_header(bytes) {
        Ok(header) => MMFData {
            mapped: true,
            width: header.width,
            height: header.height,
            index: header.index,
            addr1: header.addr1,
            addr2: header.addr2,
            is_blish_alive: alive,
        },
        Err(_) => MMFData {
            mapped: true,
            width: 0,
            height: 0,
            index: 0,
            addr1: 0,
            addr2: 0,
            is_blish_alive: alive,
        },
    }
}

impl MMFData {
    /// The cache before anything was seen: nothing mapped, nothing published.
    pub open spec fn empty() -> MMFData {
        MMFData {
            mapped: false,
            width: 0,
            height: 0,
            index: 0,
            addr1: 0,
            addr2: 0,
            is_blish_alive: false,
        }
    }

    /// Whether a frame can be drawn from this cache: the producer is alive, the
    /// dimensions are in range, both handles are set and the index names one of them.
    pub open spec fn ready(&self) -> bool {
        &&& self.is_blish_alive
        &&& dimensions_valid(self.width, self.height)
        &&& self.addr1 != 0
        &&& self.addr2 != 0
        &&& self.index < 2
    }

    /// An empty cache.
    pub fn new() -> (data: MMFData)
        ensures
            data == MMFData::empty(),
    {
        MMFData {
            mapped: false,
            width: 0,
            height: 0,
            index: 0,
            addr1: 0,
            addr2: 0,
            is_blish_alive: false,
        }
    }

    /// Tells whether a frame can be drawn from this cache.
    pub fn is_ready(&self) -> (ready: bool)
        ensures
            ready == self.ready(),
    {
        self.is_blish_alive && self.width != 0 && self.height != 0 && self.width <= MAX_DIMENSION
            && self.height <= MAX_DIMENSION && self.addr1 != 0 && self.addr2 != 0 && self.index
            < 2
    }

    /// What an iteration of the transport does, given the liveness just probed.
    pub open spec fn wake(&self, alive: bool) -> WakeAction {
        if !alive && self.is_blish_alive {
            WakeAction::Cleanup
        } else if !self.mapped {
            WakeAction::OpenHeader
        } else {
            WakeAction::ReadHeader
        }
    }

    /// Decides what an iteration of the transport does, given the liveness just probed.
    pub fn on_wake(&self, alive: bool) -> (action: WakeAction)
        ensures
            action == self.wake(alive),
    {
        if !alive && self.is_blish_alive {
            WakeAction::Cleanup
        } else if !self.mapped {
            WakeAction::OpenHeader
        } else {
            WakeAction::ReadHeader
        }
    }

    /// Takes in the header record read from the mapping. `fresh` tells that the
    /// mapping was opened in this iteration. A record that `FrameHeader::parse`
    /// rejects publishes nothing: the cache then holds no dimensions and no
    /// handles, so that no frame is drawn from it.
    pub fn publish(&mut self, alive: bool, fresh: bool, bytes: &[u8]) -> (out: Published)
        ensures
            *final(self) == published(*old(self), alive, bytes@),
            out.send_dimensions == fresh,
            out.update_textures == (parse_header(bytes@) is Ok && (final(self).addr1 != old(
                self,
            ).addr1 || final(self).addr2 != old(self).addr2)),
            parse_header(bytes@) is Err ==> !final(self).ready(),
    {
        let mut update_textures = false;
        match FrameHeader::parse(bytes) {
            Ok(header) => {
                update_textures = header.addr1 != self.addr1 || header.addr2 != self.addr2;
                self.width = header.width;
                self.height = header.height;
                self.index = header.index;
                self.addr1 = header.addr1;
                self.addr2 = header.addr2;
            },
            Err(_) => {
                self.width = 0;
                self.height = 0;
                self.index = 0;
                self.addr1 = 0;
                self.addr2 = 0;
            },
        }
        self.mapped = true;
        self.is_blish_alive = alive;
        Published { update_textures, send_dimensions: fresh }
    }

    /// Forgets everything after the producer's death: the mapping counts as closed
    /// and the cached dimensions, index and handles are zero.
    pub fn clear(&mut self)
        ensures
            *final(self) == MMFData::empty(),
    {
        self.mapped = false;
        self.width = 0;
        self.height = 0;
        self.index = 0;
        self.addr1 = 0;
        self.addr2 = 0;
        self.is_blish_alive = false;
    }

    /// Chooses the wait before the next iteration. `signal_ready` tells whether the
    /// wake signal exists. Every wait is bounded, so that liveness is probed again.
    pub fn next_wait(&self, signal_ready: bool) -> (wait: Wait)
        ensures
            wait == (if !signal_ready {
                Wait::Sleep { millis: SIGNAL_RETRY_MILLIS }
            } else if self.mapped {
                Wait::Signal { timeout_millis: WAKE_TIMEOUT_MILLIS }
            } else {
                Wait::Signal { timeout_millis: OPEN_RETRY_MILLIS }
            }),
    {
        if !signal_ready {
            Wait::Sleep { millis: SIGNAL_RETRY_MILLIS }
        } else if self.mapped {
            Wait::Signal { timeout_millis: WAKE_TIMEOUT_MILLIS }
        } else {
            Wait::Signal { timeout_millis: OPEN_RETRY_MILLIS }
        }
    }
}

/// What is left to do on the mapping when the transport is cleaned up.
#[derive(Clone, Copy, Debug, PartialEq, Eq, Structural)]
pub struct Teardown {
    /// The header view was mapped: overwrite it with zeros, unmap it and close
    /// the mapping.
    pub unmap: bool,
}

/// Cleans up after the producer's death, or after its textures could not be
/// opened: the cache is emptied, so that its dimensions are (0, 0) and nothing
/// counts as mapped, and the engine forgets every size-dependent resource, so
/// that no freed handle is sampled again.
pub fn cleanup_shutdown(mmf: &mut MMFData, engine: &mut CompositeEngine) -> (todo: Teardown)
    ensures
        todo.unmap == old(mmf).mapped,
        *final(mmf) == MMFData::empty(),
        final(engine).phase == old(engine).phase,
        final(engine).frame == old(engine).frame,
        final(engine).target == old(engine).target,
        final(engine).state == (match old(engine).state {
            Some(_) => Some(OverlayState::blank()),
            None => None,
        }),
{
    let unmap = mmf.mapped;
    mmf.clear();
    engine.shutdown();
    Teardown { unmap }
}

/// Once the producer's liveness object is gone, the producer counts as dead and
/// the next iteration of the transport is a cleanup, which leaves the cache with
/// the dimensions (0, 0) and nothing mapped.
pub proof fn lemma_dead_producer_is_cleaned_up(mmf: MMFData, code: u32)
    requires
        mmf.is_blish_alive,
        code == ERROR_FILE_NOT_FOUND || code == ERROR_INVALID_NAME,
    ensures
        !probe_alive(MutexProbe::Failed(code)),
        mmf.wake(probe_alive(MutexProbe::Failed(code))) == WakeAction::Cleanup,
        MMFData::empty().width == 0 && MMFData::empty().height == 0,
        !MMFData::empty().mapped && !MMFData::empty().ready(),
{
}

} // verus!
