//! Switches and helpers for debugging, toggled with key bindings.

use vstd::prelude::*;
use vstd::string::StringExecFns;
use crate::text::{chars_of, decimal, part_is, push_decimal, same_ignoring_case};
use crate::ui::frame::{ChannelCounts, FrameBuffer, count_channels, frame_len, lemma_frame_len_bound, lit_pixels};
use crate::ui::rendering::{CompositeEngine, OverlayState};

pub mod debug_overlay;
pub mod statistics;

verus! {

/// The switches that key bindings toggle.
#[derive(Clone, Copy, Debug, PartialEq, Eq, Structural)]
pub struct DebugFeatures {
    /// While off, the intercepted call passes straight through.
    pub rendering_enabled: bool,
    pub processing_enabled: bool,
    /// Whether the diagnostics overlay is drawn.
    pub debug_overlay_enabled: bool,
}

impl DebugFeatures {
    /// The switches at startup: rendering and processing on, diagnostics off.
    pub fn new() -> (features: DebugFeatures)
        ensures
            features == (DebugFeatures {
                rendering_enabled: true,
                processing_enabled: true,
                debug_overlay_enabled: false,
            }),
    {
        DebugFeatures {
            rendering_enabled: true,
            processing_enabled: true,
            debug_overlay_enabled: false,
        }
    }
}

/// What a dump of the debug data found.
#[derive(Clone, Copy, Debug, PartialEq, Eq, Structural)]
pub struct DebugReport {
    /// The resource state that the engine held.
    pub state: OverlayState,
    pub frame_width: u32,
    pub frame_height: u32,
    /// How many pixels of the cached frame had each channel above zero.
    pub counts: ChannelCounts,
}

/// Takes stock of the engine and of the cached frame for the log, and resets
/// both: the engine forgets its resource state, so that the next frame builds
/// everything anew, and the cached frame keeps its dimensions but turns all zero.
/// The engine has to hold a resource state: there is nothing to dump before
/// the first frame built one.
pub fn dump_debug_data(engine: &mut CompositeEngine, frame: &mut FrameBuffer) -> (report:
    DebugReport)
    requires
        old(engine).state is Some,
        old(frame).wf(),
    ensures
        Some(report.state) == old(engine).state,
        report.frame_width == old(frame).width,
        report.frame_height == old(frame).height,
        report.counts.r == lit_pixels(old(frame).pixels@, 0, old(frame).pixels@.len() as int / 4),
        report.counts.g == lit_pixels(old(frame).pixels@, 1, old(frame).pixels@.len() as int / 4),
        report.counts.b == lit_pixels(old(frame).pixels@, 2, old(frame).pixels@.len() as int / 4),
        report.counts.a == lit_pixels(old(frame).pixels@, 3, old(frame).pixels@.len() as int / 4),
        final(engine).state is None,
        final(engine).phase == old(engine).phase,
        final(engine).frame == old(engine).frame,
        final(engine).target == old(engine).target,
        final(frame).wf(),
        final(frame).width == old(frame).width,
        final(frame).height == old(frame).height,
        forall|k: int| 0 <= k < final(frame).pixels@.len() ==> final(frame).pixels@[k] == 0,
{
    let state = engine.state.unwrap();
    engine.state = None;
    let counts = count_channels(frame.pixels.as_slice());
    proof {
        lemma_frame_len_bound(frame.width, frame.height);
    }
    let size: usize = (frame.width as u64 * frame.height as u64 * 4) as usize;
    frame.pixels = vec![0u8; size];
    DebugReport { state, frame_width: frame.width, frame_height: frame.height, counts }
}

/// Tells whether a process is the one to end: its name is the target's, up to
/// the case of the letters A to Z.
pub fn process_matches(exe_name: &str, target: &str) -> (same: bool)
    ensures
        same == same_ignoring_case(exe_name@, target@),
{
    let name = chars_of(exe_name);
    assert(name@.subrange(0, name@.len() as int) =~= exe_name@);
    part_is(&name, 0, name.len(), target)
}

/// A line of the log. A line that reports an error names the place it comes
/// from, the others do not.
pub open spec fn log_line(
    timestamp: Seq<char>,
    level: Seq<char>,
    is_error: bool,
    file: Option<Seq<char>>,
    line: Option<u32>,
    message: Seq<char>,
) -> Seq<char> {
    let head = "["@ + timestamp + "] [external-dx11-overlay] ["@ + level + "] "@;
    if is_error {
        head + "["@ + (match file {
            Some(name) => name,
            None => "<unknown>"@,
        }) + ":"@ + decimal(
            match line {
                Some(number) => number as nat,
                None => 0,
            },
        ) + "] "@ + message
    } else {
        head + message
    }
}

/// Formats a line of the log from the time, the level and the message of a
/// record, and for an error from the file and line that it names.
pub fn format_log_line(
    timestamp: &str,
    level: &str,
    is_error: bool,
    file: Option<&str>,
    line: Option<u32>,
    message: &str,
) -> (text: String)
    ensures
        text@ == log_line(
            timestamp@,
            level@,
            is_error,
            match file {
                Some(name) => Some(name@),
                None => None,
            },
            line,
            message@,
        ),
{
    let mut text = String::from_str("[");
    text.append(timestamp);
    text.append("] [external-dx11-overlay] [");
    text.append(level);
    text.append("] ");
    if is_error {
        text.append("[");
        match file {
            Some(name) => text.append(name),
            None => text.append("<unknown>"),
        }
        text.append(":");
        match line {
            Some(number) => push_decimal(&mut text, number as u64),
            None => push_decimal(&mut text, 0),
        }
        text.append("] ");
    }
    text.append(message);
    text
}

} // verus!
