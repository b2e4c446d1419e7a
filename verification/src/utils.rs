//! Picking the host's main window among the windows of the desktop.

use vstd::prelude::*;

verus! {

/// Extended window style of a tool window.
pub const WS_EX_TOOLWINDOW: u32 = 0x80;

/// What the caller found out about a window.
#[derive(Clone, Copy, Debug, PartialEq, Eq, Structural)]
pub struct WindowInfo {
    /// The process that the window belongs to.
    pub process_id: u32,
    pub visible: bool,
    pub enabled: bool,
    pub ex_style: u32,
    /// Handle of the window's owner, or zero.
    pub owner: isize,
    /// Handle of the window's parent, or zero.
    pub parent: isize,
}

/// Whether a window is a main window of the process `target_pid`: it belongs
/// to the process, is visible and enabled, is no tool window, and has neither
/// an owner nor a parent.
pub open spec fn main_window(info: WindowInfo, target_pid: u32) -> bool {
    &&& info.process_id == target_pid
    &&& info.visible
    &&& info.enabled
    &&& info.ex_style & WS_EX_TOOLWINDOW == 0
    &&& info.owner == 0
    &&& info.parent == 0
}

/// Tells whether the search for the main window ends at this window.
pub fn is_main_window(info: &WindowInfo, target_pid: u32) -> (found: bool)
    ensures
        found == main_window(*info, target_pid),
{
    info.process_id == target_pid && info.visible && info.enabled && (info.ex_style
        & WS_EX_TOOLWINDOW) == 0 && info.owner == 0 && info.parent == 0
}

} // verus!
