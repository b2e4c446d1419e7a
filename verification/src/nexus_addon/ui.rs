//! Decisions of the add-on's window.

use vstd::prelude::*;
use vstd::string::{StrSliceExecFns, StringExecFns};

verus! {

/// Longest path, in characters, that is shown in full.
pub const PATH_SHOWN: usize = 50;

/// Number of characters that are kept from the end of a longer path.
pub const PATH_TAIL: usize = 47;

/// Shows or hides the add-on's window.
pub fn toggle_window(is_open: &mut bool)
    ensures
        *final(is_open) == !*old(is_open),
{
    *is_open = !*is_open;
}

/// How a path is shown in the window: in full up to `PATH_SHOWN` characters,
/// and else as three dots and its last `PATH_TAIL` characters.
pub open spec fn shown_path(path: Seq<char>) -> Seq<char> {
    if path.len() > PATH_SHOWN {
        "..."@ + path.subrange(path.len() - PATH_TAIL, path.len() as int)
    } else {
        path
    }
}

/// Shortens a path for showing it in the window.
pub fn display_path(exe_path: &str) -> (shown: String)
    ensures
        shown@ == shown_path(exe_path@),
{
    let count: usize = exe_path.unicode_len();
    if count > PATH_SHOWN {
        let tail = exe_path.substring_char(count - PATH_TAIL, count);
        String::from_str("...").concat(tail)
    } else {
        String::from_str(exe_path)
    }
}

/// What the window's buttons ask of the executable's manager.
#[derive(Clone, Copy, Debug, PartialEq, Eq, Structural)]
pub enum ExeAction {
    Stop,
    Launch,
    Remove,
}

/// The actions that the pressed buttons ask for, in the order in which they
/// are carried out: stopping before launching, removing last.
pub open spec fn actions_for(to_stop: bool, to_launch: bool, to_remove: bool) -> Seq<ExeAction> {
    (if to_stop {
        seq![ExeAction::Stop]
    } else {
        Seq::empty()
    }) + (if to_launch {
        seq![ExeAction::Launch]
    } else {
        Seq::empty()
    }) + (if to_remove {
        seq![ExeAction::Remove]
    } else {
        Seq::empty()
    })
}

/// Collects what the buttons that were pressed while the window was drawn ask for.
pub fn handle_executable_actions(to_stop: bool, to_launch: bool, to_remove: bool) -> (actions:
    Vec<ExeAction>)
    ensures
        actions@ == actions_for(to_stop, to_launch, to_remove),
{
    let mut actions: Vec<ExeAction> = Vec::new();
    if to_stop {
        actions.push(ExeAction::Stop);
    }
    if to_launch {
        actions.push(ExeAction::Launch);
    }
    if to_remove {
        actions.push(ExeAction::Remove);
    }
    assert(actions@ =~= actions_for(to_stop, to_launch, to_remove));
    actions
}

} // verus!
