//! The order in which the module is set up after it was loaded.
//!
//! The caller carries out one step at a time and asks what comes next. A step
//! that fails ends the sequence: the module is of no use half set up, so it
//! lets go of itself instead.

use vstd::prelude::*;

verus! {

/// The steps of the setup.
#[derive(Clone, Copy, Debug, PartialEq, Eq, Structural)]
pub enum StartupStep {
    /// Open the log sinks.
    EnableLogging,
    /// Start the thread of the frame transport.
    StartTransport,
    /// Find the base and the size of the host's module.
    FindModule,
    /// Find the host's main window.
    FindWindow,
    /// Find the presentation routine.
    FindPresent,
    /// Prepare and enable the hook on the presentation routine.
    InstallHook,
    /// Start the thread that collects the statistics.
    StartStatistics,
    /// Load the key bindings.
    LoadKeybinds,
    /// Start the thread that sends the pointer packets.
    StartMouseThread,
    /// Put the input relay in front of the window's procedure.
    InstallControls,
}

/// What the caller does after a step.
#[derive(Clone, Copy, Debug, PartialEq, Eq, Structural)]
pub enum StartupAction {
    /// Carry out this step.
    Run(StartupStep),
    /// Everything is set up.
    Finished,
    /// The step failed: give up and unload the module.
    Abort(StartupStep),
}

/// The place of a step in the sequence, counted from zero.
pub open spec fn position(step: StartupStep) -> nat {
    match step {
        StartupStep::EnableLogging => 0,
        StartupStep::StartTransport => 1,
        StartupStep::FindModule => 2,
        StartupStep::FindWindow => 3,
        StartupStep::FindPresent => 4,
        StartupStep::InstallHook => 5,
        StartupStep::StartStatistics => 6,
        StartupStep::LoadKeybinds => 7,
        StartupStep::StartMouseThread => 8,
        StartupStep::InstallControls => 9,
    }
}

/// The step that follows a step, if one follows.
pub open spec fn following(step: StartupStep) -> Option<StartupStep> {
    match step {
        StartupStep::EnableLogging => Some(StartupStep::StartTransport),
        StartupStep::StartTransport => Some(StartupStep::FindModule),
        StartupStep::FindModule => Some(StartupStep::FindWindow),
        StartupStep::FindWindow => Some(StartupStep::FindPresent),
        StartupStep::FindPresent => Some(StartupStep::InstallHook),
        StartupStep::InstallHook => Some(StartupStep::StartStatistics),
        StartupStep::StartStatistics => Some(StartupStep::LoadKeybinds),
        StartupStep::LoadKeybinds => Some(StartupStep::StartMouseThread),
        StartupStep::StartMouseThread => Some(StartupStep::InstallControls),
        StartupStep::InstallControls => None,
    }
}

/// What the caller does after the step `done`, which succeeded or not.
pub open spec fn after_step(done: StartupStep, ok: bool) -> StartupAction {
    if !ok {
        StartupAction::Abort(done)
    } else {
        match following(done) {
            Some(step) => StartupAction::Run(step),
            None => StartupAction::Finished,
        }
    }
}

/// The first step of the setup.
pub fn attach() -> (first: StartupStep)
    ensures
        position(first) == 0,
{
    StartupStep::EnableLogging
}

/// Decides how the setup goes on after a step.
pub fn attach_next(done: StartupStep, ok: bool) -> (action: StartupAction)
    ensures
        action == after_step(done, ok),
{
    if !ok {
        return StartupAction::Abort(done);
    }
    match done {
        StartupStep::EnableLogging => StartupAction::Run(StartupStep::StartTransport),
        StartupStep::StartTransport => StartupAction::Run(StartupStep::FindModule),
        StartupStep::FindModule => StartupAction::Run(StartupStep::FindWindow),
        StartupStep::FindWindow => StartupAction::Run(StartupStep::FindPresent),
        StartupStep::FindPresent => StartupAction::Run(StartupStep::InstallHook),
        StartupStep::InstallHook => StartupAction::Run(StartupStep::StartStatistics),
        StartupStep::StartStatistics => StartupAction::Run(StartupStep::LoadKeybinds),
        StartupStep::LoadKeybinds => StartupAction::Run(StartupStep::StartMouseThread),
        StartupStep::StartMouseThread => StartupAction::Run(StartupStep::InstallControls),
        StartupStep::InstallControls => StartupAction::Finished,
    }
}

/// The setup runs each step once and in order: a step is only ever followed by
/// the one at the next place, the sequence ends after the tenth step, and it
/// ends early exactly when a step fails. So the hook is installed only after
/// the module, the window and the presentation routine were found, and the
/// input relay only after the thread that it sends to was started.
pub proof fn lemma_startup_order(done: StartupStep, ok: bool)
    ensures
        after_step(done, ok) matches StartupAction::Run(next) ==> ok && position(next) == position(
            done,
        ) + 1,
        after_step(done, ok) is Finished <==> ok && position(done) == 9,
        after_step(done, ok) is Abort <==> !ok,
        after_step(done, ok) matches StartupAction::Abort(failed) ==> failed == done,
        position(done) <= 9,
        position(StartupStep::FindModule) < position(StartupStep::InstallHook),
        position(StartupStep::FindWindow) < position(StartupStep::InstallHook),
        position(StartupStep::FindPresent) < position(StartupStep::InstallHook),
        position(StartupStep::InstallHook) < position(StartupStep::InstallControls),
        position(StartupStep::StartMouseThread) < position(StartupStep::InstallControls),
{
}

} // verus!
