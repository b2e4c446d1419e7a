//! Decision logic of an in-process overlay renderer: locating the presentation
//! routine, the hook lifecycle, the shared-memory frame transport, the per-frame
//! compositing state machine, input relaying and the diagnostics overlay.
//!
//! Everything here works on plain values. The embedding module performs the
//! operating-system and GPU calls and reports their outcomes back.

pub mod address_finder;
pub mod controls;
pub mod debug;
pub mod hooks;
pub mod keybinds;
pub mod nexus_addon;
pub mod startup;
pub mod text;
pub mod ui;
pub mod utils;
