//! What the add-on that launches the producer needs: its errors, the settings
//! of the executable to launch, and the decisions of its window.

use vstd::prelude::*;
use vstd::string::StringExecFns;

pub mod manager;
pub mod ui;

verus! {

/// The errors of the add-on, each with a message that says what went wrong.
#[derive(Debug)]
pub enum NexusError {
    ManagerInitialization(String),
    ProcessLaunch(String),
    ProcessStop(String),
    FileOperation(String),
    ResourceLoading(String),
}

/// The text that describes an error: what kind it is, a colon, and its message.
pub open spec fn error_text(error: NexusError) -> Seq<char> {
    match error {
        NexusError::ManagerInitialization(msg) => "Manager initialization error: "@ + msg@,
        NexusError::ProcessLaunch(msg) => "Process launch error: "@ + msg@,
        NexusError::ProcessStop(msg) => "Process stop error: "@ + msg@,
        NexusError::FileOperation(msg) => "File operation error: "@ + msg@,
        NexusError::ResourceLoading(msg) => "Resource loading error: "@ + msg@,
    }
}

impl NexusError {
    /// Describes the error for the log.
    pub fn message(&self) -> (text: String)
        ensures
            text@ == error_text(*self),
    {
        match self {
            NexusError::ManagerInitialization(msg) => {
                String::from_str("Manager initialization error: ").concat(msg.as_str())
            },
            NexusError::ProcessLaunch(msg) => {
                String::from_str("Process launch error: ").concat(msg.as_str())
            },
            NexusError::ProcessStop(msg) => {
                String::from_str("Process stop error: ").concat(msg.as_str())
            },
            NexusError::FileOperation(msg) => {
                String::from_str("File operation error: ").concat(msg.as_str())
            },
            NexusError::ResourceLoading(msg) => {
                String::from_str("Resource loading error: ").concat(msg.as_str())
            },
        }
    }
}

} // verus!
