//! The executable that the add-on launches: its settings, as they are kept in
//! a small text, and the state of its process.
//!
//! The settings text has two lines: the path of the executable, and `true` or
//! `false` for launching it on startup. The caller reads and writes the text,
//! starts and ends the process, and tells the manager what came of it.

use vstd::prelude::*;
use vstd::string::{StrSliceExecFns, StringExecFns};
use super::NexusError;
use crate::text::{chars_of, is_space, is_whitespace, part_equals};

verus! {

/// A text without the white space at its beginning and at its end.
pub open spec fn trimmed(text: Seq<char>) -> Seq<char>
    decreases text.len(),
{
    if text.len() > 0 && is_space(text[0]) {
        trimmed(text.drop_first())
    } else if text.len() > 0 && is_space(text.last()) {
        trimmed(text.drop_last())
    } else {
        text
    }
}

/// Position of the first line feed at or after `from`; the text's length if
/// there is none.
pub open spec fn line_end(text: Seq<char>, from: int) -> int
    decreases text.len() - from,
{
    if 0 <= from < text.len() && text[from] != '\n' {
        line_end(text, from + 1)
    } else if from < text.len() {
        from
    } else {
        text.len() as int
    }
}

/// The path that a settings text holds: its first line without the white space
/// around it, unless nothing is left of it.
pub open spec fn saved_path(contents: Seq<char>) -> Option<Seq<char>> {
    let line = trimmed(contents.subrange(0, line_end(contents, 0)));
    if line.len() > 0 {
        Some(line)
    } else {
        None
    }
}

/// Whether a settings text asks for a launch on startup: its second line,
/// without the white space around it, is `true`.
pub open spec fn saved_launch(contents: Seq<char>) -> bool {
    let first = line_end(contents, 0);
    first < contents.len() && trimmed(
        contents.subrange(first + 1, line_end(contents, first + 1)),
    ) == "true"@
}

/// The settings text for a path and a launch setting.
pub open spec fn settings_text(path: Option<Seq<char>>, launch: bool) -> Seq<char> {
    (match path {
        Some(text) => text,
        None => Seq::empty(),
    }) + "\n"@ + (if launch {
        "true"@
    } else {
        "false"@
    })
}

/// The executable to launch, and whether its process is running.
#[derive(Debug)]
pub struct ExeManager {
    pub exe_path: Option<String>,
    /// Whether a process was started and is not known to have ended.
    pub running: bool,
    pub launch_on_startup: bool,
}

fn find_line_end(text: &Vec<char>, from: usize) -> (end: usize)
    requires
        from <= text@.len(),
    ensures
        end == line_end(text@, from as int),
        from <= end <= text@.len(),
{
    let mut at: usize = from;
    while at < text.len() && text[at] != '\n'
        invariant
            from <= at <= text@.len(),
            line_end(text@, from as int) == line_end(text@, at as int),
        decreases text@.len() - at,
    {
        at = at + 1;
    }
    at
}

/// Finds the part of `text` between `from` and `to` that is left when the white
/// space at both ends is taken away.
fn trim_part(text: &Vec<char>, from: usize, to: usize) -> (part: (usize, usize))
    requires
        from <= to <= text@.len(),
    ensures
        from <= part.0 <= part.1 <= to,
        text@.subrange(part.0 as int, part.1 as int) == trimmed(
            text@.subrange(from as int, to as int),
        ),
{
    let mut a: usize = from;
    let mut b: usize = to;
    while a < b && is_whitespace(text[a])
        invariant
            from <= a <= b,
            b == to,
            to <= text@.len(),
            trimmed(text@.subrange(a as int, b as int)) == trimmed(
                text@.subrange(from as int, to as int),
            ),
        decreases b - a,
    {
        assert(text@.subrange(a as int, b as int).drop_first() =~= text@.subrange(
            a + 1,
            b as int,
        ));
        a = a + 1;
    }
    while a < b && is_whitespace(text[b - 1])
        invariant
            from <= a <= b <= to,
            to <= text@.len(),
            a < b ==> !is_space(text@[a as int]),
            trimmed(text@.subrange(a as int, b as int)) == trimmed(
                text@.subrange(from as int, to as int),
            ),
        decreases b - a,
    {
        assert(text@.subrange(a as int, b as int).drop_last() =~= text@.subrange(
            a as int,
            b - 1,
        ));
        b = b - 1;
    }
    (a, b)
}

impl ExeManager {
    /// The settings text that keeps the manager's path and launch setting.
    pub open spec fn text(&self) -> Seq<char> {
        settings_text(
            match self.exe_path {
                Some(path) => Some(path@),
                None => None,
            },
            self.launch_on_startup,
        )
    }

    /// Sets up the manager from the settings text that was found, if one was
    /// found. No process is running.
    pub fn new(saved: Option<&str>) -> (manager: ExeManager)
        ensures
            !manager.running,
            saved is None ==> manager.exe_path is None && !manager.launch_on_startup,
            saved is Some ==> manager.launch_on_startup == saved_launch(saved->Some_0@),
            saved is Some ==> match (manager.exe_path, saved_path(saved->Some_0@)) {
                (Some(path), Some(wanted)) => path@ == wanted,
                (None, None) => true,
                _ => false,
            },
    {
        let contents = match saved {
            Some(contents) => contents,
            None => {
                return ExeManager { exe_path: None, running: false, launch_on_startup: false };
            },
        };
        let text = chars_of(contents);
        let first = find_line_end(&text, 0);
        let (a, b) = trim_part(&text, 0, first);
        let exe_path = if a < b {
            Some(contents.substring_char(a, b).to_owned())
        } else {
            None
        };
        let launch_on_startup = if first < text.len() {
            let second = find_line_end(&text, first + 1);
            let (c, d) = trim_part(&text, first + 1, second);
            part_equals(&text, c, d, "true")
        } else {
            false
        };
        ExeManager { exe_path, running: false, launch_on_startup }
    }

    /// The settings text to write, so that the settings are found again.
    pub fn save_settings(&self) -> (text: String)
        ensures
            text@ == self.text(),
    {
        let mut text = match &self.exe_path {
            Some(path) => path.clone(),
            None => String::new(),
        };
        text.append("\n");
        if self.launch_on_startup {
            text.append("true");
        } else {
            text.append("false");
        }
        assert(text@ =~= self.text());
        text
    }

    /// Sets the executable to launch, and returns the settings text to write.
    /// A path that holds nothing but white space is refused and changes nothing.
    pub fn set_exe(&mut self, path: String) -> (saved: Result<String, NexusError>)
        ensures
            saved is Err == (trimmed(path@).len() == 0),
            saved matches Err(error) ==> *final(self) == *old(self) && (
            error matches NexusError::FileOperation(msg) && msg@
                == "Cannot set empty executable path"@),
            saved matches Ok(text) ==> final(self).exe_path == Some(path) && final(self).running
                == old(self).running && final(self).launch_on_startup == old(
                self,
            ).launch_on_startup && text@ == final(self).text(),
    {
        let text = chars_of(path.as_str());
        let (a, b) = trim_part(&text, 0, text.len());
        assert(text@.subrange(0, text@.len() as int) =~= path@);
        if a == b {
            return Err(NexusError::FileOperation(String::from_str("Cannot set empty executable path")));
        }
        self.exe_path = Some(path);
        Ok(self.save_settings())
    }

    /// Forgets the executable, and returns the settings text to write if there
    /// was one to forget. A running process has to be stopped before.
    pub fn clear_exe(&mut self) -> (saved: Option<String>)
        ensures
            final(self).exe_path is None,
            final(self).running == old(self).running,
            final(self).launch_on_startup == old(self).launch_on_startup,
            saved is Some == old(self).exe_path is Some,
            saved matches Some(text) ==> text@ == final(self).text(),
    {
        if self.exe_path.is_some() {
            self.exe_path = None;
            Some(self.save_settings())
        } else {
            None
        }
    }

    /// Decides whether the executable can be launched now, and returns its path
    /// if it can. It cannot while no path is set or while its process is running.
    pub fn launch_exe(&self) -> (path: Result<String, NexusError>)
        ensures
            path is Ok == (self.exe_path is Some && !self.running),
            path matches Ok(text) ==> text == self.exe_path->Some_0,
            self.exe_path is None ==> (path matches Err(NexusError::ProcessLaunch(msg)) && msg@
                == "No executable path set"@),
            self.exe_path is Some && self.running ==> (path matches Err(
                NexusError::ProcessLaunch(msg),
            ) && msg@ == "Process is already running: "@ + self.exe_path->Some_0@),
    {
        match &self.exe_path {
            None => Err(NexusError::ProcessLaunch(String::from_str("No executable path set"))),
            Some(path) => {
                if self.running {
                    Err(
                        NexusError::ProcessLaunch(
                            String::from_str("Process is already running: ").concat(path.as_str()),
                        ),
                    )
                } else {
                    Ok(path.clone())
                }
            },
        }
    }

    /// Records that the process was started.
    pub fn launched(&mut self)
        ensures
            final(self).running,
            final(self).exe_path == old(self).exe_path,
            final(self).launch_on_startup == old(self).launch_on_startup,
    {
        self.running = true;
    }

    /// Lets go of the process, and tells whether there was one, which the
    /// caller then has to end.
    pub fn stop_exe(&mut self) -> (kill: bool)
        ensures
            kill == old(self).running,
            !final(self).running,
            final(self).exe_path == old(self).exe_path,
            final(self).launch_on_startup == old(self).launch_on_startup,
    {
        let kill = self.running;
        self.running = false;
        kill
    }

    /// Takes note of whether the process has ended by itself.
    pub fn cleanup_finished_process(&mut self, exited: bool)
        ensures
            final(self).running == (old(self).running && !exited),
            final(self).exe_path == old(self).exe_path,
            final(self).launch_on_startup == old(self).launch_on_startup,
    {
        if exited {
            self.running = false;
        }
    }

    /// Whether a process was started and is not known to have ended.
    pub fn is_running(&self) -> (running: bool)
        ensures
            running == self.running,
    {
        self.running
    }

    /// Whether a process was started and is not known to have ended.
    pub fn is_process_running(&self) -> (running: bool)
        ensures
            running == self.running,
    {
        self.running
    }

    /// The path of the executable, if one is set.
    pub fn exe_path(&self) -> (path: Option<&String>)
        ensures
            path == (match self.exe_path {
                Some(text) => Some(&text),
                None => None,
            }),
    {
        self.exe_path.as_ref()
    }

    /// Whether the executable is launched on startup.
    pub fn launch_on_startup(&self) -> (launch: bool)
        ensures
            launch == self.launch_on_startup,
    {
        self.launch_on_startup
    }

    /// Chooses whether the executable is launched on startup.
    pub fn set_launch_on_startup(&mut self, launch: bool)
        ensures
            final(self).launch_on_startup == launch,
            final(self).exe_path == old(self).exe_path,
            final(self).running == old(self).running,
    {
        self.launch_on_startup = launch;
    }
}

} // verus!
