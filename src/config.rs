//! The commands the viewer can be started with, as plain values.

use vstd::prelude::*;

verus! {

/// Read or follow a local log file.
#[derive(Clone, PartialEq, Eq, Debug)]
pub struct MonitorCommand {
    /// The path to the log file; found by search where absent.
    pub log: Option<String>,
    /// Whether to watch the file for changes.
    pub follow: bool,
}

/// Read the log from standard input.
#[derive(Clone, Copy, PartialEq, Eq, Debug, Hash, Structural)]
pub struct StdinCommand;

} // verus!
