//! Launch configuration: how a run of the program obtains its input lines.
//!
//! The parser itself is line-at-a-time and pure; these types only record
//! whether lines come from an interactive shell or from a file of commands
//! to replay.  The command-line front end constructs them and owns all I/O.

use vstd::prelude::*;

verus! {

/// The two run modes: an interactive shell that reads one command per
/// prompt, or the replay of a file that holds one command per line.
#[derive(Debug)]
pub enum Mode {
    /// Read commands interactively, line by line.
    Shell,
    /// Replay the commands held in the named input file.
    Run { input: String },
}

/// The launch configuration of a run: its mode.
#[derive(Debug)]
pub struct Emv {
    pub mode: Mode,
}

} // verus!
