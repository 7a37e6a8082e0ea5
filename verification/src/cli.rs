//! The command line: which way swap requests arrive, and what to run.
use vstd::prelude::*;

verus! {

/// Milliseconds between two looks at the watched file, unless the command
/// line says otherwise.
pub const DEFAULT_POLL_INTERVAL_MS: u64 = 4_000;

/// The parsed command line.
#[derive(Clone, Debug)]
pub struct Cli {
    pub command: SwapCmd,
}

/// Watch an executable's modification time and re-run it when it changes.
#[derive(Clone, Debug)]
pub struct PollCmd {
    /// Executable to monitor and run.
    pub exe: String,
    /// Arguments the executable is run with.
    pub args: Vec<String>,
    /// Duration (milliseconds) between two looks at the modification time.
    pub poll_interval_ms: u64,
}

/// How swap requests arrive.
#[derive(Clone, Debug)]
pub enum SwapCmd {
    Poll(PollCmd),
    Ipc(IpcCmd),
}

/// Run a command and take swap requests over a Unix socket.
#[derive(Clone, Debug)]
pub struct IpcCmd {
    /// Where the socket is bound.
    pub socket_path: String,
    /// The first command: program, then arguments.
    pub cmd: Vec<String>,
}

} // verus!
