//! swaperooni: hot-swap a child process without tearing down the parent.
//!
//! The supervisor runs one child; when the child exits it exits with the
//! same code, and when a swap is requested (over a Unix socket, or because a
//! watched executable changed) it tears the child down and starts the new
//! command. This crate holds the decisions; the program around it performs
//! the process and socket work they call for.
use vstd::prelude::*;

pub mod baby_cmd;
pub mod cli;
pub mod error;
pub mod init;
pub mod ipc;
pub mod poll;
pub mod supervisor;
pub mod swap;
pub mod text;
pub mod version;

pub use baby_cmd::BabyCommand;
pub use cli::{Cli, IpcCmd, PollCmd, SwapCmd};
pub use error::SwapError;
pub use init::{Init, Listener};
pub use swap::{Swap, SwapBuilder};
pub use version::SwapVersion;

verus! {

} // verus!
