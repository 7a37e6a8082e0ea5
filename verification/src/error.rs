//! The errors of the supervisor.
use vstd::prelude::*;

verus! {

/// What can go wrong while supervising and swapping a child process.
#[derive(Clone, Debug, PartialEq, Eq)]
pub enum SwapError {
    BadCliInput,
    FailedChildBoot(String),
    FailedChildBootNoPid,
    FailedChildKill { pid: u32, message: String },
    ProcWaitFail { message: String },
    ListenerChannelDown,
    ListenerHalted,
    ListenerSocketInvalidCmd { message: String },
    SignalProxyFailed { message: String },
    SignalProxyHalted,
}

} // verus!
