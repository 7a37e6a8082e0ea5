//! The supervisor's decisions: it runs one child at a time, passes on the
//! child's exit code when the child ends, and on a swap request tears the
//! child down and starts the requested command in its place.
//!
//! The caller performs each `RunAction` (starting processes, waiting,
//! signalling) and hands the outcome back as a `RunEvent`.
use vstd::prelude::*;

use crate::baby_cmd::BabyCommand;
use crate::error::SwapError;

verus! {

/// What the swap request channel delivered.
pub enum SwapRequest {
    /// A command to run in place of the current child.
    Command(BabyCommand),
    /// The channel is closed: no listener sends requests any more.
    ChannelClosed,
    /// The task that waited on the channel failed, for this reason.
    TaskFailed(String),
}

/// Where the supervisor stands.
pub enum Phase {
    /// The first child is being started.
    Launching,
    /// A child was started; its pid is being read.
    Checking,
    /// The child `pid` runs; waiting for it to end or for a swap request.
    Watching { pid: u32 },
    /// A swap was requested; the child `pid` is being torn down.
    TearingDown { pid: u32, request: SwapRequest },
    /// The requested command is being started.
    Relaunching,
    /// Supervision is over.
    Finished,
}

/// The supervisor's state: its phase, and whether a task forwards the
/// common signals to the child.
pub struct Supervisor {
    pub phase: Phase,
    pub proxy_running: bool,
}

/// An outcome that the caller reports.
pub enum RunEvent {
    /// Starting a child succeeded, or failed with this error.
    Launched(Result<(), SwapError>),
    /// The running child's pid, if it reported one.
    PidRead(Option<u32>),
    /// The child ended: its exit code (none when a signal ended it), or why
    /// waiting for it failed.
    ChildHalted(Result<Option<i32>, String>),
    /// The swap request channel delivered something.
    SwapRequested(SwapRequest),
    /// The child that was being torn down is gone.
    TornDown,
    /// The swap listener stopped.
    ListenerStopped,
}

/// What the caller is to do next.
pub enum RunAction {
    /// Start a child from this command.
    Launch(BabyCommand),
    /// Read the pid of the child just started.
    ReadPid,
    /// Start forwarding signals to `pid` if asked to, then wait until the
    /// child ends or a swap is requested.
    Watch { pid: u32, start_signal_proxy: bool },
    /// Stop forwarding signals; send `TERM_SIGNAL` to `pid`, and
    /// `KILL_SIGNAL` if it has not stopped after `KILL_GRACE_SECS`; wait for
    /// the child.
    TearDown { pid: u32 },
    /// Exit with this code.
    Exit(i32),
    /// Stop with this error.
    Fail(SwapError),
    /// Stop with this failure of a task.
    Abort(String),
    /// Nothing: the event does not belong to the current phase.
    Ignore,
}

/// The code to exit with when the child ended with `code`: that code, or 1
/// when a signal ended the child.
pub open spec fn exit_code_of(code: Option<i32>) -> i32 {
    match code {
        Some(c) => c,
        None => 1,
    }
}

/// The exit code passed on for a child that ended with `code`.
pub fn exit_code(code: Option<i32>) -> (res: i32)
    ensures
        res == exit_code_of(code),
        code matches Some(c) ==> res == c,
        code is None ==> res == 1,
{
    match code {
        Some(c) => c,
        None => 1,
    }
}

/// What forwarding one signal to the child leads to: forwarding goes on
/// while it succeeds, and a failure ends it with `SignalProxyFailed`, which
/// carries the reason.
pub fn forward_outcome(result: Result<(), String>) -> (res: Option<SwapError>)
    ensures
        match result {
            Ok(()) => res is None,
            Err(message) => res == Some(SwapError::SignalProxyFailed { message }),
        },
{
    match result {
        Ok(()) => None,
        Err(message) => Some(SwapError::SignalProxyFailed { message }),
    }
}

/// The supervisor's state and action after `event` in state `s`.
pub open spec fn next_spec(s: Supervisor, event: RunEvent) -> (Supervisor, RunAction) {
    let proxy = s.proxy_running;
    let finished = Supervisor { phase: Phase::Finished, proxy_running: proxy };
    match (s.phase, event) {
        (Phase::Launching, RunEvent::Launched(Ok(()))) | (
            Phase::Relaunching,
            RunEvent::Launched(Ok(())),
        ) => (Supervisor { phase: Phase::Checking, proxy_running: proxy }, RunAction::ReadPid),
        (Phase::Launching, RunEvent::Launched(Err(e))) | (
            Phase::Relaunching,
            RunEvent::Launched(Err(e)),
        ) => (finished, RunAction::Fail(e)),
        (Phase::Checking, RunEvent::PidRead(Some(pid))) => (
            Supervisor { phase: Phase::Watching { pid }, proxy_running: true },
            RunAction::Watch { pid, start_signal_proxy: !proxy },
        ),
        (Phase::Checking, RunEvent::PidRead(None)) => (
            finished,
            RunAction::Fail(SwapError::FailedChildBootNoPid),
        ),
        (Phase::Watching { .. }, RunEvent::ChildHalted(Ok(code))) => (
            finished,
            RunAction::Exit(exit_code_of(code)),
        ),
        (Phase::Watching { .. }, RunEvent::ChildHalted(Err(message))) => (
            finished,
            RunAction::Fail(SwapError::ProcWaitFail { message }),
        ),
        (Phase::Watching { pid }, RunEvent::SwapRequested(request)) => (
            Supervisor { phase: Phase::TearingDown { pid, request }, proxy_running: false },
            RunAction::TearDown { pid },
        ),
        (Phase::TearingDown { request: SwapRequest::Command(cmd), .. }, RunEvent::TornDown) => (
            Supervisor { phase: Phase::Relaunching, proxy_running: proxy },
            RunAction::Launch(cmd),
        ),
        (Phase::TearingDown { request: SwapRequest::ChannelClosed, .. }, RunEvent::TornDown) => (
            finished,
            RunAction::Fail(SwapError::ListenerHalted),
        ),
        (Phase::TearingDown { request: SwapRequest::TaskFailed(m), .. }, RunEvent::TornDown) => (
            finished,
            RunAction::Abort(m),
        ),
        (Phase::Checking, RunEvent::ListenerStopped) | (
            Phase::Watching { .. },
            RunEvent::ListenerStopped,
        ) | (Phase::TearingDown { .. }, RunEvent::ListenerStopped) | (
            Phase::Relaunching,
            RunEvent::ListenerStopped,
        ) => (finished, RunAction::Fail(SwapError::ListenerHalted)),
        _ => (s, RunAction::Ignore),
    }
}

/// A signal-forwarding task runs exactly while a child is watched; before
/// the first watch, between a swap request and the next watch, nothing
/// forwards signals.
pub open spec fn wf(s: Supervisor) -> bool {
    match s.phase {
        Phase::Watching { .. } => s.proxy_running,
        Phase::Finished => true,
        _ => !s.proxy_running,
    }
}

/// Every event keeps the supervisor well formed.
pub proof fn lemma_step_keeps_wf(s: Supervisor, event: RunEvent)
    requires
        wf(s),
    ensures
        wf(next_spec(s, event).0),
{
}

/// Each child that comes to be watched gets a signal-forwarding task of its
/// own: every `Watch` starts one.
pub proof fn lemma_watch_starts_proxy(s: Supervisor, event: RunEvent)
    requires
        wf(s),
    ensures
        next_spec(s, event).1 matches RunAction::Watch { start_signal_proxy, .. }
            ==> start_signal_proxy,
{
}

/// When the watched child exits, the supervisor exits with the child's exit
/// code (1 when a signal ended the child), and supervision is over.
pub proof fn lemma_exit_code_passed_on(s: Supervisor, code: Option<i32>)
    requires
        s.phase is Watching,
    ensures
        next_spec(s, RunEvent::ChildHalted(Ok(code))).1 == RunAction::Exit(exit_code_of(code)),
        next_spec(s, RunEvent::ChildHalted(Ok(code))).0.phase is Finished,
        code matches Some(c) ==> next_spec(s, RunEvent::ChildHalted(Ok(code))).1
            == RunAction::Exit(c),
        code is None ==> next_spec(s, RunEvent::ChildHalted(Ok(code))).1 == RunAction::Exit(1),
{
}

/// The code passed on is the child's own exit code, whatever it is; a child
/// ended by a signal, which has no exit code, gives 1.
pub proof fn lemma_exit_code_is_the_childs(c: i32)
    ensures
        exit_code_of(Some(c)) == c,
        exit_code_of(None) == 1,
{
}

/// A failed start, of the first child or of a requested one, ends
/// supervision with that very error.
pub proof fn lemma_failed_launch_ends(s: Supervisor, e: SwapError)
    requires
        s.phase is Launching || s.phase is Relaunching,
    ensures
        next_spec(s, RunEvent::Launched(Err(e))).0.phase is Finished,
        next_spec(s, RunEvent::Launched(Err(e))).1 == RunAction::Fail(e),
{
}

/// A child is watched only once it was started and reported its pid, and
/// the pid watched is the one it reported.
pub proof fn lemma_watch_only_after_pid(s: Supervisor, event: RunEvent, pid: u32, start: bool)
    requires
        next_spec(s, event).1 == (RunAction::Watch { pid, start_signal_proxy: start }),
    ensures
        s.phase is Checking,
        event == RunEvent::PidRead(Some(pid)),
        next_spec(s, event).0.phase == (Phase::Watching { pid }),
{
}

/// The supervisor exits with a code only when the watched child ended with
/// that code.
pub proof fn lemma_exit_only_on_child_exit(s: Supervisor, event: RunEvent, c: i32)
    requires
        next_spec(s, event).1 == RunAction::Exit(c),
    ensures
        s.phase is Watching,
        event matches RunEvent::ChildHalted(Ok(code)) && exit_code_of(code) == c,
        event matches RunEvent::ChildHalted(Ok(Some(k))) ==> c == k,
        event == RunEvent::ChildHalted(Ok(None)) ==> c == 1,
{
}

/// A swap request for `cmd` against the watched child `pid` tears `pid`
/// down first; once it is gone `cmd` is started; once started, its pid is
/// read; and the new child, once its pid is known, is watched with its own
/// signal forwarding.
pub proof fn lemma_swap_sequence(pid: u32, cmd: BabyCommand, new_pid: u32)
    ensures
        ({
            let s0 = Supervisor { phase: Phase::Watching { pid }, proxy_running: true };
            let (s1, a1) = next_spec(s0, RunEvent::SwapRequested(SwapRequest::Command(cmd)));
            let (s2, a2) = next_spec(s1, RunEvent::TornDown);
            let (s3, a3) = next_spec(s2, RunEvent::Launched(Ok(())));
            let (s4, a4) = next_spec(s3, RunEvent::PidRead(Some(new_pid)));
            &&& a1 == RunAction::TearDown { pid }
            &&& a2 == RunAction::Launch(cmd)
            &&& a3 == RunAction::ReadPid
            &&& a4 == RunAction::Watch { pid: new_pid, start_signal_proxy: true }
            &&& s4 == Supervisor { phase: Phase::Watching { pid: new_pid }, proxy_running: true }
        }),
{
}

/// A child is started only at the beginning, or after the child it replaces
/// was torn down, and then from the command that was requested.
pub proof fn lemma_launch_only_after_teardown(s: Supervisor, event: RunEvent, cmd: BabyCommand)
    requires
        next_spec(s, event).1 == RunAction::Launch(cmd),
    ensures
        s.phase matches Phase::TearingDown { request, .. } && request == SwapRequest::Command(cmd),
        event is TornDown,
{
}

/// A supervisor that has finished stays finished, and does nothing more.
pub proof fn lemma_finished_is_final(s: Supervisor, event: RunEvent)
    requires
        s.phase is Finished,
    ensures
        next_spec(s, event) == (s, RunAction::Ignore),
{
}

/// Once supervision runs, a stopped swap listener ends it with
/// `ListenerHalted`.
pub proof fn lemma_listener_stop_ends(s: Supervisor)
    requires
        !(s.phase is Launching),
        !(s.phase is Finished),
    ensures
        next_spec(s, RunEvent::ListenerStopped).1 == RunAction::Fail(SwapError::ListenerHalted),
        next_spec(s, RunEvent::ListenerStopped).0.phase is Finished,
{
}

impl Supervisor {
    /// Begins supervising: the first child is started from `cmd`.
    pub fn start(cmd: BabyCommand) -> (res: (Supervisor, RunAction))
        ensures
            res.0.phase is Launching,
            !res.0.proxy_running,
            wf(res.0),
            res.1 == RunAction::Launch(cmd),
    {
        (Supervisor { phase: Phase::Launching, proxy_running: false }, RunAction::Launch(cmd))
    }

    /// Takes in what the caller reports, and says what to do next.
    pub fn step(self, event: RunEvent) -> (res: (Supervisor, RunAction))
        ensures
            res == next_spec(self, event),
    {
        let Supervisor { phase, proxy_running } = self;
        match (phase, event) {
            (Phase::Launching, RunEvent::Launched(Ok(()))) | (
                Phase::Relaunching,
                RunEvent::Launched(Ok(())),
            ) => (Supervisor { phase: Phase::Checking, proxy_running }, RunAction::ReadPid),
            (Phase::Launching, RunEvent::Launched(Err(e))) | (
                Phase::Relaunching,
                RunEvent::Launched(Err(e)),
            ) => (Supervisor { phase: Phase::Finished, proxy_running }, RunAction::Fail(e)),
            (Phase::Checking, RunEvent::PidRead(Some(pid))) => (
                Supervisor { phase: Phase::Watching { pid }, proxy_running: true },
                RunAction::Watch { pid, start_signal_proxy: !proxy_running },
            ),
            (Phase::Checking, RunEvent::PidRead(None)) => (
                Supervisor { phase: Phase::Finished, proxy_running },
                RunAction::Fail(SwapError::FailedChildBootNoPid),
            ),
            (Phase::Watching { .. }, RunEvent::ChildHalted(Ok(code))) => (
                Supervisor { phase: Phase::Finished, proxy_running },
                RunAction::Exit(exit_code(code)),
            ),
            (Phase::Watching { .. }, RunEvent::ChildHalted(Err(message))) => (
                Supervisor { phase: Phase::Finished, proxy_running },
                RunAction::Fail(SwapError::ProcWaitFail { message }),
            ),
            (Phase::Watching { pid }, RunEvent::SwapRequested(request)) => (
                Supervisor { phase: Phase::TearingDown { pid, request }, proxy_running: false },
                RunAction::TearDown { pid },
            ),
            (Phase::TearingDown { request, .. }, RunEvent::TornDown) => match request {
                SwapRequest::Command(cmd) => (
                    Supervisor { phase: Phase::Relaunching, proxy_running },
                    RunAction::Launch(cmd),
                ),
                SwapRequest::ChannelClosed => (
                    Supervisor { phase: Phase::Finished, proxy_running },
                    RunAction::Fail(SwapError::ListenerHalted),
                ),
                SwapRequest::TaskFailed(m) => (
                    Supervisor { phase: Phase::Finished, proxy_running },
                    RunAction::Abort(m),
                ),
            },
            (Phase::Checking, RunEvent::ListenerStopped) | (
                Phase::Watching { .. },
                RunEvent::ListenerStopped,
            ) | (Phase::TearingDown { .. }, RunEvent::ListenerStopped) | (
                Phase::Relaunching,
                RunEvent::ListenerStopped,
            ) => (
                Supervisor { phase: Phase::Finished, proxy_running },
                RunAction::Fail(SwapError::ListenerHalted),
            ),
            (phase, _) => (Supervisor { phase, proxy_running }, RunAction::Ignore),
        }
    }
}

} // verus!
