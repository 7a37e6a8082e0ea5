//! Starting children: the builder, the wait for a new child's pid, and the
//! signals that stop a child.
use vstd::prelude::*;

use crate::baby_cmd::BabyCommand;
use crate::error::SwapError;
use crate::text::{
    decimal, decimal_text, digits_value, is_numeral, lemma_decimal_denotes,
    lemma_signed_decimal_denotes, signed_decimal, signed_decimal_text, signed_digits_value,
    strings_view,
};
use crate::version::SwapVersion;

verus! {

/// The signal that asks a child to stop (SIGTERM).
pub const TERM_SIGNAL: i32 = 15;

/// The signal that stops a child at once (SIGKILL).
pub const KILL_SIGNAL: i32 = 9;

/// Seconds a child is given to stop after `TERM_SIGNAL` before it is sent
/// `KILL_SIGNAL`.
pub const KILL_GRACE_SECS: u64 = 5;

/// How many times a new child is asked for its pid before giving up.
pub const PID_PROBE_TRIES: u32 = 10;

/// Milliseconds between two asks for a new child's pid.
pub const PID_PROBE_INTERVAL_MS: u64 = 50;

/// The process that currently runs.
pub struct Swap {
    pub pid: u32,
}

/// The command that the first child is started from.
pub struct SwapBuilder {
    pub cmd: BabyCommand,
}

impl SwapBuilder {
    /// A builder for a copy of `cmd`.
    pub fn new(cmd: &BabyCommand) -> (res: SwapBuilder)
        ensures
            res.cmd@ == cmd@,
    {
        SwapBuilder { cmd: cmd.copy() }
    }

    /// A builder for a copy of `cmd`, labelled `version`; it never fails.
    pub fn new_version(cmd: &BabyCommand, version: SwapVersion) -> (res: Result<SwapBuilder, String>)
        ensures
            res matches Ok(builder) && builder.cmd@ == cmd@,
    {
        Ok(SwapBuilder { cmd: cmd.copy() })
    }
}

/// The message of the error that ends an unsuccessful wait for a pid.
pub open spec fn no_pid_message() -> Seq<char> {
    "failed to get pid for process attempting to launch"@
}

/// What to do next while waiting for a new child's pid.
pub enum ProbeAction {
    /// Check the child once more.
    Probe,
    /// Stop waiting: the child did not report a pid in time.
    GiveUp(SwapError),
}

/// Waiting for a newly spawned child to report its pid: at most
/// `PID_PROBE_TRIES` checks, `PID_PROBE_INTERVAL_MS` apart.
pub struct PidProbe {
    pub tries_left: u32,
}

impl PidProbe {
    /// A wait with every try left.
    pub fn new() -> (res: PidProbe)
        ensures
            res.tries_left == PID_PROBE_TRIES,
    {
        PidProbe { tries_left: PID_PROBE_TRIES }
    }

    /// Check again while tries are left; then give up.
    pub fn next_action(&self) -> (res: ProbeAction)
        ensures
            self.tries_left > 0 <==> res is Probe,
            res matches ProbeAction::GiveUp(e) ==> (e matches SwapError::FailedChildBoot(m)
                && m@ == no_pid_message()),
    {
        if self.tries_left > 0 {
            ProbeAction::Probe
        } else {
            ProbeAction::GiveUp(
                SwapError::FailedChildBoot("failed to get pid for process attempting to launch".to_owned()),
            )
        }
    }

    /// Takes in one check of the child: whether asking for its exit status
    /// failed (and why), and the pid it reports. A failure ends the wait with
    /// that failure; a pid ends it with the pid; otherwise one try is used up,
    /// and the caller sleeps `PID_PROBE_INTERVAL_MS` before the next action.
    pub fn observe(&mut self, wait_error: Option<String>, pid: Option<u32>) -> (res: Option<
        Result<u32, SwapError>,
    >)
        requires
            old(self).tries_left > 0,
        ensures
            wait_error matches Some(m) ==> res == Some(
                Err::<u32, SwapError>(SwapError::FailedChildBoot(m)),
            ),
            wait_error is None && pid is Some ==> res == Some(Ok::<u32, SwapError>(pid->0)),
            res is None <==> wait_error is None && pid is None,
            res is None ==> final(self).tries_left == old(self).tries_left - 1,
            res is Some ==> final(self).tries_left == old(self).tries_left,
    {
        match wait_error {
            Some(m) => Some(Err(SwapError::FailedChildBoot(m))),
            None => match pid {
                Some(p) => Some(Ok(p)),
                None => {
                    self.tries_left = self.tries_left - 1;
                    None
                },
            },
        }
    }
}

/// The arguments of the `kill` command that sends `signal` to `pid`:
/// `-<signal>` and `<pid>`, in decimal.
pub fn kill_args(pid: u32, signal: i32) -> (res: Vec<String>)
    ensures
        strings_view(res@) == seq![seq!['-'] + signed_decimal(signal as int), decimal(pid as nat)],
        res@.len() == 2,
        res@[0]@.len() > 1 && res@[0]@[0] == '-',
        signed_digits_value(res@[0]@.drop_first()) == signal,
        is_numeral(res@[1]@) && digits_value(res@[1]@) == pid,
{
    proof {
        reveal_strlit("-");
    }
    let mut flag = String::from_str("-");
    let number = signed_decimal_text(signal as i64);
    flag.append(number.as_str());
    assert(flag@ =~= seq!['-'] + signed_decimal(signal as int));
    let target = decimal_text(pid as u64);
    let mut res: Vec<String> = Vec::new();
    res.push(flag);
    res.push(target);
    proof {
        lemma_signed_decimal_denotes(signal as int);
        lemma_decimal_denotes(pid as nat);
        assert(flag@.drop_first() =~= signed_decimal(signal as int));
        assert(res@[0] == flag && res@[1] == target);
        assert(strings_view(res@) =~= seq![seq!['-'] + signed_decimal(signal as int), decimal(pid as nat)]);
    }
    res
}

} // verus!
