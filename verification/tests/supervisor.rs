use swaperooni::baby_cmd::BabyCommand;
use swaperooni::error::SwapError;
use swaperooni::supervisor::{exit_code, Phase, RunAction, RunEvent, Supervisor, SwapRequest};

fn cmd(bin: &str) -> BabyCommand {
    BabyCommand { bin: bin.to_string(), args: vec![] }
}

fn watching(pid: u32) -> Supervisor {
    let (s, a) = Supervisor::start(cmd("a"));
    assert!(matches!(a, RunAction::Launch(_)));
    let (s, a) = s.step(RunEvent::Launched(Ok(())));
    assert!(matches!(a, RunAction::ReadPid));
    let (s, a) = s.step(RunEvent::PidRead(Some(pid)));
    assert!(matches!(a, RunAction::Watch { pid: p, start_signal_proxy: true } if p == pid));
    s
}

#[test]
fn child_exit_code_is_passed_on() {
    let (s, a) = watching(10).step(RunEvent::ChildHalted(Ok(Some(2))));
    assert!(matches!(a, RunAction::Exit(2)));
    assert!(matches!(s.phase, Phase::Finished));
}

#[test]
fn child_killed_by_signal_exits_with_one() {
    let (_, a) = watching(10).step(RunEvent::ChildHalted(Ok(None)));
    assert!(matches!(a, RunAction::Exit(1)));
    assert_eq!(exit_code(Some(0)), 0);
    assert_eq!(exit_code(None), 1);
}

#[test]
fn wait_failure_is_reported() {
    let (_, a) = watching(10).step(RunEvent::ChildHalted(Err("gone".to_string())));
    match a {
        RunAction::Fail(SwapError::ProcWaitFail { message }) => assert_eq!(message, "gone"),
        _ => panic!("expected a failure"),
    }
}

#[test]
fn swap_tears_down_then_launches() {
    let s = watching(10);
    let (s, a) = s.step(RunEvent::SwapRequested(SwapRequest::Command(cmd("b"))));
    assert!(matches!(a, RunAction::TearDown { pid: 10 }));
    assert!(!s.proxy_running);
    let (s, a) = s.step(RunEvent::TornDown);
    match a {
        RunAction::Launch(c) => assert_eq!(c, cmd("b")),
        _ => panic!("expected a launch"),
    }
    let (s, a) = s.step(RunEvent::Launched(Ok(())));
    assert!(matches!(a, RunAction::ReadPid));
    let (s, a) = s.step(RunEvent::PidRead(Some(11)));
    assert!(matches!(a, RunAction::Watch { pid: 11, start_signal_proxy: true }));
    assert!(matches!(s.phase, Phase::Watching { pid: 11 }));
}

#[test]
fn closed_channel_halts_after_teardown() {
    let (s, a) = watching(10).step(RunEvent::SwapRequested(SwapRequest::ChannelClosed));
    assert!(matches!(a, RunAction::TearDown { pid: 10 }));
    let (_, a) = s.step(RunEvent::TornDown);
    assert!(matches!(a, RunAction::Fail(SwapError::ListenerHalted)));
}

#[test]
fn failed_request_task_aborts() {
    let (s, _) = watching(10).step(RunEvent::SwapRequested(SwapRequest::TaskFailed("panic".to_string())));
    let (_, a) = s.step(RunEvent::TornDown);
    assert!(matches!(a, RunAction::Abort(m) if m == "panic"));
}

#[test]
fn missing_pid_fails() {
    let (s, _) = Supervisor::start(cmd("a"));
    let (s, _) = s.step(RunEvent::Launched(Ok(())));
    let (_, a) = s.step(RunEvent::PidRead(None));
    assert!(matches!(a, RunAction::Fail(SwapError::FailedChildBootNoPid)));
}

#[test]
fn launch_failure_fails() {
    let (s, _) = Supervisor::start(cmd("a"));
    let (s, a) = s.step(RunEvent::Launched(Err(SwapError::FailedChildBoot("no such file".to_string()))));
    assert!(matches!(a, RunAction::Fail(SwapError::FailedChildBoot(_))));
    assert!(matches!(s.phase, Phase::Finished));
}

#[test]
fn listener_stop_halts() {
    let (s, a) = watching(3).step(RunEvent::ListenerStopped);
    assert!(matches!(a, RunAction::Fail(SwapError::ListenerHalted)));
    let (_, a) = s.step(RunEvent::ChildHalted(Ok(Some(0))));
    assert!(matches!(a, RunAction::Ignore));
}

#[test]
fn unexpected_events_are_ignored() {
    let (s, _) = Supervisor::start(cmd("a"));
    let (s, a) = s.step(RunEvent::TornDown);
    assert!(matches!(a, RunAction::Ignore));
    assert!(matches!(s.phase, Phase::Launching));
    let (s, a) = s.step(RunEvent::ListenerStopped);
    assert!(matches!(a, RunAction::Ignore));
    assert!(matches!(s.phase, Phase::Launching));
}

#[test]
fn forwarding_stops_at_the_first_failure() {
    assert_eq!(swaperooni::supervisor::forward_outcome(Ok(())), None);
    assert_eq!(
        swaperooni::supervisor::forward_outcome(Err("failed to kill pid 7".to_string())),
        Some(SwapError::SignalProxyFailed { message: "failed to kill pid 7".to_string() })
    );
}
