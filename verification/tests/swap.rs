use swaperooni::baby_cmd::BabyCommand;
use swaperooni::error::SwapError;
use swaperooni::poll::PollWatch;
use swaperooni::swap::{
    kill_args, PidProbe, ProbeAction, SwapBuilder, KILL_GRACE_SECS, KILL_SIGNAL, PID_PROBE_TRIES,
    TERM_SIGNAL,
};
use swaperooni::text::{decimal_text, is_space_char, signed_decimal_text};
use swaperooni::version::SwapVersion;

fn echo() -> BabyCommand {
    BabyCommand { bin: "echo".to_string(), args: vec!["foobar".to_string()] }
}

#[test]
fn builder_copies_the_command() {
    let b = SwapBuilder::new(&echo());
    assert_eq!(b.cmd, echo());
    let v = SwapBuilder::new_version(&echo(), SwapVersion::from(1)).unwrap();
    assert_eq!(v.cmd, echo());
}

#[test]
fn kill_args_render_signal_and_pid() {
    assert_eq!(kill_args(4321, 15), vec!["-15".to_string(), "4321".to_string()]);
    assert_eq!(kill_args(0, 9), vec!["-9".to_string(), "0".to_string()]);
    assert_eq!(kill_args(u32::MAX, -3), vec!["--3".to_string(), "4294967295".to_string()]);
}

#[test]
fn decimal_matches_display() {
    for n in [0u64, 7, 10, 99, 100, 12345, u64::MAX] {
        assert_eq!(decimal_text(n), n.to_string());
    }
    for n in [-1i64, -10, 0, 42, i64::MIN + 1, i64::MIN, i64::MAX] {
        assert_eq!(signed_decimal_text(n), n.to_string());
    }
}

#[test]
fn white_space_matches_std() {
    for c in ['\u{0}', 'a', ' ', '\t', '\n', '\r', '\u{b}', '\u{c}', '\u{85}', '\u{a0}', '\u{1680}',
        '\u{2000}', '\u{200a}', '\u{200b}', '\u{2028}', '\u{2029}', '\u{202f}', '\u{205f}', '\u{3000}', '\u{feff}'] {
        assert_eq!(is_space_char(c), c.is_whitespace());
    }
}

#[test]
fn teardown_signals() {
    assert_eq!(TERM_SIGNAL, 15);
    assert_eq!(KILL_SIGNAL, 9);
    assert_eq!(KILL_GRACE_SECS, 5);
}

#[test]
fn probe_returns_the_first_pid() {
    let mut probe = PidProbe::new();
    assert!(matches!(probe.next_action(), ProbeAction::Probe));
    assert_eq!(probe.observe(None, None), None);
    assert_eq!(probe.tries_left, PID_PROBE_TRIES - 1);
    assert_eq!(probe.observe(None, Some(77)), Some(Ok(77)));
}

#[test]
fn probe_gives_up_after_ten_tries() {
    let mut probe = PidProbe::new();
    let mut seen = 0;
    while let ProbeAction::Probe = probe.next_action() {
        assert_eq!(probe.observe(None, None), None);
        seen += 1;
    }
    assert_eq!(seen, 10);
    match probe.next_action() {
        ProbeAction::GiveUp(SwapError::FailedChildBoot(m)) => {
            assert_eq!(m, "failed to get pid for process attempting to launch")
        }
        _ => panic!("expected to give up"),
    }
}

#[test]
fn probe_wait_error_fails() {
    let mut probe = PidProbe::new();
    assert_eq!(
        probe.observe(Some("boom".to_string()), Some(3)),
        Some(Err(SwapError::FailedChildBoot("boom".to_string())))
    );
}

#[test]
fn poll_fires_on_every_change() {
    let mut w = PollWatch::new(100);
    assert!(!w.observe(100));
    assert!(w.observe(101));
    assert!(!w.observe(101));
    assert!(w.observe(50));
    assert!(w.observe(60));
    assert_eq!(w.last_modified, 60);
}

#[test]
fn poll_samples_give_three_swaps() {
    let mut w = PollWatch::new(100);
    let fired: Vec<bool> = [100u128, 200, 200, 150, 300].iter().map(|t| w.observe(*t)).collect();
    assert_eq!(fired, vec![false, true, false, true, true]);
}
