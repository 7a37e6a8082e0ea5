use swaperooni::baby_cmd::BabyCommand;
use swaperooni::cli::{IpcCmd, PollCmd, SwapCmd, DEFAULT_POLL_INTERVAL_MS};
use swaperooni::init::{first_command, Init, Listener};

fn ipc(words: &[&str]) -> SwapCmd {
    SwapCmd::Ipc(IpcCmd {
        socket_path: "demo.sock".to_string(),
        cmd: words.iter().map(|w| w.to_string()).collect(),
    })
}

#[test]
fn poll_runs_the_watched_file() {
    let c = SwapCmd::Poll(PollCmd {
        exe: "examples/poll_countdown/main.sh".to_string(),
        args: vec!["2".to_string()],
        poll_interval_ms: 1000,
    });
    let first = first_command(&c);
    assert_eq!(first.bin, "examples/poll_countdown/main.sh");
    assert_eq!(first.args, vec!["2".to_string()]);
}

#[test]
fn ipc_splits_program_and_arguments() {
    let first = first_command(&ipc(&["node", "examples/ipc_node_counter/index.mjs", "8"]));
    assert_eq!(first.bin, "node");
    assert_eq!(first.args, vec!["examples/ipc_node_counter/index.mjs".to_string(), "8".to_string()]);
}

#[test]
fn ipc_single_word_is_the_program() {
    let first = first_command(&ipc(&["top"]));
    assert_eq!(first, BabyCommand { bin: "top".to_string(), args: vec![] });
}

#[test]
fn ipc_no_words_is_an_empty_program() {
    let first = first_command(&ipc(&[]));
    assert_eq!(first, BabyCommand { bin: String::new(), args: vec![] });
}

#[test]
fn init_to_tup_poll_listener_gets_the_command() {
    let poll = PollCmd { exe: "main.sh".to_string(), args: vec![], poll_interval_ms: DEFAULT_POLL_INTERVAL_MS };
    let init = Init::from(SwapCmd::Poll(poll));
    assert_eq!(init.cmd.bin, "main.sh");
    let (listener, cmd) = init.to_tup();
    assert_eq!(cmd.bin, "main.sh");
    match listener {
        Listener::Poll { poll, cmd: again } => {
            assert_eq!(poll.exe, "main.sh");
            assert_eq!(poll.poll_interval_ms, 4000);
            assert_eq!(again, cmd);
        }
        Listener::Ipc(_) => panic!("expected a poll listener"),
    }
}

#[test]
fn init_to_tup_ipc_listener_gets_the_socket() {
    let (listener, cmd) = Init::from(ipc(&["bash", "a.sh"])).to_tup();
    assert_eq!(cmd, BabyCommand { bin: "bash".to_string(), args: vec!["a.sh".to_string()] });
    match listener {
        Listener::Ipc(i) => assert_eq!(i.socket_path, "demo.sock"),
        Listener::Poll { .. } => panic!("expected an ipc listener"),
    }
}
