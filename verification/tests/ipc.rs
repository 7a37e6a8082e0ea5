use swaperooni::baby_cmd::BabyCommand;
use swaperooni::error::SwapError;
use swaperooni::ipc::{command_from_text, parse_request, read_buffer, read_step, ReadStep, READ_BUFFER_LEN};

fn cmd(bin: &str, args: &[&str]) -> BabyCommand {
    BabyCommand { bin: bin.to_string(), args: args.iter().map(|a| a.to_string()).collect() }
}

fn buffer_with(msg: &str) -> Vec<u8> {
    let mut buf = read_buffer();
    buf[..msg.len()].copy_from_slice(msg.as_bytes());
    buf
}

#[test]
fn parses_program_and_arguments() {
    assert_eq!(command_from_text("node index.mjs 9\n"), cmd("node", &["index.mjs", "9"]));
}

#[test]
fn parses_program_alone() {
    assert_eq!(command_from_text("bash\n"), cmd("bash", &[]));
}

#[test]
fn only_the_first_line_counts() {
    assert_eq!(command_from_text("bash b.sh\nnode c.mjs\n"), cmd("bash", &["b.sh"]));
}

#[test]
fn runs_of_white_space_separate_arguments() {
    assert_eq!(command_from_text("bash  a\t b \n"), cmd("bash", &["a", "b"]));
}

#[test]
fn a_space_after_the_program_leaves_no_arguments() {
    assert_eq!(command_from_text("bash \n"), cmd("bash", &[]));
}

#[test]
fn tabs_stay_in_the_program_name() {
    assert_eq!(command_from_text("a\tb c\n"), cmd("a\tb", &["c"]));
}

#[test]
fn unicode_space_separates_arguments() {
    assert_eq!(command_from_text("run x\u{3000}y\n"), cmd("run", &["x", "y"]));
}

#[test]
fn empty_text_is_an_empty_program() {
    assert_eq!(command_from_text(""), cmd("", &[]));
}

#[test]
fn read_buffer_is_cleared() {
    let buf = read_buffer();
    assert_eq!(buf.len(), READ_BUFFER_LEN);
    assert_eq!(READ_BUFFER_LEN, 4095);
    assert!(buf.iter().all(|b| *b == 0));
}

#[test]
fn zero_bytes_read_closes() {
    let buf = buffer_with("bash b.sh\n");
    assert!(matches!(read_step(&buf, 0), ReadStep::Closed));
}

#[test]
fn a_request_in_the_buffer_is_read() {
    let buf = buffer_with("bash examples/ipc_bash_hopscotch/b.sh\n");
    match read_step(&buf, 39) {
        ReadStep::Request(c) => assert_eq!(c, cmd("bash", &["examples/ipc_bash_hopscotch/b.sh"])),
        _ => panic!("expected a request"),
    }
}

#[test]
fn without_newline_the_padding_stays_in_the_last_word() {
    let buf = buffer_with("bash b.sh");
    let parsed = parse_request(&buf).unwrap();
    assert_eq!(parsed.bin, "bash");
    assert_eq!(parsed.args.len(), 1);
    assert!(parsed.args[0].starts_with("b.sh\0"));
    assert_eq!(parsed.args[0].len(), READ_BUFFER_LEN - 5);
}

#[test]
fn invalid_utf8_is_refused() {
    let mut buf = read_buffer();
    buf[0] = b'a';
    buf[1] = 0xff;
    match read_step(&buf, 2) {
        ReadStep::Invalid(SwapError::ListenerSocketInvalidCmd { message }) => {
            assert_eq!(message, String::from_utf8(buf.clone()).unwrap_err().to_string());
        }
        _ => panic!("expected an invalid request"),
    }
}

#[test]
fn request_round_trip_on_concrete_values() {
    let c = cmd("node", &["examples/ipc_node_counter/index.mjs", "10"]);
    let line = format!("{} {}\n", c.bin, c.args.join(" "));
    let buf = buffer_with(&line);
    assert_eq!(parse_request(&buf).unwrap(), c);
}

#[test]
fn a_parsed_request_parses_back_to_itself() {
    let first = command_from_text("a\tb   c  d\u{2003}e\nignored");
    let line = if first.args.is_empty() {
        format!("{}\n", first.bin)
    } else {
        format!("{} {}\n", first.bin, first.args.join(" "))
    };
    assert_eq!(command_from_text(&line), first);
    assert_eq!(first, cmd("a\tb", &["c", "d", "e"]));
}
