//! From the command line to the first command and the swap listener.
use vstd::prelude::*;

use crate::baby_cmd::{copy_strings, BabyCommand, BabyCommandView};
use crate::cli::{IpcCmd, PollCmd, SwapCmd};
use crate::text::{join_words, strings_view};

verus! {

/// The command that is started first: the watched executable with its
/// arguments; or the words given after `--`, the first the program and the
/// rest its arguments (fewer than two words, joined by spaces, make the
/// program alone).
pub open spec fn initial_command(swap_cmd: SwapCmd) -> BabyCommandView {
    match swap_cmd {
        SwapCmd::Poll(poll) => BabyCommandView { bin: poll.exe@, args: strings_view(poll.args@) },
        SwapCmd::Ipc(ipc) => {
            let words = strings_view(ipc.cmd@);
            if words.len() < 2 {
                BabyCommandView { bin: join_words(words), args: Seq::empty() }
            } else {
                BabyCommandView { bin: words[0], args: words.drop_first() }
            }
        },
    }
}

/// A watched executable is run, and re-run, as given: the watched file is
/// the program, with the arguments given after it.
pub proof fn lemma_poll_reruns_the_executable(poll: PollCmd)
    ensures
        initial_command(SwapCmd::Poll(poll)) == (BabyCommandView {
            bin: poll.exe@,
            args: strings_view(poll.args@),
        }),
{
}

/// With `ipc`, the words after `--` are the program followed by its
/// arguments, in order, when there are at least two; a single word is the
/// program alone, and no words make an empty program.
pub proof fn lemma_ipc_words_split(ipc: IpcCmd)
    ensures
        ({
            let words = strings_view(ipc.cmd@);
            let c = initial_command(SwapCmd::Ipc(ipc));
            &&& words.len() >= 2 ==> seq![c.bin] + c.args == words
            &&& words.len() >= 2 ==> c.args.len() == words.len() - 1
            &&& words.len() == 1 ==> c.bin == words[0] && c.args.len() == 0
            &&& words.len() == 0 ==> c.bin.len() == 0 && c.args.len() == 0
        }),
{
    let words = strings_view(ipc.cmd@);
    let c = initial_command(SwapCmd::Ipc(ipc));
    if words.len() >= 2 {
        assert(seq![c.bin] + c.args =~= words);
    }
}

/// The first command for a command line.
pub fn first_command(swap_cmd: &SwapCmd) -> (res: BabyCommand)
    ensures
        res@ == initial_command(*swap_cmd),
{
    match swap_cmd {
        SwapCmd::Poll(poll) => BabyCommand { bin: poll.exe.clone(), args: copy_strings(&poll.args) },
        SwapCmd::Ipc(ipc) => {
            let ghost words = strings_view(ipc.cmd@);
            let args: Vec<String> = Vec::new();
            proof {
                assert(strings_view(args@) =~= Seq::<Seq<char>>::empty());
            }
            if ipc.cmd.len() == 0 {
                BabyCommand { bin: String::new(), args }
            } else if ipc.cmd.len() == 1 {
                BabyCommand { bin: ipc.cmd[0].clone(), args }
            } else {
                let mut rest: Vec<String> = Vec::new();
                let mut i: usize = 1;
                while i < ipc.cmd.len()
                    invariant
                        1 <= i <= ipc.cmd.len(),
                        rest@ == ipc.cmd@.subrange(1, i as int),
                    decreases ipc.cmd.len() - i,
                {
                    rest.push(ipc.cmd[i].clone());
                    proof {
                        assert(rest@ =~= ipc.cmd@.subrange(1, i + 1));
                    }
                    i += 1;
                }
                proof {
                    assert(strings_view(rest@) =~= words.drop_first());
                }
                BabyCommand { bin: ipc.cmd[0].clone(), args: rest }
            }
        },
    }
}

/// What listens for swap requests.
pub enum Listener {
    /// Watch `poll.exe`, and ask for `cmd` again each time it changes.
    Poll { poll: PollCmd, cmd: BabyCommand },
    /// Take requests over the socket that `IpcCmd` names.
    Ipc(IpcCmd),
}

/// The command line, and the first command that it names.
pub struct Init {
    swap_cmd: SwapCmd,
    pub cmd: BabyCommand,
}

impl Init {
    /// The command line that this was made from.
    pub closed spec fn source(&self) -> SwapCmd {
        self.swap_cmd
    }

    /// The first command.
    pub closed spec fn command(&self) -> BabyCommand {
        self.cmd
    }

    /// Takes apart into the listener for swap requests and the first
    /// command; the poll listener gets a copy of the first command.
    pub fn to_tup(self) -> (res: (Listener, BabyCommand))
        ensures
            res.1 == self.command(),
            match self.source() {
                SwapCmd::Poll(poll) => res.0 matches Listener::Poll { poll: p, cmd } && p == poll
                    && cmd@ == self.command()@,
                SwapCmd::Ipc(ipc) => res.0 == Listener::Ipc(ipc),
            },
    {
        let Init { swap_cmd, cmd } = self;
        let listener = match swap_cmd {
            SwapCmd::Poll(poll) => Listener::Poll { poll, cmd: cmd.copy() },
            SwapCmd::Ipc(ipc_cmd) => Listener::Ipc(ipc_cmd),
        };
        (listener, cmd)
    }
}

/// `Init::from` builds new strings, which no spec function can name; its
/// own `ensures` says what the result holds.
impl vstd::std_specs::convert::FromSpecImpl<SwapCmd> for Init {
    open spec fn obeys_from_spec() -> bool {
        false
    }

    open spec fn from_spec(v: SwapCmd) -> Init {
        arbitrary()
    }
}

impl From<SwapCmd> for Init {
    /// Reads the first command off the command line.
    fn from(swap_cmd: SwapCmd) -> (res: Init)
        ensures
            res.source() == swap_cmd,
            res.command()@ == initial_command(swap_cmd),
    {
        let cmd = first_command(&swap_cmd);
        Init { swap_cmd, cmd }
    }
}

} // verus!
