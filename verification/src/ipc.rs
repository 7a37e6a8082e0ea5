//! Swap requests received over the IPC socket: a newline-terminated command
//! line, `program arg arg ...`.
use vstd::prelude::*;
use vstd::utf8::{decode_utf8, valid_utf8};

use crate::baby_cmd::{BabyCommand, BabyCommandView};
use crate::error::SwapError;
use crate::text::{
    chars_of, find_char, first_index, is_space, join_words, lemma_first_index_unique, lemma_index_from,
    lemma_run_end, lemma_run_end_unique, run_end, split_words, strings_view, words_from,
};

verus! {

/// Size of the buffer that one read from the socket fills.
pub const READ_BUFFER_LEN: usize = 4095;

/// The text before the first newline (all of it when there is none).
pub open spec fn first_line(t: Seq<char>) -> Seq<char> {
    t.subrange(0, first_index(t, '\n'))
}

/// The command a request line names: up to its first space the program,
/// and the words after that space the arguments; with no space, the whole
/// line is the program.
pub open spec fn command_of_line(line: Seq<char>) -> BabyCommandView {
    let k = first_index(line, ' ');
    if k < line.len() {
        BabyCommandView { bin: line.subrange(0, k), args: words_from(line, k + 1) }
    } else {
        BabyCommandView { bin: line, args: Seq::empty() }
    }
}

/// The command that a received text asks for: that of its first line.
pub open spec fn command_of_text(t: Seq<char>) -> BabyCommandView {
    command_of_line(first_line(t))
}

/// The line that asks for `cmd`: the program, then each argument after a
/// space.
pub open spec fn request_line(cmd: BabyCommandView) -> Seq<char> {
    if cmd.args.len() == 0 {
        cmd.bin
    } else {
        cmd.bin + seq![' '] + join_words(cmd.args)
    }
}

/// A word: at least one character, and no white space.
pub open spec fn is_word(w: Seq<char>) -> bool {
    w.len() > 0 && forall|i: int| 0 <= i < w.len() ==> !is_space(#[trigger] w[i])
}

/// A command that a request line can carry: a program without spaces or
/// newlines, and arguments that are words.
pub open spec fn is_requestable(cmd: BabyCommandView) -> bool {
    &&& forall|i: int| 0 <= i < cmd.bin.len() ==> #[trigger] cmd.bin[i] != ' ' && cmd.bin[i] != '\n'
    &&& forall|i: int| 0 <= i < cmd.args.len() ==> is_word(#[trigger] cmd.args[i])
}

/// Each character of joined words is a space or not white space.
proof fn lemma_join_chars(ws: Seq<Seq<char>>)
    requires
        forall|i: int| 0 <= i < ws.len() ==> is_word(#[trigger] ws[i]),
    ensures
        forall|j: int|
            0 <= j < join_words(ws).len() ==> #[trigger] join_words(ws)[j] == ' ' || !is_space(
                join_words(ws)[j],
            ),
    decreases ws.len(),
{
    if ws.len() >= 2 {
        let rest = ws.drop_first();
        assert forall|i: int| 0 <= i < rest.len() implies is_word(#[trigger] rest[i]) by {
            assert(rest[i] == ws[i + 1]);
        }
        lemma_join_chars(rest);
        let w = ws[0];
        assert(is_word(w));
        let j = join_words(ws);
        assert forall|k: int| 0 <= k < j.len() implies #[trigger] j[k] == ' ' || !is_space(j[k]) by {
            if k < w.len() {
                assert(j[k] == w[k]);
            } else if k > w.len() {
                assert(j[k] == join_words(rest)[k - w.len() - 1]);
            }
        }
    } else if ws.len() == 1 {
        assert(is_word(ws[0]));
    }
}

/// The words of a text that, from position `i` on, is `ws` joined by
/// spaces, are `ws`.
proof fn lemma_words_of_join(s: Seq<char>, i: int, ws: Seq<Seq<char>>)
    requires
        0 <= i <= s.len(),
        s.subrange(i, s.len() as int) == join_words(ws),
        forall|k: int| 0 <= k < ws.len() ==> is_word(#[trigger] ws[k]),
    ensures
        words_from(s, i) == ws,
    decreases ws.len(),
{
    if ws.len() == 0 {
        assert(s.subrange(i, s.len() as int).len() == 0);
        assert(words_from(s, i) =~= ws);
    } else {
        let w = ws[0];
        assert(is_word(w));
        let e = i + w.len();
        let tail = s.subrange(i, s.len() as int);
        if ws.len() == 1 {
            assert(join_words(ws) == w);
        } else {
            assert(join_words(ws) == w + seq![' '] + join_words(ws.drop_first()));
        }
        assert(e <= s.len());
        assert forall|k: int| i <= k < e implies !is_space(s[k]) by {
            assert(tail[k - i] == s[k]);
            assert(tail[k - i] == w[k - i]);
        }
        assert(tail[0] == w[0]);
        assert(!is_space(s[i]));
        if ws.len() == 1 {
            assert(e == s.len());
            lemma_run_end_unique(s, i + 1, e);
            assert(s.subrange(i, e) =~= w);
            assert(words_from(s, e) =~= Seq::<Seq<char>>::empty());
            assert(words_from(s, i) =~= ws);
        } else {
            let rest = ws.drop_first();
            assert(tail[w.len() as int] == ' ');
            assert(tail[w.len() as int] == s[e]);
            lemma_run_end_unique(s, i + 1, e);
            assert(s.subrange(i, e) =~= w);
            let jr = join_words(rest);
            assert(tail == w + seq![' '] + jr);
            assert(s.len() == e + 1 + jr.len());
            assert forall|k: int| 0 <= k < jr.len() implies s[e + 1 + k] == jr[k] by {
                assert(tail[w.len() + 1 + k] == s[e + 1 + k]);
                assert((w + seq![' '] + jr)[w.len() + 1 + k] == jr[k]);
            }
            assert(s.subrange(e + 1, s.len() as int) =~= jr);
            assert forall|k: int| 0 <= k < rest.len() implies is_word(#[trigger] rest[k]) by {
                assert(rest[k] == ws[k + 1]);
            }
            lemma_words_of_join(s, e + 1, rest);
            assert(words_from(s, e) == words_from(s, e + 1));
            assert(words_from(s, i) =~= ws);
        }
    }
}

/// A request line, with a newline and anything after it, asks for the
/// command it was written for.
pub proof fn lemma_request_round_trip(cmd: BabyCommandView, rest: Seq<char>)
    requires
        is_requestable(cmd),
    ensures
        command_of_text(request_line(cmd) + seq!['\n'] + rest) == cmd,
{
    let line = request_line(cmd);
    let t = line + seq!['\n'] + rest;
    let b = cmd.bin;
    lemma_join_chars(cmd.args);
    assert forall|j: int| 0 <= j < line.len() implies t[j] != '\n' by {
        assert(t[j] == line[j]);
        if j < b.len() {
            assert(line[j] == b[j]);
        } else if j > b.len() {
            assert(line[j] == join_words(cmd.args)[j - b.len() - 1]);
        }
    }
    assert(t[line.len() as int] == '\n');
    lemma_first_index_unique(t, '\n', line.len() as int);
    assert(first_line(t) =~= line);
    if cmd.args.len() == 0 {
        assert forall|j: int| 0 <= j < line.len() implies line[j] != ' ' by {
            assert(line[j] == b[j]);
        }
        lemma_first_index_unique(line, ' ', line.len() as int);
        assert(command_of_line(line).args =~= cmd.args);
    } else {
        assert forall|j: int| 0 <= j < b.len() implies line[j] != ' ' by {
            assert(line[j] == b[j]);
        }
        assert(line[b.len() as int] == ' ');
        lemma_first_index_unique(line, ' ', b.len() as int);
        assert(line.subrange(0, b.len() as int) =~= b);
        assert(line.subrange(b.len() as int + 1, line.len() as int) =~= join_words(cmd.args));
        lemma_words_of_join(line, b.len() as int + 1, cmd.args);
    }
}

/// Every word of `s` from position `i` on is a word: not empty, and
/// without white space.
proof fn lemma_words_are_words(s: Seq<char>, i: int)
    ensures
        forall|k: int| 0 <= k < words_from(s, i).len() ==> is_word(#[trigger] words_from(s, i)[k]),
    decreases s.len() - i,
{
    if 0 <= i < s.len() {
        if is_space(s[i]) {
            lemma_words_are_words(s, i + 1);
            assert(words_from(s, i) == words_from(s, i + 1));
        } else {
            let j = run_end(s, i + 1);
            lemma_run_end(s, i + 1);
            lemma_words_are_words(s, j);
            let w = s.subrange(i, j);
            assert forall|k: int| 0 <= k < w.len() implies !is_space(#[trigger] w[k]) by {
                assert(w[k] == s[i + k]);
            }
            let ws = words_from(s, i);
            assert(ws == seq![w] + words_from(s, j));
            assert(is_word(w));
            assert forall|k: int| 0 <= k < ws.len() implies is_word(#[trigger] ws[k]) by {
                if k > 0 {
                    assert(ws[k] == words_from(s, j)[k - 1]);
                } else {
                    assert(ws[k] == w);
                }
            }
        }
    }
}

/// Whatever text is received, the command it asks for is one that a request
/// line can carry, and writing that request line asks for the same command
/// again.
pub proof fn lemma_received_commands_are_requestable(t: Seq<char>, rest: Seq<char>)
    ensures
        is_requestable(command_of_text(t)),
        command_of_text(request_line(command_of_text(t)) + seq!['\n'] + rest) == command_of_text(t),
{
    let line = first_line(t);
    lemma_index_from(t, '\n', 0);
    assert forall|j: int| 0 <= j < line.len() implies line[j] != '\n' by {
        assert(line[j] == t[j]);
    }
    lemma_index_from(line, ' ', 0);
    let c = first_index(line, ' ');
    if c < line.len() {
        lemma_words_are_words(line, c + 1);
        let b = line.subrange(0, c);
        assert forall|j: int| 0 <= j < b.len() implies #[trigger] b[j] != ' ' && b[j] != '\n' by {
            assert(b[j] == line[j]);
        }
    }
    lemma_request_round_trip(command_of_text(t), rest);
}

/// What a read of `n` bytes into `buf` means.
pub enum ReadStep {
    /// The peer sent nothing more: stop reading this connection.
    Closed,
    /// The peer asked for this command to be swapped in.
    Request(BabyCommand),
    /// The bytes are not a request: stop with this error.
    Invalid(SwapError),
}

/// Names what `alloc::string::FromUtf8Error`'s `Display` renders for a byte
/// sequence that is not UTF-8.
pub uninterp spec fn utf8_error_text(bytes: Seq<u8>) -> Seq<char>;

/// Decodes `bytes` with `String::from_utf8`. Its documentation: the result
/// is `Ok` exactly when the bytes are valid UTF-8, and then holds the text
/// they encode; otherwise the error, rendered with `to_string`, is returned.
#[verifier::external_body]
fn decode_text(bytes: &[u8]) -> (res: Result<String, String>)
    ensures
        res is Ok <==> valid_utf8(bytes@),
        res matches Ok(s) ==> s@ == decode_utf8(bytes@),
        res matches Err(m) ==> m@ == utf8_error_text(bytes@),
{
    match String::from_utf8(bytes.to_vec()) {
        Ok(s) => Ok(s),
        Err(e) => Err(e.to_string()),
    }
}

/// The command that `text` asks for.
pub fn command_from_text(text: &str) -> (res: BabyCommand)
    ensures
        res@ == command_of_text(text@),
{
    let chars = chars_of(text);
    let nl: usize = find_char(&chars, '\n');
    proof {
        lemma_index_from(chars@, '\n', 0);
    }
    let ghost line = chars@.subrange(0, nl as int);
    let mut line_chars: Vec<char> = Vec::new();
    for i in 0..nl
        invariant
            nl <= chars.len(),
            line_chars@ == chars@.subrange(0, i as int),
    {
        line_chars.push(chars[i]);
        proof {
            assert(line_chars@ =~= chars@.subrange(0, i + 1));
        }
    }
    let sp: usize = find_char(&line_chars, ' ');
    proof {
        lemma_index_from(line, ' ', 0);
    }
    if sp < nl {
        let bin = text.substring_char(0, sp).to_owned();
        let args = split_words(text, &chars, sp + 1, nl);
        proof {
            assert(bin@ =~= line.subrange(0, sp as int));
        }
        BabyCommand { bin, args }
    } else {
        let bin = text.substring_char(0, nl).to_owned();
        let args: Vec<String> = Vec::new();
        proof {
            assert(strings_view(args@) =~= Seq::<Seq<char>>::empty());
        }
        BabyCommand { bin, args }
    }
}

/// The request held in a read buffer: the buffer must be UTF-8, and then
/// names the command of its first line.
pub fn parse_request(buf: &[u8]) -> (res: Result<BabyCommand, SwapError>)
    ensures
        res is Ok <==> valid_utf8(buf@),
        res matches Ok(cmd) ==> cmd@ == command_of_text(decode_utf8(buf@)),
        res matches Err(e) ==> e matches SwapError::ListenerSocketInvalidCmd { message }
            && message@ == utf8_error_text(buf@),
{
    match decode_text(buf) {
        Ok(text) => Ok(command_from_text(text.as_str())),
        Err(message) => Err(SwapError::ListenerSocketInvalidCmd { message }),
    }
}

/// The meaning of a read that returned `n` bytes into `buf`: zero bytes
/// close the connection; otherwise the whole buffer is a request.
pub fn read_step(buf: &[u8], n: usize) -> (res: ReadStep)
    ensures
        n == 0 <==> res is Closed,
        res matches ReadStep::Request(cmd) ==> n != 0 && valid_utf8(buf@) && cmd@
            == command_of_text(decode_utf8(buf@)),
        res matches ReadStep::Invalid(e) ==> n != 0 && !valid_utf8(buf@) && (e matches SwapError::ListenerSocketInvalidCmd { message }
            && message@ == utf8_error_text(buf@)),
        n != 0 ==> (res is Request <==> valid_utf8(buf@)),
{
    if n == 0 {
        ReadStep::Closed
    } else {
        match parse_request(buf) {
            Ok(cmd) => ReadStep::Request(cmd),
            Err(e) => ReadStep::Invalid(e),
        }
    }
}

/// A cleared read buffer: `READ_BUFFER_LEN` zero bytes.
pub fn read_buffer() -> (res: Vec<u8>)
    ensures
        res@.len() == READ_BUFFER_LEN,
        forall|i: int| 0 <= i < res@.len() ==> res@[i] == 0,
{
    let mut res: Vec<u8> = Vec::new();
    for i in 0..READ_BUFFER_LEN
        invariant
            res@.len() == i,
            forall|k: int| 0 <= k < res@.len() ==> res@[k] == 0,
    {
        res.push(0);
    }
    res
}

} // verus!
