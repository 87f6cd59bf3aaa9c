//! Talking to a shell that runs behind a remote function: the lines that
//! are sent to it and the answers that come back.

use vstd::prelude::*;
use vstd::string::StringExecFns;
use crate::codec::{base64_decoded, decode};
use crate::errors::Error;
use crate::parser::{scan, scan_step, tokens, Scan};
use crate::text::{chars_of, push_char, same_chars, starts_with};

verus! {

/// `line` with a backslash in front of every space.
pub open spec fn escaped(line: Seq<char>) -> Seq<char>
    decreases line.len(),
{
    if line.len() == 0 {
        Seq::empty()
    } else if line.last() == ' ' {
        escaped(line.drop_last()).push('\\').push(' ')
    } else {
        escaped(line.drop_last()).push(line.last())
    }
}

/// Puts a backslash in front of every space, so that the shell takes the
/// line as one token.
pub fn escape(line: &str) -> (out: String)
    ensures
        out@ == escaped(line@),
{
    let chars = chars_of(line);
    let mut out = String::new();
    let mut i: usize = 0;
    assert(chars@.take(0) =~= Seq::<char>::empty());
    while i < chars.len()
        invariant
            i <= chars.len(),
            out@ == escaped(chars@.take(i as int)),
        decreases chars.len() - i,
    {
        let c = chars[i];
        proof {
            assert(chars@.take(i + 1).drop_last() =~= chars@.take(i as int));
        }
        if c == ' ' {
            push_char(&mut out, '\\');
        }
        push_char(&mut out, c);
        i += 1;
    }
    assert(chars@.take(chars.len() as int) =~= chars@);
    out
}

/// Reading one more character moves the tokenizer by one step.
pub proof fn lemma_scan_push(line: Seq<char>, c: char)
    ensures
        scan(line.push(c)) == scan_step(scan(line), c),
{
    assert(line.push(c).drop_last() =~= line);
}

/// The tokenizer reads an escaped line as one open token that holds the
/// line, as long as the line holds no backslash and no line feed.
pub proof fn lemma_scan_escaped(line: Seq<char>)
    requires
        forall|i: int| 0 <= i < line.len() ==> line[i] != '\\' && line[i] != '\n',
    ensures
        scan(escaped(line)) == (Scan { done: Seq::empty(), token: line, escape: false }),
    decreases line.len(),
{
    if line.len() > 0 {
        let head = line.drop_last();
        let c = line.last();
        assert forall|i: int| 0 <= i < head.len() implies head[i] != '\\' && head[i] != '\n' by {
            assert(head[i] == line[i]);
        }
        lemma_scan_escaped(head);
        assert(head.push(c) =~= line);
        let before = scan(escaped(head));
        if c == ' ' {
            lemma_scan_push(escaped(head), '\\');
            lemma_scan_push(escaped(head).push('\\'), ' ');
            assert(scan(escaped(line)) == scan_step(scan_step(before, '\\'), ' '));
        } else {
            lemma_scan_push(escaped(head), c);
            assert(c != '\\' && c != '\n');
            assert(scan(escaped(line)) == scan_step(before, c));
        }
    } else {
        assert(line =~= Seq::<char>::empty());
    }
}

/// Escaping makes one token of a line: the shell reads an escaped line as
/// the single token that is the line itself. This holds of every line that
/// is not empty and holds neither a backslash nor a line feed.
pub proof fn lemma_escaped_is_one_token(line: Seq<char>)
    requires
        line.len() > 0,
        forall|i: int| 0 <= i < line.len() ==> line[i] != '\\' && line[i] != '\n',
    ensures
        tokens(escaped(line)) == seq![line],
{
    lemma_scan_escaped(line);
    assert(Seq::<Seq<char>>::empty().push(line) =~= seq![line]);
}

/// The answer of the remote function as it arrives.
#[derive(Debug)]
pub struct RawResponse {
    /// The type of the error, if the function failed.
    pub error_type: Option<String>,
    /// The message of the error, if the function failed.
    pub error_message: Option<String>,
    /// What the command wrote to its output, in base64.
    pub stdout: Option<String>,
    /// What the command wrote to its error output, in base64.
    pub stderr: Option<String>,
}

/// The outcome of a remote command.
#[derive(Debug)]
pub enum ResponseResult {
    /// The command ran.
    Success(Response),
    /// The remote function failed.
    Failure(LambdaError),
}

/// What a remote command wrote.
#[derive(Debug)]
pub struct Response {
    /// What it wrote to its output.
    pub stdout: Vec<u8>,
    /// What it wrote to its error output.
    pub stderr: Vec<u8>,
}

/// The failure of the remote function.
#[derive(Debug)]
pub struct LambdaError {
    /// The type of the error.
    pub error_type: Option<String>,
    /// The message of the error.
    pub error_message: Option<String>,
}

/// What a text that may be missing decodes to in base64; nothing where it
/// is missing or no base64.
pub open spec fn output_of(text: Option<String>) -> Option<Seq<u8>> {
    match text {
        Some(text) => base64_decoded(text@),
        None => None,
    }
}

impl RawResponse {
    /// Whether the answer reports a failure of the remote function.
    pub open spec fn is_failure(self) -> bool {
        self.error_type is Some || self.error_message is Some
    }
}

fn decode_output(text: &Option<String>) -> (r: Option<Vec<u8>>)
    ensures
        match r {
            Some(bytes) => output_of(*text) == Some(bytes@),
            None => output_of(*text) is None,
        },
{
    match text {
        Some(text) => decode(text.as_str()),
        None => None,
    }
}

impl ResponseResult {
    /// Reads the answer of the remote function.
    ///
    /// An answer with an error type or an error message is a failure of the
    /// function. Any other answer must carry both outputs in base64; one that
    /// does not is refused.
    pub fn from_raw(resp: RawResponse) -> (r: Result<ResponseResult, Error>)
        ensures
            match r {
                Ok(ResponseResult::Failure(e)) => resp.is_failure() && e.error_type == resp.error_type
                    && e.error_message == resp.error_message,
                Ok(ResponseResult::Success(out)) => !resp.is_failure() && output_of(resp.stdout) == Some(
                    out.stdout@,
                ) && output_of(resp.stderr) == Some(out.stderr@),
                Err(_) => !resp.is_failure() && (output_of(resp.stdout) is None || output_of(
                    resp.stderr,
                ) is None),
            },
    {
        if resp.error_type.is_some() || resp.error_message.is_some() {
            return Ok(
                ResponseResult::Failure(
                    LambdaError { error_type: resp.error_type, error_message: resp.error_message },
                ),
            );
        }
        let stdout = match decode_output(&resp.stdout) {
            Some(bytes) => bytes,
            None => {
                return Err(Error::other("the response carries no output"));
            },
        };
        let stderr = match decode_output(&resp.stderr) {
            Some(bytes) => bytes,
            None => {
                return Err(Error::other("the response carries no error output"));
            },
        };
        Ok(ResponseResult::Success(Response { stdout, stderr }))
    }
}

/// What the lines that the user types are taken for.
#[derive(Clone, Copy, Debug, PartialEq, Eq)]
pub enum Mode {
    /// Commands of the remote shell.
    Boxxy,
    /// Commands for `sh` on the remote side.
    Exec,
}

impl Mode {
    /// The name of the mode, as the prompt shows it.
    pub open spec fn spec_name(self) -> Seq<char> {
        match self {
            Mode::Boxxy => "boxxy"@,
            Mode::Exec => "boxxy/exec"@,
        }
    }

    /// The name of the mode, as the prompt shows it.
    pub fn name(self) -> (r: &'static str)
        ensures
            r@ == self.spec_name(),
    {
        match self {
            Mode::Boxxy => "boxxy",
            Mode::Exec => "boxxy/exec",
        }
    }
}

/// What to do with a line that the user typed.
#[derive(Debug, PartialEq, Eq)]
pub enum Step {
    /// Nothing: the line is empty.
    Ignore,
    /// Take the lines from now on for this mode.
    Enter(Mode),
    /// Complain: the line asks for a mode that does not exist.
    UnknownMode,
    /// Leave.
    Exit,
    /// Send this line to the remote shell.
    Invoke(String),
}

/// The mathematical content of a [`Step`].
pub enum StepView {
    Ignore,
    Enter(Mode),
    UnknownMode,
    Exit,
    Invoke(Seq<char>),
}

impl View for Step {
    type V = StepView;

    open spec fn view(&self) -> StepView {
        match self {
            Step::Ignore => StepView::Ignore,
            Step::Enter(mode) => StepView::Enter(*mode),
            Step::UnknownMode => StepView::UnknownMode,
            Step::Exit => StepView::Exit,
            Step::Invoke(line) => StepView::Invoke(line@),
        }
    }
}

/// The line that is sent to the remote shell for what the user typed.
pub open spec fn remote_line(mode: Mode, line: Seq<char>) -> Seq<char> {
    match mode {
        Mode::Boxxy => line,
        Mode::Exec => "exec sh -c "@ + escaped(line),
    }
}

/// What a line that the user typed asks for.
///
/// `enter b...` and `enter e...` change the mode, any other `enter ` is
/// refused, `exit` leaves, and everything else goes to the remote shell.
pub open spec fn step_for(mode: Mode, line: Seq<char>) -> StepView {
    if line.len() == 0 {
        StepView::Ignore
    } else if "enter "@.is_prefix_of(line) {
        if "enter b"@.is_prefix_of(line) {
            StepView::Enter(Mode::Boxxy)
        } else if "enter e"@.is_prefix_of(line) {
            StepView::Enter(Mode::Exec)
        } else {
            StepView::UnknownMode
        }
    } else if line == "exit"@ {
        StepView::Exit
    } else {
        StepView::Invoke(remote_line(mode, line))
    }
}

/// Decides what to do with a line that the user typed.
pub fn next_step(mode: Mode, line: &str) -> (step: Step)
    ensures
        step@ == step_for(mode, line@),
{
    let chars = chars_of(line);
    if chars.len() == 0 {
        return Step::Ignore;
    }
    if starts_with(&chars, &chars_of("enter ")) {
        if starts_with(&chars, &chars_of("enter b")) {
            return Step::Enter(Mode::Boxxy);
        }
        if starts_with(&chars, &chars_of("enter e")) {
            return Step::Enter(Mode::Exec);
        }
        return Step::UnknownMode;
    }
    if same_chars(&chars, &chars_of("exit")) {
        return Step::Exit;
    }
    match mode {
        Mode::Boxxy => Step::Invoke(line.to_owned()),
        Mode::Exec => {
            let mut out = String::from_str("exec sh -c ");
            let tail = escape(line);
            out.append(tail.as_str());
            Step::Invoke(out)
        },
    }
}

} // verus!
