use vstd::prelude::*;
use vstd::string::StringExecFns;
use crate::errors::CustomError;
use crate::errors::CustomErrorKind;

verus! {

/// The full text the runner feeds the spawned shell: a preamble that stops on
/// the first error and treats unset variables as errors, the command verbatim,
/// and a final line that propagates the command's exit code as the shell's own.
pub open spec fn script_spec(command: Seq<char>) -> Seq<char> {
    "set -exu\n"@ + command + "\n"@ + "exit $?;\n"@
}

/// Builds the shell script for one command execution.
pub fn compose_script(command: &str) -> (r: String)
    ensures
        r@ == script_spec(command@),
{
    let mut s = "set -exu\n".to_owned();
    s.append(command);
    s.append("\n");
    s.append("exit $?;\n");
    proof {
        assert(s@ =~= script_spec(command@));
    }
    s
}

/// The captured text of one output stream: every received line in order,
/// each with its newline restored.
pub open spec fn joined_lines(lines: Seq<Seq<char>>) -> Seq<char>
    decreases lines.len(),
{
    if lines.len() == 0 {
        Seq::empty()
    } else {
        joined_lines(lines.drop_last()) + lines.last() + "\n"@
    }
}

/// Joins the lines captured from one stream into the stream's result buffer.
pub fn join_lines(lines: &Vec<String>) -> (r: String)
    ensures
        r@ == joined_lines(lines.deep_view()),
{
    let mut r = String::new();
    let mut i: usize = 0;
    while i < lines.len()
        invariant
            i <= lines.len(),
            r@ == joined_lines(lines.deep_view().take(i as int)),
        decreases lines.len() - i,
    {
        r.append(lines[i].as_str());
        r.append("\n");
        proof {
            let all = lines.deep_view();
            assert(all.take(i + 1 as int).drop_last() =~= all.take(i as int));
            assert(all.take(i + 1 as int).last() == lines[i as int]@);
        }
        i += 1;
    }
    proof {
        assert(lines.deep_view().take(lines.len() as int) =~= lines.deep_view());
    }
    r
}

/// The line emitted to the log for one received output line, under the
/// stream's tag.
pub fn tag_line(tag: &str, line: &str) -> (r: String)
    ensures
        r@ == tag@ + " | "@ + line@,
{
    let mut r = tag.to_owned();
    r.append(" | ");
    r.append(line);
    r
}

/// The outcome of one command execution, assembled after the spawned process
/// has terminated and both capture tasks have finished.
#[derive(Debug)]
pub struct CommandResult {
    /// The exit status code; absent when the process was terminated by a signal.
    pub status_code: Option<i32>,
    /// The captured standard output, newline-joined in the order received.
    pub stdout: String,
    /// The captured standard error, newline-joined in the order received.
    pub stderr: String,
    /// The exact shell text that was executed.
    pub command: String,
    /// Whether the process exited with status code 0.
    pub success: bool,
}

impl CommandResult {
    /// Consistency of the two exit fields: success exactly on exit code 0.
    pub open spec fn wf(self) -> bool {
        self.success == (self.status_code == Some(0i32))
    }

    /// The message of the error a failed result converts to: it carries the
    /// original command text between the quotes.
    pub open spec fn failure_message_spec(command: Seq<char>) -> Seq<char> {
        "A command exited with a non 0 exit code or with a signal. '"@ + command + "'"@
    }

    /// Converts the result into an error when the command did not succeed;
    /// callers that must fail on a nonzero exit use this explicitly.
    pub fn as_result(self) -> (r: Result<CommandResult, CustomError>)
        ensures
            self.success ==> (r matches Ok(c) && c == self),
            !self.success ==> (r matches Err(e) && e.kind matches CustomErrorKind::ErrorMessage(m)
                && m@ == Self::failure_message_spec(self.command@)),
    {
        if self.success {
            Ok(self)
        } else {
            let mut message = "A command exited with a non 0 exit code or with a signal. '".to_owned();
            message.append(self.command.as_str());
            message.append("'");
            Err(CustomError { kind: CustomErrorKind::ErrorMessage(message) })
        }
    }
}

/// Assembles the structured result of one execution from the exit status and
/// the two captured streams. Success is computed, not reported: it holds
/// exactly when the status code is 0, so a signal-terminated process (absent
/// status code) is never a success.
pub fn assemble_result(command: &str, status_code: Option<i32>, stdout: String, stderr: String) -> (r:
    CommandResult)
    ensures
        r.command@ == command@,
        r.status_code == status_code,
        r.stdout == stdout,
        r.stderr == stderr,
        r.success == (status_code == Some(0i32)),
        r.wf(),
{
    let success = match status_code {
        Some(code) => code == 0,
        None => false,
    };
    CommandResult { status_code, stdout, stderr, command: command.to_owned(), success }
}

/// Whether `needle` occurs in `hay` as a contiguous run, unchanged.
pub open spec fn contains_verbatim(hay: Seq<char>, needle: Seq<char>) -> bool {
    exists|k: int|
        0 <= k && k + needle.len() <= hay.len() && #[trigger] hay.subrange(k, k + needle.len())
            == needle
}

/// A well-formed result reports success exactly when the process exited with
/// status code 0.
pub proof fn lemma_success_iff_zero_exit(r: CommandResult)
    requires
        r.wf(),
    ensures
        r.success <==> r.status_code == Some(0i32),
{
}

/// The error a failed result converts to carries the original command text
/// verbatim in its message.
pub proof fn lemma_failure_message_contains_command(command: Seq<char>)
    ensures
        contains_verbatim(CommandResult::failure_message_spec(command), command),
{
    let prefix = "A command exited with a non 0 exit code or with a signal. '"@;
    let message = CommandResult::failure_message_spec(command);
    let k = prefix.len() as int;
    assert(message.subrange(k, k + command.len()) =~= command);
}

} // verus!
