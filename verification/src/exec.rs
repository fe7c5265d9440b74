//! Process executor: what a finished shell command means for its caller.
//!
//! The caller runs the literal command through the system shell, feeding it
//! the external input where there is one and draining both output channels
//! while it does so, and reports what happened as a [`ProcessOutcome`].

use crate::error::{text_result, Error, ErrorView};
use vstd::prelude::*;
use vstd::utf8::{decode_utf8, valid_utf8};

verus! {

/// What came of running one command through the shell.
#[derive(Clone, Debug, PartialEq, Eq)]
pub enum ProcessOutcome {
    /// The shell could not be started.
    SpawnFailed,
    /// The shell started, but feeding its input or collecting its output
    /// failed.
    IoFailed,
    /// The process ended. `code` is its exit code, absent when a signal ended
    /// it. `stdout` and `stderr` are all the bytes it wrote to each channel.
    Exited { code: Option<i32>, stdout: Vec<u8>, stderr: Vec<u8> },
}

/// The mathematical content of a [`ProcessOutcome`].
pub ghost enum ProcessOutcomeView {
    SpawnFailed,
    IoFailed,
    Exited { code: Option<i32>, stdout: Seq<u8>, stderr: Seq<u8> },
}

impl View for ProcessOutcome {
    type V = ProcessOutcomeView;

    open spec fn view(&self) -> ProcessOutcomeView {
        match self {
            ProcessOutcome::SpawnFailed => ProcessOutcomeView::SpawnFailed,
            ProcessOutcome::IoFailed => ProcessOutcomeView::IoFailed,
            ProcessOutcome::Exited { code, stdout, stderr } => ProcessOutcomeView::Exited {
                code: *code,
                stdout: stdout@,
                stderr: stderr@,
            },
        }
    }
}

/// The text that permissive UTF-8 decoding makes of `bytes`: every invalid
/// sequence is replaced, nothing fails.
pub uninterp spec fn utf8_lossy(bytes: Seq<u8>) -> Seq<char>;

/// Decodes with `String::from_utf8_lossy`. The contract gives the decoded
/// text its name, and says that bytes which are valid UTF-8 decode to the
/// text they encode. Of other bytes it claims nothing.
#[verifier::external_body]
fn decode_lossy(bytes: &Vec<u8>) -> (text: String)
    ensures
        text@ == utf8_lossy(bytes@),
        valid_utf8(bytes@) ==> text@ == decode_utf8(bytes@),
{
    String::from_utf8_lossy(bytes).into_owned()
}

/// The combined output of a successful command: all of standard output, then
/// all of standard error, each decoded permissively.
pub open spec fn combined_output(stdout: Seq<u8>, stderr: Seq<u8>) -> Seq<char> {
    utf8_lossy(stdout) + utf8_lossy(stderr)
}

/// What `command` yields once the shell has reported `outcome`.
pub open spec fn command_result(command: Seq<char>, outcome: ProcessOutcomeView) -> Result<
    Seq<char>,
    ErrorView,
> {
    match outcome {
        ProcessOutcomeView::SpawnFailed => Err(ErrorView::ProcessSpawn { command }),
        ProcessOutcomeView::IoFailed => Err(ErrorView::Io { command }),
        ProcessOutcomeView::Exited { code, stdout, stderr } => if code == Some(0i32) {
            Ok(combined_output(stdout, stderr))
        } else {
            Err(ErrorView::CommandFailure { command, code, stdout, stderr })
        },
    }
}

/// Turns the outcome of running `command` into the caller's result.
///
/// Exit status zero gives the combined output. Anything else is an error
/// that names the command; a failed command's error also carries the exit
/// code and the captured bytes of both channels.
pub fn run_command(command: &str, outcome: ProcessOutcome) -> (result: Result<String, Error>)
    ensures
        text_result(result) == command_result(command@, outcome@),
        outcome@ matches ProcessOutcomeView::Exited { code: Some(0i32), stdout, stderr }
            ==> result is Ok && result->Ok_0@ == utf8_lossy(stdout) + utf8_lossy(stderr),
        result is Ok <==> outcome@ matches ProcessOutcomeView::Exited { code: Some(0i32), .. },
        outcome@ matches ProcessOutcomeView::Exited { code: Some(0i32), stdout, stderr }
            ==> valid_utf8(stdout) && valid_utf8(stderr) ==> result->Ok_0@ == decode_utf8(stdout)
            + decode_utf8(stderr),
{
    match outcome {
        ProcessOutcome::SpawnFailed => Err(Error::ProcessSpawn { command: command.to_owned() }),
        ProcessOutcome::IoFailed => Err(Error::Io { command: command.to_owned() }),
        ProcessOutcome::Exited { code, stdout, stderr } => {
            let succeeded = match code {
                Some(status) => status == 0,
                None => false,
            };
            if succeeded {
                let mut text = decode_lossy(&stdout);
                let tail = decode_lossy(&stderr);
                text.append(tail.as_str());
                Ok(text)
            } else {
                Err(Error::CommandFailure { command: command.to_owned(), code, stdout, stderr })
            }
        },
    }
}

} // verus!
