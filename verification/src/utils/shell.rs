//! What to ask of the command runner, and how to read what came back.
//!
//! Running a program is left to the caller. This module describes an
//! invocation as plain data and turns the outcome of one into the text that
//! the analysis works on, or into an error message.

use crate::render::{push_decimal, push_signed_decimal};
use crate::text::{chars_of, extend, string_of, string_views};
use vstd::prelude::*;

verus! {

/// One run of an external program: its name, its arguments, the time it may
/// take, and the environment variables that are set for it.
#[derive(Debug, Clone)]
pub struct Invocation {
    pub program: String,
    pub args: Vec<String>,
    pub timeout_ms: u64,
    pub env: Vec<(String, String)>,
}

/// The mathematical content of an [`Invocation`].
pub struct InvocationView {
    pub program: Seq<char>,
    pub args: Seq<Seq<char>>,
    pub timeout_ms: u64,
    pub env: Seq<(Seq<char>, Seq<char>)>,
}

impl View for Invocation {
    type V = InvocationView;

    open spec fn view(&self) -> InvocationView {
        InvocationView {
            program: self.program@,
            args: string_views(self.args@),
            timeout_ms: self.timeout_ms,
            env: self.env@.map_values(|p: (String, String)| (p.0@, p.1@)),
        }
    }
}

/// How a run of an external program ended.
#[derive(Debug, Clone)]
pub enum CommandOutcome {
    /// The program ran and exited. `code` is absent where a signal ended it.
    Exited { success: bool, code: Option<i32>, stdout: String, stderr: String },
    /// The program could not be started.
    SpawnFailed { cause: String },
    /// The worker that waited for the program died.
    Panicked,
    /// The program did not end within the time allowed.
    TimedOut,
}

/// The exit code that is reported: the program's own, or -1 where it had none.
pub open spec fn reported_code(code: Option<i32>) -> int {
    match code {
        Some(c) => c as int,
        None => -1,
    }
}

/// What a run yields: the captured standard output of a successful run, and
/// for every other outcome the message that describes it.
pub open spec fn command_result_of(outcome: CommandOutcome, timeout_ms: u64) -> Result<
    Seq<char>,
    Seq<char>,
> {
    match outcome {
        CommandOutcome::Exited { success, code, stdout, stderr } => if success {
            Ok(stdout@)
        } else {
            Err(
                "Command exited with code "@ + crate::render::signed_decimal(reported_code(code))
                    + ": "@ + stderr@,
            )
        },
        CommandOutcome::SpawnFailed { cause } => Err("Command failed: "@ + cause@),
        CommandOutcome::Panicked => Err("Thread panicked"@),
        CommandOutcome::TimedOut => Err(
            "Command timed out after "@ + crate::render::decimal(timeout_ms as nat) + "ms"@,
        ),
    }
}

/// The view of a result that holds text on either side.
pub open spec fn result_view(r: Result<String, String>) -> Result<Seq<char>, Seq<char>> {
    match r {
        Ok(s) => Ok(s@),
        Err(e) => Err(e@),
    }
}

/// Turns the outcome of a run that was given `timeout_ms` milliseconds into
/// its standard output or an error message.
pub fn command_result(outcome: CommandOutcome, timeout_ms: u64) -> (r: Result<String, String>)
    ensures
        result_view(r) == command_result_of(outcome, timeout_ms),
{
    match outcome {
        CommandOutcome::Exited { success, code, stdout, stderr } => {
            if success {
                Ok(stdout)
            } else {
                let mut buf = chars_of("Command exited with code ");
                let shown: i32 = match code {
                    Some(c) => c,
                    None => -1,
                };
                push_signed_decimal(&mut buf, shown);
                let sep = chars_of(": ");
                extend(&mut buf, &sep);
                let tail = chars_of(stderr.as_str());
                extend(&mut buf, &tail);
                Err(string_of(&buf))
            }
        },
        CommandOutcome::SpawnFailed { cause } => {
            let mut buf = chars_of("Command failed: ");
            let tail = chars_of(cause.as_str());
            extend(&mut buf, &tail);
            Err(string_of(&buf))
        },
        CommandOutcome::Panicked => {
            let buf = chars_of("Thread panicked");
            Err(string_of(&buf))
        },
        CommandOutcome::TimedOut => {
            let mut buf = chars_of("Command timed out after ");
            push_decimal(&mut buf, timeout_ms as u128);
            let tail = chars_of("ms");
            extend(&mut buf, &tail);
            Err(string_of(&buf))
        },
    }
}

} // verus!
