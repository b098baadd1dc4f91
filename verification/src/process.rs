//! What a shell command reports when it is run and waited for, and how that
//! report becomes the command's output or an error message.
use vstd::prelude::*;
use vstd::utf8::{decode_utf8, valid_utf8};
use crate::text::{decimal_i32, int_decimal};

verus! {

/// What became of a shell command that was started and waited for.
pub enum ProcessOutcome {
    /// The command could not be started or waited for; `reason` is the system's
    /// description of the failure.
    NotRun { reason: String },
    /// The command ran to its end: whether it succeeded, its exit code when it
    /// has one, and the bytes it wrote to its standard output.
    Exited { success: bool, code: Option<i32>, stdout: Vec<u8> },
}

/// The text that `String::from_utf8_lossy` makes of a byte sequence.
pub uninterp spec fn lossy_utf8(bytes: Seq<u8>) -> Seq<char>;

/// Decodes standard output with `String::from_utf8_lossy`. The contract
/// names the result; of its value it states only the documented case of
/// valid UTF-8, which decodes exactly. What replaces invalid sequences
/// (U+FFFD) is left unsaid.
#[verifier::external_body]
fn decode_stdout(bytes: &Vec<u8>) -> (r: String)
    ensures
        r@ == lossy_utf8(bytes@),
        valid_utf8(bytes@) ==> r@ == decode_utf8(bytes@),
{
    String::from_utf8_lossy(bytes).into_owned()
}

/// The characters of a result of two strings.
pub open spec fn result_view(r: Result<String, String>) -> Result<Seq<char>, Seq<char>> {
    match r {
        Ok(s) => Ok(s@),
        Err(e) => Err(e@),
    }
}

/// The exit code reported for a failed command: the code, or -1 when the
/// process ended without one.
pub open spec fn reported_code(code: Option<i32>) -> int {
    match code {
        Some(c) => c as int,
        None => -1,
    }
}

/// A command's output when it succeeded; otherwise the error `error`,
/// followed by the process failure or the exit code in parentheses.
pub open spec fn sh_result(error: Seq<char>, outcome: ProcessOutcome) -> Result<Seq<char>, Seq<char>> {
    match outcome {
        ProcessOutcome::NotRun { reason } => Err(
            error + " (Process Error: "@ + reason@ + ")"@,
        ),
        ProcessOutcome::Exited { success, code, stdout } => {
            if success {
                Ok(lossy_utf8(stdout@))
            } else {
                Err(error + " (Exit Code: "@ + int_decimal(reported_code(code)) + ")"@)
            }
        },
    }
}

/// Interprets the outcome of a shell command run for the purpose described by
/// `error`: its standard output when it succeeded, else an error message.
pub fn sh(error: &str, outcome: ProcessOutcome) -> (r: Result<String, String>)
    ensures
        result_view(r) == sh_result(error@, outcome),
{
    match outcome {
        ProcessOutcome::NotRun { reason } => {
            let mut msg = error.to_owned();
            msg.append(" (Process Error: ");
            msg.append(reason.as_str());
            msg.append(")");
            Err(msg)
        },
        ProcessOutcome::Exited { success, code, stdout } => {
            if success {
                Ok(decode_stdout(&stdout))
            } else {
                let c: i32 = match code {
                    Some(c) => c,
                    None => -1,
                };
                let digits = decimal_i32(c);
                let mut msg = error.to_owned();
                msg.append(" (Exit Code: ");
                msg.append(digits.as_str());
                msg.append(")");
                Err(msg)
            }
        },
    }
}

} // verus!
