//! The subprocess output decoder: normalizes the observed outcome of one
//! blocking external-command invocation. The command must have exited
//! successfully and its standard output must decode as text, which is
//! returned trimmed; a failed exit produces an error message embedding the
//! invocation, the exit status and, when it is non-empty and decodes as
//! text, the captured standard error.
use vstd::prelude::*;
use vstd::string::StringExecFns;

use crate::error::ProjectError;

verus! {

/// What `String::from_utf8` returns for these bytes: the decoded text when
/// the bytes are valid UTF-8, nothing otherwise.
pub uninterp spec fn utf8_decoded(bytes: Seq<u8>) -> Option<Seq<char>>;

/// Relies on String::from_utf8: whether the bytes decode, and to what text,
/// is a function of the bytes alone.
#[verifier::external_body]
fn decode_utf8(bytes: Vec<u8>) -> (r: Option<String>)
    ensures
        r matches Some(s) ==> utf8_decoded(bytes@) == Some(s@),
        r is None ==> utf8_decoded(bytes@) is None,
{
    match String::from_utf8(bytes) {
        Ok(s) => Some(s),
        Err(_) => None,
    }
}

/// What `str::trim` returns for this text: the text without its leading and
/// trailing whitespace, a function of the characters alone.
pub uninterp spec fn trimmed(s: Seq<char>) -> Seq<char>;

/// Relies on str::trim: removes leading and trailing whitespace.
#[verifier::external_body]
fn trim_text(s: &str) -> (r: String)
    ensures
        r@ == trimmed(s@),
{
    s.trim().to_string()
}

/// What one blocking run of an already-configured external command was
/// observed to produce: a textual rendering of the invocation (for
/// messages), a textual rendering of the exit status, whether the exit was
/// successful, and the captured output bytes of both streams.
pub struct CommandOutcome {
    pub invocation: String,
    pub status: String,
    pub success: bool,
    pub stdout: Vec<u8>,
    pub stderr: Vec<u8>,
}

/// The message reported for a failed exit: the invocation and the exit
/// status, extended with the captured standard error exactly when it is
/// non-empty and decodes as text.
pub open spec fn failure_message(
    invocation: Seq<char>,
    status: Seq<char>,
    stderr: Seq<u8>,
) -> Seq<char> {
    match utf8_decoded(stderr) {
        Some(t) => if t.len() > 0 {
            invocation + " failed, "@ + status + "\nstderr:\n"@ + t
        } else {
            invocation + " failed, "@ + status
        },
        None => invocation + " failed, "@ + status,
    }
}

/// Decodes the outcome of one external-command run: a successful exit whose
/// standard output decodes as text yields that text trimmed; a successful
/// exit with undecodable output is an `EncodingError`; an unsuccessful exit
/// is a `CommandFailed` carrying the failure message.
pub fn utf8_stdout(out: CommandOutcome) -> (r: Result<String, ProjectError>)
    ensures
        !out.success ==> (r matches Err(e) && e matches ProjectError::CommandFailed(m) && m@
            == failure_message(out.invocation@, out.status@, out.stderr@)),
        out.success ==> (match utf8_decoded(out.stdout@) {
            Some(t) => r matches Ok(s) && s@ == trimmed(t),
            None => r matches Err(e) && e is EncodingError,
        }),
{
    let CommandOutcome { invocation, status, success, stdout, stderr } = out;
    if !success {
        let mut msg = invocation;
        msg.append(" failed, ");
        msg.append(status.as_str());
        match decode_utf8(stderr) {
            Some(t) => {
                if !t.as_str().is_empty() {
                    msg.append("\nstderr:\n");
                    msg.append(t.as_str());
                }
                Err(ProjectError::CommandFailed(msg))
            },
            None => Err(ProjectError::CommandFailed(msg)),
        }
    } else {
        match decode_utf8(stdout) {
            Some(t) => Ok(trim_text(t.as_str())),
            None => Err(ProjectError::EncodingError),
        }
    }
}

} // verus!
