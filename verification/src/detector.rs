//! The outcome of a detection command, and how a command's output is shown.
use vstd::prelude::*;
use crate::text::{push_str, trim, trimmed};

verus! {

/// What running a detection command showed.
#[derive(Debug, Clone, PartialEq, Eq)]
pub struct DetectionResult {
    pub issue_found: bool,
    pub output: String,
}

/// The text that `String::from_utf8_lossy` makes of `bytes`: their UTF-8
/// decoding, with each invalid sequence replaced by U+FFFD.
pub uninterp spec fn lossy_decoded(bytes: Seq<u8>) -> Seq<char>;

/// `String::from_utf8_lossy`: valid UTF-8 is decoded as it is; invalid
/// sequences become U+FFFD (that replacement is not spelt out here).
#[verifier::external_body]
fn decode_lossy(bytes: &[u8]) -> (out: String)
    ensures
        out@ == lossy_decoded(bytes@),
        vstd::utf8::valid_utf8(bytes@) ==> out@ == vstd::utf8::decode_utf8(bytes@),
{
    String::from_utf8_lossy(bytes).into_owned()
}

/// The text shown for a command that wrote `stdout` and `stderr`: both
/// decoded, one after the other, with surrounding white space removed.
pub open spec fn shown_output(stdout: Seq<u8>, stderr: Seq<u8>) -> Seq<char> {
    trimmed(lossy_decoded(stdout) + lossy_decoded(stderr))
}

/// The text shown for a command's standard output and error.
pub fn command_output(stdout: &[u8], stderr: &[u8]) -> (out: String)
    ensures
        out@ == shown_output(stdout@, stderr@),
{
    let mut all = decode_lossy(stdout);
    let err = decode_lossy(stderr);
    push_str(&mut all, err.as_str());
    trim(all.as_str())
}

impl DetectionResult {
    /// The result of a detection command that ran: it exits with success
    /// exactly when the issue is present.
    pub fn from_run(exited_successfully: bool, stdout: &[u8], stderr: &[u8]) -> (r: DetectionResult)
        ensures
            r.issue_found == exited_successfully,
            r.output@ == shown_output(stdout@, stderr@),
    {
        DetectionResult { issue_found: exited_successfully, output: command_output(stdout, stderr) }
    }

    /// The result when the detection command could not be started: no issue
    /// is reported, and the output says why.
    pub fn not_run(reason: &str) -> (r: DetectionResult)
        ensures
            !r.issue_found,
            r.output@ == "Failed to run detection: "@ + reason@,
    {
        let mut output = crate::text::to_owned_string("Failed to run detection: ");
        push_str(&mut output, reason);
        DetectionResult { issue_found: false, output }
    }
}

} // verus!
