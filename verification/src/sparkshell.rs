//! The decisions of the `omx sparkshell` sidecar: raw output or a summary, and the text
//! that it writes.
use vstd::prelude::*;
use vstd::string::StrSliceExecFns;
use vstd::utf8::encode_utf8;
use crate::text::chars_of;

verus! {

/// How the sidecar shows a command's output.
#[derive(Debug, Clone, Copy, PartialEq, Eq, Structural)]
pub enum OutputMode {
    /// Pass stdout and stderr through unchanged.
    Raw,
    /// Ask codex for a summary of it.
    Summary,
}

/// Output of at most `threshold` visible lines stays raw; longer output is summarised.
pub fn choose_output_mode(line_count: usize, threshold: usize) -> (mode: OutputMode)
    ensures
        mode == if line_count <= threshold {
            OutputMode::Raw
        } else {
            OutputMode::Summary
        },
{
    if line_count <= threshold {
        OutputMode::Raw
    } else {
        OutputMode::Summary
    }
}

/// The summary as written to stdout: ended by a newline where it has none.
pub open spec fn summary_text(summary: Seq<char>) -> Seq<char> {
    if summary.len() > 0 && summary.last() == '\n' {
        summary
    } else {
        summary.push('\n')
    }
}

/// The bytes written to stdout for `summary`.
pub fn summary_stdout(summary: &str) -> (out: Vec<u8>)
    ensures
        out@ == encode_utf8(summary_text(summary@)),
{
    let c = chars_of(summary);
    let mut text = String::new();
    text.append(summary);
    if !(c.len() > 0 && c[c.len() - 1] == '\n') {
        text.append("\n");
        proof {
            reveal_strlit("\n");
        }
        assert(text@ =~= summary@.push('\n'));
    }
    text.as_str().as_bytes_vec()
}

/// The line written to stderr when no summary could be had (without its newline).
pub fn summary_unavailable_message(error: &str) -> (out: String)
    ensures
        out@ == "omx sparkshell: summary unavailable ("@ + error@ + ")"@,
{
    let mut s = String::new();
    s.append("omx sparkshell: summary unavailable (");
    s.append(error);
    s.append(")");
    s
}

/// The line written to stderr when the command could not be run (without its newline).
pub fn failure_message(error: &str) -> (out: String)
    ensures
        out@ == "omx sparkshell: "@ + error@,
{
    let mut s = String::new();
    s.append("omx sparkshell: ");
    s.append(error);
    s
}

} // verus!
