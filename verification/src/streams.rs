//! Where the command's standard streams go.
//!
//! Before exec, the child points each of its standard streams at the path
//! the context names, or closes the stream when the path is empty. The
//! decision is computed here; reopening and closing are the caller's.

use vstd::prelude::*;

verus! {

/// How a reopened stream is accessed.
#[derive(Clone, Copy, Debug, PartialEq, Eq, Structural)]
pub enum FileAccessMode {
    Readable,
    Writable,
}

/// What to do with one standard stream.
pub enum StreamDirective {
    /// Close the stream.
    Close,
    /// Reopen the stream onto this path, with this access.
    Reopen(String, FileAccessMode),
}

/// The directives for the three standard streams, in order: in, out, err.
pub struct StreamPlan {
    pub stdin: StreamDirective,
    pub stdout: StreamDirective,
    pub stderr: StreamDirective,
}

/// The directive for a stream configured with `path`: close on the empty
/// path, otherwise reopen with the given access.
pub open spec fn directive_matches(d: StreamDirective, path: Seq<char>, mode: FileAccessMode) -> bool {
    match d {
        StreamDirective::Close => path.len() == 0,
        StreamDirective::Reopen(p, m) => path.len() > 0 && p@ == path && m == mode,
    }
}

fn directive_for(path: &String, mode: FileAccessMode) -> (d: StreamDirective)
    ensures
        directive_matches(d, path@, mode),
{
    if path.unicode_len() == 0 {
        StreamDirective::Close
    } else {
        StreamDirective::Reopen(path.clone(), mode)
    }
}

/// Plans the three standard streams: stdin read-only, stdout and stderr
/// write-only, each closed instead when its path is empty.
pub fn stream_plan(stdin_path: &String, stdout_path: &String, stderr_path: &String) -> (p:
    StreamPlan)
    ensures
        directive_matches(p.stdin, stdin_path@, FileAccessMode::Readable),
        directive_matches(p.stdout, stdout_path@, FileAccessMode::Writable),
        directive_matches(p.stderr, stderr_path@, FileAccessMode::Writable),
{
    StreamPlan {
        stdin: directive_for(stdin_path, FileAccessMode::Readable),
        stdout: directive_for(stdout_path, FileAccessMode::Writable),
        stderr: directive_for(stderr_path, FileAccessMode::Writable),
    }
}

} // verus!
