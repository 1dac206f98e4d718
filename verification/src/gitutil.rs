//! What the host makes of git's output.

use vstd::prelude::*;
use vstd::string::*;
use crate::text::{decode_lossy, trim, trim_end, trim_end_spec, trim_spec, utf8_lossy};

verus! {

/// Git's standard output as text: decoded as by `String::from_utf8_lossy`,
/// trailing white space (the final newline) removed.
pub fn git_string(stdout: &[u8]) -> (s: String)
    ensures
        s@ == trim_end_spec(utf8_lossy(stdout@)),
{
    let text = decode_lossy(stdout);
    trim_end(text.as_str())
}

/// `parts` joined with `sep` between neighbours (`[&str]::join`).
pub open spec fn join_spec(parts: Seq<Seq<char>>, sep: Seq<char>) -> Seq<char>
    decreases parts.len(),
{
    if parts.len() == 0 {
        seq![]
    } else if parts.len() == 1 {
        parts[0]
    } else {
        join_spec(parts.drop_last(), sep) + sep + parts.last()
    }
}

/// The arguments of a git invocation as text.
pub open spec fn args_view(args: Seq<&str>) -> Seq<Seq<char>> {
    args.map_values(|a: &str| a@)
}

/// A git invocation that exited unsuccessfully.
#[derive(Debug)]
pub struct GitError {
    pub message: String,
}

/// The message for a failed invocation with `args`: the command line and
/// git's standard error, trimmed.
pub open spec fn git_failure_message(args: Seq<Seq<char>>, stderr: Seq<u8>) -> Seq<char> {
    "git "@ + join_spec(args, " "@) + " failed: "@ + trim_spec(utf8_lossy(stderr))
}

/// The arguments joined by single spaces.
pub fn join_args(args: &[&str]) -> (s: String)
    ensures
        s@ == join_spec(args_view(args@), " "@),
{
    let ghost parts = args_view(args@);
    let mut s = String::new();
    let mut i: usize = 0;
    while i < args.len()
        invariant
            parts == args_view(args@),
            i <= args.len(),
            s@ == join_spec(parts.take(i as int), " "@),
        decreases args.len() - i,
    {
        assert(parts.take(i + 1).drop_last() =~= parts.take(i as int));
        assert(parts.take(i + 1).last() == args@[i as int]@);
        if i > 0 {
            s.append(" ");
        }
        s.append(args[i]);
        assert(i == 0 ==> s@ =~= join_spec(parts.take(i + 1), " "@));
        i = i + 1;
    }
    assert(parts.take(args.len() as int) =~= parts);
    s
}

/// What a git invocation gives the host: its standard output when it
/// succeeded, else an error naming the command and git's complaint.
pub fn git_output(args: &[&str], success: bool, stdout: Vec<u8>, stderr: &[u8]) -> (r: Result<
    Vec<u8>,
    GitError,
>)
    ensures
        success ==> r == Ok::<Vec<u8>, GitError>(stdout),
        !success ==> (r matches Err(e) && e.message@ == git_failure_message(args_view(args@), stderr@)),
{
    if success {
        return Ok(stdout);
    }
    let mut message = "git ".to_owned();
    message.append(join_args(args).as_str());
    message.append(" failed: ");
    message.append(trim(decode_lossy(stderr).as_str()).as_str());
    Err(GitError { message })
}

} // verus!
