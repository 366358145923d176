//! Calls with elevated rights.
use vstd::prelude::*;

use crate::docker;
use crate::lines;
use crate::paths;
use crate::text;

verus! {

/// A call of `sudo`, and the directory it is made in where that matters.
#[derive(Debug, Clone, PartialEq, Eq)]
pub struct SudoCall {
    pub args: Vec<String>,
    pub current_dir: Option<String>,
}

/// The call of `sudo` with some arguments.
pub fn run(args: &Vec<String>) -> (r: SudoCall)
    ensures
        text::texts(r.args@) == text::texts(args@),
        r.current_dir is None,
{
    run_in(None, args)
}

/// The call of `sudo` with some arguments in a directory.
pub fn run_in(current_dir: Option<&str>, args: &Vec<String>) -> (r: SudoCall)
    ensures
        text::texts(r.args@) == text::texts(args@),
        paths::opt(r.current_dir) == docker::opt_str(current_dir),
{
    let dir = match current_dir {
        Some(d) => Some(text::owned(d)),
        None => None,
    };
    SudoCall { args: text::copy_texts(args), current_dir: dir }
}

/// What became of a call of `sudo`: it was not started, or it ended with a status.
pub fn result(args: &Vec<String>, started: bool, success: bool, status: &str) -> (r: Result<
    (),
    String,
>)
    ensures
        r is Ok <==> started && success,
        !started ==> (r matches Err(e) && e@ == "Failed to execute sudo "@ + lines::joined(
            text::texts(args@),
            " "@,
        )),
        started && !success ==> (r matches Err(e) && e@ == "sudo "@ + lines::joined(
            text::texts(args@),
            " "@,
        ) + " failed with status "@ + status@),
{
    if started && success {
        return Ok(());
    }
    let line = lines::join(args, " ");
    if !started {
        let mut e = text::owned("Failed to execute sudo ");
        e.append(line.as_str());
        Err(e)
    } else {
        let mut e = text::owned("sudo ");
        e.append(line.as_str());
        e.append(" failed with status ");
        e.append(status);
        Err(e)
    }
}

} // verus!
