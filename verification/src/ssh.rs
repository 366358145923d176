//! The calls of `ssh` and `scp`.
use vstd::prelude::*;

use crate::text;
use crate::text::push_text;

verus! {

/// A user on a host.
pub open spec fn login(user: Seq<char>, domain: Seq<char>) -> Seq<char> {
    user + "@"@ + domain
}

fn login_of(user: &str, domain: &str) -> (r: String)
    ensures
        r@ == login(user@, domain@),
{
    let mut r = text::owned(user);
    r.append("@");
    r.append(domain);
    r
}

/// The arguments of `ssh` that run a command on a server. An unknown host key is taken on, and
/// the agent is forwarded.
pub fn exec_ssh(user: &str, domain: &str, command: &str) -> (r: Vec<String>)
    ensures
        text::texts(r@) == seq![
            "-o"@,
            "LogLevel=QUIET"@,
            "-o"@,
            "StrictHostKeyChecking=accept-new"@,
            "-tA"@,
            login(user@, domain@),
            "--"@,
            command@,
        ],
{
    let mut r = text::no_texts();
    push_text(&mut r, "-o");
    push_text(&mut r, "LogLevel=QUIET");
    push_text(&mut r, "-o");
    push_text(&mut r, "StrictHostKeyChecking=accept-new");
    push_text(&mut r, "-tA");
    push_text(&mut r, login_of(user, domain).as_str());
    push_text(&mut r, "--");
    push_text(&mut r, command);
    assert(text::texts(r@) =~= seq![
        "-o"@,
        "LogLevel=QUIET"@,
        "-o"@,
        "StrictHostKeyChecking=accept-new"@,
        "-tA"@,
        login(user@, domain@),
        "--"@,
        command@,
    ]);
    r
}

/// The arguments of `scp` that copy a file to a server.
pub fn copy_ssh(user: &str, domain: &str, src: &str, dest: &str) -> (r: Vec<String>)
    ensures
        text::texts(r@) == seq![
            "-o"@,
            "StrictHostKeyChecking=accept-new"@,
            "-A"@,
            src@,
            login(user@, domain@) + ":"@ + dest@,
        ],
{
    let mut r = text::no_texts();
    push_text(&mut r, "-o");
    push_text(&mut r, "StrictHostKeyChecking=accept-new");
    push_text(&mut r, "-A");
    push_text(&mut r, src);
    let mut target = login_of(user, domain);
    target.append(":");
    target.append(dest);
    push_text(&mut r, target.as_str());
    assert(text::texts(r@) =~= seq![
        "-o"@,
        "StrictHostKeyChecking=accept-new"@,
        "-A"@,
        src@,
        login(user@, domain@) + ":"@ + dest@,
    ]);
    r
}

/// What became of a command on a server, given whether it succeeded and how its status reads.
pub fn ssh_result(success: bool, status: &str) -> (r: Result<(), String>)
    ensures
        success ==> r is Ok,
        !success ==> (r matches Err(e) && e@ == "SSH command failed with status "@ + status@),
{
    if success {
        Ok(())
    } else {
        let mut e = text::owned("SSH command failed with status ");
        e.append(status);
        Err(e)
    }
}

/// What became of a copy to a server, given whether it succeeded and how its status reads.
pub fn copy_result(success: bool, status: &str) -> (r: Result<(), String>)
    ensures
        success ==> r is Ok,
        !success ==> (r matches Err(e) && e@ == "SCP copy failed with status "@ + status@),
{
    if success {
        Ok(())
    } else {
        let mut e = text::owned("SCP copy failed with status ");
        e.append(status);
        Err(e)
    }
}

} // verus!
