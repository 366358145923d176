//! Opening the manual.
use vstd::prelude::*;

use crate::docker;
use crate::text;
use crate::text::{push_text, same};
use crate::utils::platform;

verus! {

/// How a file is opened.
#[derive(Debug, Clone, PartialEq, Eq)]
pub enum Opener {
    /// By a program with these arguments.
    Program { program: String, args: Vec<String> },
    /// By Windows, from the Linux inside it.
    Wsl,
}

/// Whether the tool runs in a Linux inside Windows.
pub fn is_wsl(os: &str, proc_version: Option<&str>) -> (r: bool)
    ensures
        r == (os@ == "linux"@ && platform::is_wsl(docker::opt_str(proc_version))),
{
    same(os, "linux") && match proc_version {
        Some(v) => {
            let l = text::to_lowercase(v);
            text::contains(l.as_str(), "microsoft") || text::contains(l.as_str(), "wsl")
        },
        None => false,
    }
}

/// Whether a file is opened by a program with these arguments.
pub open spec fn opens_by(r: Opener, program: Seq<char>, args: Seq<Seq<char>>) -> bool {
    r matches Opener::Program { program: p, args: a } && p@ == program && text::texts(a@) == args
}

/// How a file is opened in the application that the system has for it.
pub fn execute(os: &str, proc_version: Option<&str>, path: &str) -> (r: Opener)
    ensures
        if os@ == "macos"@ {
            opens_by(r, "open"@, seq![path@])
        } else if os@ == "windows"@ {
            opens_by(r, "cmd"@, seq!["/C"@, "start"@, ""@, path@])
        } else if os@ == "linux"@ && platform::is_wsl(docker::opt_str(proc_version)) {
            r is Wsl
        } else {
            opens_by(r, "xdg-open"@, seq![path@])
        },
{
    let mut args = text::no_texts();
    if same(os, "windows") {
        proof {
            reveal_strlit("windows");
            reveal_strlit("macos");
            assert("windows"@.len() != "macos"@.len());
        }
        push_text(&mut args, "/C");
        push_text(&mut args, "start");
        push_text(&mut args, "");
        push_text(&mut args, path);
        assert(text::texts(args@) =~= seq!["/C"@, "start"@, ""@, path@]);
        return Opener::Program { program: text::owned("cmd"), args };
    }
    push_text(&mut args, path);
    assert(text::texts(args@) =~= seq![path@]);
    if same(os, "macos") {
        return Opener::Program { program: text::owned("open"), args };
    }
    if is_wsl(os, proc_version) {
        return Opener::Wsl;
    }
    Opener::Program { program: text::owned("xdg-open"), args }
}

/// What became of a program that opens the manual: it was not started, or it ended with a status.
pub fn opener_result(
    program: &str,
    path: &str,
    started: bool,
    success: bool,
    status: &str,
) -> (r: Result<(), String>)
    ensures
        r is Ok <==> started && success,
        !started ==> (r matches Err(e) && e@ == "Failed to launch `"@ + program@
            + "` to open the user manual. Open it manually: "@ + text::shown(path@)),
        started && !success ==> (r matches Err(e) && e@ == "`"@ + program@ + "` exited with "@
            + status@ + " while opening the user manual. Open it manually: "@
            + text::shown(path@)),
{
    if !started {
        let mut e = text::owned("Failed to launch `");
        e.append(program);
        e.append("` to open the user manual. Open it manually: ");
        e.append(text::quoted(path).as_str());
        Err(e)
    } else if !success {
        let mut e = text::owned("`");
        e.append(program);
        e.append("` exited with ");
        e.append(status);
        e.append(" while opening the user manual. Open it manually: ");
        e.append(text::quoted(path).as_str());
        Err(e)
    } else {
        Ok(())
    }
}

/// What Windows calls a path, by what `wslpath` printed where it succeeded.
pub fn windows_path(path: &str, output: Option<&str>) -> (r: Result<String, String>)
    ensures
        match output {
            Some(o) if text::trimmed(o@).len() > 0 => r matches Ok(p) && p@ == text::trimmed(o@),
            _ => r matches Err(e) && e@ == "Could not translate "@ + text::shown(path@)
                + " to a Windows path via `wslpath`; is WSL interop enabled?"@,
        },
{
    if let Some(o) = output {
        let p = text::trim(o);
        if !p.as_str().is_empty() {
            return Ok(p);
        }
    }
    let mut e = text::owned("Could not translate ");
    e.append(text::quoted(path).as_str());
    e.append(" to a Windows path via `wslpath`; is WSL interop enabled?");
    Err(e)
}

/// The arguments of `cmd.exe` that open a path of Windows.
pub fn windows_opener(win_path: &str) -> (r: Vec<String>)
    ensures
        text::texts(r@) == seq!["/C"@, "start"@, ""@, win_path@],
{
    let mut r = text::no_texts();
    push_text(&mut r, "/C");
    push_text(&mut r, "start");
    push_text(&mut r, "");
    push_text(&mut r, win_path);
    assert(text::texts(r@) =~= seq!["/C"@, "start"@, ""@, win_path@]);
    r
}

} // verus!
