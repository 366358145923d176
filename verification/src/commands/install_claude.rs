//! Installing a coding assistant and the index that it works with.
use vstd::prelude::*;

use crate::text;
use crate::text::push_text;

verus! {

/// One step of the installation: what is told before, the call, and what is told after.
#[derive(Debug, Clone, PartialEq, Eq)]
pub struct InstallStep {
    pub before: String,
    pub program: String,
    pub args: Vec<String>,
    pub success: String,
    /// What a failure reads like, before the status.
    pub failure: String,
    /// What it reads like behind the status.
    pub failure_end: String,
}

/// A step, with its strings as sequences of characters.
pub ghost struct StepView {
    pub before: Seq<char>,
    pub program: Seq<char>,
    pub args: Seq<Seq<char>>,
    pub success: Seq<char>,
    pub failure: Seq<char>,
    pub failure_end: Seq<char>,
}

impl View for InstallStep {
    type V = StepView;

    open spec fn view(&self) -> StepView {
        StepView {
            before: self.before@,
            program: self.program@,
            args: text::texts(self.args@),
            success: self.success@,
            failure: self.failure@,
            failure_end: self.failure_end@,
        }
    }
}

/// The step that runs the installer of a program, which is fetched and handed to a shell.
pub open spec fn installer(name: Seq<char>, url: Seq<char>) -> StepView {
    StepView {
        before: "Installing "@ + name + " via the official installer..."@,
        program: "bash"@,
        args: seq!["-c"@, "curl -fsSL "@ + url + " | bash"@],
        success: name + " installed successfully."@,
        failure: name + " installation failed with status "@,
        failure_end: Seq::empty(),
    }
}

/// The step that has new projects indexed.
pub open spec fn auto_index() -> StepView {
    StepView {
        before: "Enabling codebase-memory-mcp auto-indexing of new projects..."@,
        program: "codebase-memory-mcp"@,
        args: seq!["config"@, "set"@, "auto_index"@, "true"@],
        success: "codebase-memory-mcp auto-indexing enabled."@,
        failure: "Failed to enable codebase-memory-mcp auto-indexing (status "@,
        failure_end: ")"@,
    }
}

fn nothing() -> (r: String)
    ensures
        r@ == Seq::<char>::empty(),
{
    let r = text::owned("");
    proof {
        reveal_strlit("");
        assert(r@ =~= Seq::empty());
    }
    r
}

/// The step that runs the installer of a program.
pub fn run_installer(name: &str, url: &str) -> (r: InstallStep)
    ensures
        r@ == installer(name@, url@),
{
    let mut before = text::owned("Installing ");
    before.append(name);
    before.append(" via the official installer...");
    let mut fetch = text::owned("curl -fsSL ");
    fetch.append(url);
    fetch.append(" | bash");
    let mut args = text::no_texts();
    push_text(&mut args, "-c");
    push_text(&mut args, fetch.as_str());
    assert(text::texts(args@) =~= seq!["-c"@, "curl -fsSL "@ + url@ + " | bash"@]);
    let mut success = text::owned(name);
    success.append(" installed successfully.");
    let mut failure = text::owned(name);
    failure.append(" installation failed with status ");
    InstallStep {
        before,
        program: text::owned("bash"),
        args,
        success,
        failure,
        failure_end: nothing(),
    }
}

/// The step that has new projects indexed.
pub fn enable_memory_mcp_auto_index() -> (r: InstallStep)
    ensures
        r@ == auto_index(),
{
    let mut args = text::no_texts();
    push_text(&mut args, "config");
    push_text(&mut args, "set");
    push_text(&mut args, "auto_index");
    push_text(&mut args, "true");
    assert(text::texts(args@) =~= seq!["config"@, "set"@, "auto_index"@, "true"@]);
    InstallStep {
        before: text::owned("Enabling codebase-memory-mcp auto-indexing of new projects..."),
        program: text::owned("codebase-memory-mcp"),
        args,
        success: text::owned("codebase-memory-mcp auto-indexing enabled."),
        failure: text::owned("Failed to enable codebase-memory-mcp auto-indexing (status "),
        failure_end: text::owned(")"),
    }
}

/// The steps of the installation, each after the one before has succeeded: the assistant by its
/// name and the address of its installer, then the index.
pub fn execute(name: &str, url: &str) -> (r: Vec<InstallStep>)
    ensures
        r@.len() == 3,
        r@[0]@ == installer(name@, url@),
        r@[1]@ == installer(
            "codebase-memory-mcp"@,
            "https://raw.githubusercontent.com/DeusData/codebase-memory-mcp/main/install.sh"@,
        ),
        r@[2]@ == auto_index(),
{
    let mut r: Vec<InstallStep> = Vec::new();
    r.push(run_installer(name, url));
    r.push(
        run_installer(
            "codebase-memory-mcp",
            "https://raw.githubusercontent.com/DeusData/codebase-memory-mcp/main/install.sh",
        ),
    );
    r.push(enable_memory_mcp_auto_index());
    r
}

/// What is reported of a step that ended with a status.
pub fn step_result(step: &InstallStep, success: bool, status: &str) -> (r: Result<String, String>)
    ensures
        success ==> (r matches Ok(m) && m@ == step.success@),
        !success ==> (r matches Err(e) && e@ == step.failure@ + status@ + step.failure_end@),
{
    if success {
        Ok(text::owned(step.success.as_str()))
    } else {
        let mut e = text::owned(step.failure.as_str());
        e.append(status);
        e.append(step.failure_end.as_str());
        Err(e)
    }
}

} // verus!
