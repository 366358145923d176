//! How a command line is read, and what the command that it names does first.
use vstd::prelude::*;

use crate::commands::custom;
use crate::commands::custom::{args_before_separator, split_leading_subcommand, CustomCommand};
use crate::docker;
use crate::json;
use crate::number;
use crate::paths;
use crate::template::summary::Summary;
use crate::text;
use crate::text::{is_listed, push_text, same};
use crate::ui;
use crate::ui::{Level, Message};
use crate::utils;

verus! {

// ---------------------------------------------------------------- the key agent

/// What the command line asks of the forwarding of the key agent.
#[derive(Debug, Clone, Copy, PartialEq, Eq, Structural)]
pub enum AgentRequest {
    Stop,
    Restart,
    Start,
    Nothing,
}

/// What the tool's own arguments ask of the forwarding: to stop it comes before all else.
pub open spec fn agent_asked(own: Seq<Seq<char>>) -> AgentRequest {
    if own.contains("--stop-ssh-agent"@) {
        AgentRequest::Stop
    } else if own.contains("--restart-ssh-agent"@) {
        AgentRequest::Restart
    } else if own.contains("--start-ssh-agent"@) {
        AgentRequest::Start
    } else {
        AgentRequest::Nothing
    }
}

/// What a command line asks of the forwarding. What follows a `--` is not the tool's own.
pub fn agent_request(args: &Vec<String>) -> (r: AgentRequest)
    ensures
        r == agent_asked(custom::before_separator(text::texts(args@))),
{
    let own = args_before_separator(args);
    if is_listed(&own, "--stop-ssh-agent") {
        AgentRequest::Stop
    } else if is_listed(&own, "--restart-ssh-agent") {
        AgentRequest::Restart
    } else if is_listed(&own, "--start-ssh-agent") {
        AgentRequest::Start
    } else {
        AgentRequest::Nothing
    }
}

/// What a forwarding that could not be started means, given the process that its file names where
/// that process lives.
pub fn start_failed(running: Option<u32>, error: &str) -> (r: Result<String, String>)
    ensures
        (match running {
            Some(pid) => r matches Ok(m) && m@ == "SSH agent daemon is already running (PID: "@
                + number::decimal(pid as nat) + ")."@,
            None => r matches Err(e) && e@ == "Failed to start SSH agent daemon: "@ + error@,
        }),
{
    match running {
        Some(pid) => {
            let mut m = text::owned("SSH agent daemon is already running (PID: ");
            m.append(number::to_decimal(pid as u64).as_str());
            m.append(").");
            Ok(m)
        },
        None => {
            let mut e = text::owned("Failed to start SSH agent daemon: ");
            e.append(error);
            Err(e)
        },
    }
}

/// A name as it stands on a command line: with hyphens in place of underscores.
pub open spec fn hyphenated(s: Seq<char>) -> Seq<char> {
    s.map_values(
        |c: char|
            if c == '_' {
                '-'
            } else {
                c
            },
    )
}

fn hyphenate(s: &str) -> (r: String)
    ensures
        r@ == hyphenated(s@),
{
    let v = text::chars_of(s);
    let mut r: Vec<char> = Vec::new();
    let mut i: usize = 0;
    while i < v.len()
        invariant
            i <= v@.len(),
            v@ == s@,
            r@ == hyphenated(s@).take(i as int),
        decreases v@.len() - i,
    {
        if v[i] == '_' {
            r.push('-');
        } else {
            r.push(v[i]);
        }
        i += 1;
        assert(r@ =~= hyphenated(s@).take(i as int));
    }
    let n: usize = r.len();
    assert(r@.subrange(0, n as int) =~= hyphenated(s@));
    text::string_of(&r, 0, n)
}

/// The command that installs the coding assistant, as its module is called.
pub const ASSISTANT_COMMAND: &'static str = "install_claude";

/// Whether an argument names something that works without the key agent.
pub open spec fn works_without_agent(arg: Seq<char>) -> bool {
    arg == "--help"@ || arg == "-h"@ || arg == "--version"@ || arg == "-V"@ || arg
        == "docker-cli-plugin-metadata"@ || arg == "upgrade"@ || arg == hyphenated(
        ASSISTANT_COMMAND@,
    ) || arg == "install-deps"@ || arg == "user-manual"@
}

/// Whether one of some arguments names something that works without the key agent.
pub open spec fn any_without_agent(args: Seq<Seq<char>>) -> bool {
    exists|i: int| 0 <= i < args.len() && works_without_agent(#[trigger] args[i])
}

fn is_without_agent(arg: &str) -> (r: bool)
    ensures
        r == works_without_agent(arg@),
{
    same(arg, "--help") || same(arg, "-h") || same(arg, "--version") || same(arg, "-V") || same(
        arg,
        "docker-cli-plugin-metadata",
    ) || same(arg, "upgrade") || same(
        arg,
        hyphenate(ASSISTANT_COMMAND).as_str(),
    ) || same(arg, "install-deps") || same(
        arg,
        "user-manual",
    )
}

/// Whether the forwarding of the key agent is seen to before the command runs.
pub fn needs_agent(args: &Vec<String>, skipped: bool) -> (r: bool)
    ensures
        r == (!skipped && !any_without_agent(custom::before_separator(text::texts(args@)))),
{
    if skipped {
        return false;
    }
    let own = args_before_separator(args);
    let ghost seqs = text::texts(own@);
    let mut i: usize = 0;
    while i < own.len()
        invariant
            i <= own@.len(),
            seqs == text::texts(own@),
            seqs == custom::before_separator(text::texts(args@)),
            forall|k: int| 0 <= k < i ==> !works_without_agent(#[trigger] seqs[k]),
        decreases own@.len() - i,
    {
        assert(seqs[i as int] == own@[i as int]@);
        if is_without_agent(own[i].as_str()) {
            return false;
        }
        i += 1;
    }
    true
}

// ---------------------------------------------------------------- the beginning of a run

/// What a run is about.
#[derive(Debug, Clone, Copy, PartialEq, Eq, Structural)]
pub enum Opening {
    Version,
    Metadata,
    /// The help for the whole tool.
    Help,
    Command,
}

/// What a run is about: a question for the version or for help counts only before the subcommand,
/// one for the metadata anywhere before a `--`.
pub open spec fn opened(args: Seq<Seq<char>>, flags: Seq<Seq<char>>) -> Opening {
    let token = match custom::subcommand(args, flags) {
        Some((t, _)) => Some(t),
        None => None,
    };
    if token == Some("--version"@) || token == Some("-V"@) {
        Opening::Version
    } else if custom::before_separator(args).contains("docker-cli-plugin-metadata"@) {
        Opening::Metadata
    } else if token == Some("help"@) || token == Some("--help"@) || token == Some("-h"@) {
        Opening::Help
    } else {
        Opening::Command
    }
}

/// What a run is about.
pub fn opening(args: &Vec<String>, global_flags: &Vec<String>) -> (r: Opening)
    ensures
        r == opened(text::texts(args@), text::texts(global_flags@)),
{
    let leading = split_leading_subcommand(args, global_flags);
    if let Some((t, _)) = &leading {
        if same(t.as_str(), "--version") || same(t.as_str(), "-V") {
            return Opening::Version;
        }
    }
    let own = args_before_separator(args);
    if is_listed(&own, "docker-cli-plugin-metadata") {
        return Opening::Metadata;
    }
    if let Some((t, _)) = &leading {
        if same(t.as_str(), "help") || same(t.as_str(), "--help") || same(t.as_str(), "-h") {
            return Opening::Help;
        }
    }
    Opening::Command
}

/// The project directory that some arguments give, from the first on.
pub open spec fn given_dir(own: Seq<Seq<char>>) -> Option<Seq<char>>
    decreases own.len(),
{
    if own.len() == 0 {
        None
    } else if (own[0] == "--dir"@ || own[0] == "-d"@) && own.len() > 1 {
        Some(own[1])
    } else if "--dir="@.is_prefix_of(own[0]) {
        Some(own[0].skip("--dir="@.len() as int))
    } else if "-d="@.is_prefix_of(own[0]) {
        Some(own[0].skip("-d="@.len() as int))
    } else {
        given_dir(own.drop_first())
    }
}

/// The project directory that a command line gives, before a `--`.
pub fn project_dir_argument(args: &Vec<String>) -> (r: Option<String>)
    ensures
        paths::opt(r) == given_dir(custom::before_separator(text::texts(args@))),
{
    let own = args_before_separator(args);
    let ghost seqs = text::texts(own@);
    let n: usize = own.len();
    let mut i: usize = 0;
    assert(seqs.skip(0) =~= seqs);
    while i < n
        invariant
            i <= n == own@.len(),
            seqs == text::texts(own@),
            seqs == custom::before_separator(text::texts(args@)),
            given_dir(seqs) == given_dir(seqs.skip(i as int)),
        decreases n - i,
    {
        assert(seqs.skip(i as int)[0] == own@[i as int]@);
        assert(seqs.skip(i as int).drop_first() =~= seqs.skip(i + 1));
        let token = own[i].as_str();
        if (same(token, "--dir") || same(token, "-d")) && i + 1 < n {
            assert(seqs.skip(i as int)[1] == own@[i + 1]@);
            return Some(text::owned(own[i + 1].as_str()));
        }
        if let Some(v) = text::strip_prefix(token, "--dir=") {
            return Some(v);
        }
        if let Some(v) = text::strip_prefix(token, "-d=") {
            return Some(v);
        }
        i += 1;
    }
    None
}

/// What Docker is told of this plugin, as JSON.
pub fn metadata(version: &str) -> (r: String)
    ensures
        r@
            == "{\"SchemaVersion\":\"0.1.0\",\"ShortDescription\":\"IK Docker Control CLI Plugin\",\"Vendor\":\"INTERLIGENT kommunizieren GmbH\",\"Version\":"@
            + json::json_quoted(version@) + "}"@,
{
    let mut r = text::owned(
        "{\"SchemaVersion\":\"0.1.0\",\"ShortDescription\":\"IK Docker Control CLI Plugin\",\"Vendor\":\"INTERLIGENT kommunizieren GmbH\",\"Version\":",
    );
    r.append(json::quote(version).as_str());
    r.append("}");
    r
}

/// Whether the programs that the tool calls are looked for: not for the commands that install
/// them or need none.
pub fn needs_dependency_check(args: &Vec<String>, skipped: bool) -> (r: bool)
    ensures
        r == ({
            let own = custom::before_separator(text::texts(args@));
            !skipped && !own.contains(hyphenated(ASSISTANT_COMMAND@)) && !own.contains("install-deps"@)
                && !own.contains("user-manual"@)
        }),
{
    let own = args_before_separator(args);
    !skipped && !is_listed(&own, hyphenate(ASSISTANT_COMMAND).as_str()) && !is_listed(&own, "install-deps")
        && !is_listed(&own, "user-manual")
}

/// Whether the tool is asked to tell what it does.
pub fn wants_debug(args: &Vec<String>) -> (r: bool)
    ensures
        r == custom::before_separator(text::texts(args@)).contains("--debug"@),
{
    let own = args_before_separator(args);
    is_listed(&own, "--debug")
}

/// One part of the help on the commands of a project.
#[derive(Debug, Clone, PartialEq, Eq)]
pub struct HelpSection {
    pub heading: String,
    pub rows: Vec<CustomCommand>,
}

/// The parts of the help that depend on the project: how to migrate it where it is an old one,
/// and its own commands where it has some.
pub fn custom_help(has_old_control: bool, commands: Vec<CustomCommand>) -> (r: Vec<HelpSection>)
    ensures
        r@.len() == (if has_old_control {
            1int
        } else {
            0
        }) + (if commands@.len() > 0 {
            1int
        } else {
            0
        }),
        has_old_control ==> {
            &&& r@[0].heading@ == "Migration Command:"@
            &&& r@[0].rows@.len() == 1
            &&& r@[0].rows@[0].name@ == "migrate"@
            &&& r@[0].rows@[0].description@ == "Migrate from old docker-control project"@
        },
        commands@.len() > 0 ==> r@.last().heading@ == "Custom Commands:"@ && r@.last().rows@
            == commands@,
{
    let mut r: Vec<HelpSection> = Vec::new();
    if has_old_control {
        let mut rows: Vec<CustomCommand> = Vec::new();
        rows.push(
            CustomCommand {
                name: text::owned("migrate"),
                description: text::owned("Migrate from old docker-control project"),
            },
        );
        r.push(HelpSection { heading: text::owned("Migration Command:"), rows });
    }
    if commands.len() > 0 {
        r.push(HelpSection { heading: text::owned("Custom Commands:"), rows: commands });
    }
    r
}

// ---------------------------------------------------------------- the commands

/// The commands that the tool brings.
#[derive(Debug, Clone, Copy, PartialEq, Eq, Structural)]
pub enum Builtin {
    AddDeployConfig,
    Build,
    Console,
    CleanupBackups,
    CreateControlScript,
    Deploy,
    Doctor,
    Init,
    InstallClaude,
    InstallDeps,
    Merge,
    Module,
    Pull,
    PullIngress,
    Release,
    Restart,
    RestartIngress,
    SetAcl,
    ShowRunning,
    Start,
    StartIngress,
    Status,
    StatusIngress,
    Stop,
    StopIngress,
    TrustCa,
    Migrate,
    Update,
    Upgrade,
    UserManual,
}

/// What a command is called.
pub open spec fn name_of(b: Builtin) -> Seq<char> {
    match b {
        Builtin::AddDeployConfig => "add-deploy-config"@,
        Builtin::Build => "build"@,
        Builtin::Console => "console"@,
        Builtin::CleanupBackups => "cleanup-backups"@,
        Builtin::CreateControlScript => "create-control-script"@,
        Builtin::Deploy => "deploy"@,
        Builtin::Doctor => "doctor"@,
        Builtin::Init => "init"@,
        Builtin::InstallClaude => hyphenated(ASSISTANT_COMMAND@),
        Builtin::InstallDeps => "install-deps"@,
        Builtin::Merge => "merge"@,
        Builtin::Module => "module"@,
        Builtin::Pull => "pull"@,
        Builtin::PullIngress => "pull-ingress"@,
        Builtin::Release => "release"@,
        Builtin::Restart => "restart"@,
        Builtin::RestartIngress => "restart-ingress"@,
        Builtin::SetAcl => "setacl"@,
        Builtin::ShowRunning => "show-running"@,
        Builtin::Start => "start"@,
        Builtin::StartIngress => "start-ingress"@,
        Builtin::Status => "status"@,
        Builtin::StatusIngress => "status-ingress"@,
        Builtin::Stop => "stop"@,
        Builtin::StopIngress => "stop-ingress"@,
        Builtin::TrustCa => "trust-ca"@,
        Builtin::Migrate => "migrate"@,
        Builtin::Update => "update"@,
        Builtin::Upgrade => "upgrade"@,
        Builtin::UserManual => "user-manual"@,
    }
}

impl Builtin {
    /// What the command is called.
    pub fn name(&self) -> (r: String)
        ensures
            r@ == name_of(*self),
    {
        match self {
            Builtin::AddDeployConfig => text::owned("add-deploy-config"),
            Builtin::Build => text::owned("build"),
            Builtin::Console => text::owned("console"),
            Builtin::CleanupBackups => text::owned("cleanup-backups"),
            Builtin::CreateControlScript => text::owned("create-control-script"),
            Builtin::Deploy => text::owned("deploy"),
            Builtin::Doctor => text::owned("doctor"),
            Builtin::Init => text::owned("init"),
            Builtin::InstallClaude => hyphenate(ASSISTANT_COMMAND),
            Builtin::InstallDeps => text::owned("install-deps"),
            Builtin::Merge => text::owned("merge"),
            Builtin::Module => text::owned("module"),
            Builtin::Pull => text::owned("pull"),
            Builtin::PullIngress => text::owned("pull-ingress"),
            Builtin::Release => text::owned("release"),
            Builtin::Restart => text::owned("restart"),
            Builtin::RestartIngress => text::owned("restart-ingress"),
            Builtin::SetAcl => text::owned("setacl"),
            Builtin::ShowRunning => text::owned("show-running"),
            Builtin::Start => text::owned("start"),
            Builtin::StartIngress => text::owned("start-ingress"),
            Builtin::Status => text::owned("status"),
            Builtin::StatusIngress => text::owned("status-ingress"),
            Builtin::Stop => text::owned("stop"),
            Builtin::StopIngress => text::owned("stop-ingress"),
            Builtin::TrustCa => text::owned("trust-ca"),
            Builtin::Migrate => text::owned("migrate"),
            Builtin::Update => text::owned("update"),
            Builtin::Upgrade => text::owned("upgrade"),
            Builtin::UserManual => text::owned("user-manual"),
        }
    }
}

/// One thing that a command does.
#[derive(Debug, Clone, PartialEq, Eq)]
pub enum Task {
    /// End where the project is not managed by the tool.
    CheckManaged,
    /// End where a program that the command needs is missing.
    RequireTools,
    /// End where the containers of the project do not run.
    RequireRunning,
    /// Tell where the template has changed.
    ReportDrift,
    /// Offer to pull images that are out of date.
    OfferImagePull,
    /// A call of Docker Compose for the project.
    Compose(Vec<String>),
    /// The same, where a failure does not matter.
    TryCompose(Vec<String>),
    /// A call of Docker Compose for the ingress.
    Ingress(Vec<String>),
    /// Give the user access to the files; a failure is told.
    HostAcl,
    /// Give the containers access to the files; a failure is told.
    ContainerAcl,
    /// What the command is for.
    Own,
}

/// A thing that a command does, with its strings as sequences of characters.
pub ghost enum TaskView {
    CheckManaged,
    RequireTools,
    RequireRunning,
    ReportDrift,
    OfferImagePull,
    Compose(Seq<Seq<char>>),
    TryCompose(Seq<Seq<char>>),
    Ingress(Seq<Seq<char>>),
    HostAcl,
    ContainerAcl,
    Own,
}

impl View for Task {
    type V = TaskView;

    open spec fn view(&self) -> TaskView {
        match *self {
            Task::CheckManaged => TaskView::CheckManaged,
            Task::RequireTools => TaskView::RequireTools,
            Task::RequireRunning => TaskView::RequireRunning,
            Task::ReportDrift => TaskView::ReportDrift,
            Task::OfferImagePull => TaskView::OfferImagePull,
            Task::Compose(a) => TaskView::Compose(text::texts(a@)),
            Task::TryCompose(a) => TaskView::TryCompose(text::texts(a@)),
            Task::Ingress(a) => TaskView::Ingress(text::texts(a@)),
            Task::HostAcl => TaskView::HostAcl,
            Task::ContainerAcl => TaskView::ContainerAcl,
            Task::Own => TaskView::Own,
        }
    }
}

/// The views of the things that a command does.
pub open spec fn todo(v: Seq<Task>) -> Seq<TaskView> {
    v.map_values(|t: Task| t@)
}

fn put(out: &mut Vec<Task>, t: Task)
    ensures
        todo(final(out)@) == todo(old(out)@).push(t@),
{
    let ghost before = todo(out@);
    out.push(t);
    assert(todo(out@) =~= before.push(t@));
}

/// What a command does, in its order. `args` are those that `build` hands on.
pub open spec fn tasks_of(b: Builtin, args: Seq<Seq<char>>) -> Seq<TaskView> {
    match b {
        Builtin::AddDeployConfig => seq![TaskView::Own],
        Builtin::Build => seq![TaskView::CheckManaged, TaskView::Compose(seq!["build"@] + args)],
        Builtin::Console => seq![TaskView::CheckManaged, TaskView::Own],
        Builtin::CleanupBackups => seq![TaskView::Own],
        Builtin::CreateControlScript => seq![TaskView::Own],
        Builtin::Deploy => seq![TaskView::RequireTools, TaskView::Own],
        Builtin::Doctor => seq![TaskView::CheckManaged, TaskView::Own],
        Builtin::Init => seq![TaskView::Own],
        Builtin::InstallClaude => seq![TaskView::Own],
        Builtin::InstallDeps => seq![TaskView::Own],
        Builtin::Merge => seq![TaskView::Own],
        Builtin::Module => seq![TaskView::CheckManaged, TaskView::Own],
        Builtin::Pull => seq![TaskView::CheckManaged, TaskView::Compose(seq!["pull"@])],
        Builtin::PullIngress => seq![TaskView::Ingress(seq!["pull"@])],
        Builtin::Release => seq![TaskView::Own],
        Builtin::Restart => seq![TaskView::CheckManaged, TaskView::RequireTools, TaskView::ReportDrift, TaskView::OfferImagePull, TaskView::Compose(seq!["down"@]), TaskView::Compose(seq!["up"@, "-d"@]), TaskView::HostAcl, TaskView::ContainerAcl],
        Builtin::RestartIngress => seq![TaskView::Ingress(seq!["down"@]), TaskView::Ingress(seq!["up"@, "-d"@])],
        Builtin::SetAcl => seq![TaskView::CheckManaged, TaskView::RequireTools, TaskView::RequireRunning, TaskView::HostAcl, TaskView::ContainerAcl],
        Builtin::ShowRunning => seq![TaskView::Own],
        Builtin::Start => seq![TaskView::CheckManaged, TaskView::RequireTools, TaskView::ReportDrift, TaskView::OfferImagePull, TaskView::Compose(seq!["up"@, "-d"@]), TaskView::HostAcl, TaskView::ContainerAcl],
        Builtin::StartIngress => seq![TaskView::Ingress(seq!["up"@, "-d"@])],
        Builtin::Status => seq![TaskView::Own, TaskView::TryCompose(seq!["ps"@])],
        Builtin::StatusIngress => seq![TaskView::Ingress(seq!["ps"@])],
        Builtin::Stop => seq![TaskView::CheckManaged, TaskView::Compose(seq!["down"@])],
        Builtin::StopIngress => seq![TaskView::Ingress(seq!["down"@])],
        Builtin::TrustCa => seq![TaskView::Own],
        Builtin::Migrate => seq![TaskView::Own],
        Builtin::Update => seq![TaskView::CheckManaged, TaskView::Own],
        Builtin::Upgrade => seq![TaskView::Own],
        Builtin::UserManual => seq![TaskView::Own],
    }
}

fn one(a: &str) -> (r: Vec<String>)
    ensures
        text::texts(r@) == seq![a@],
{
    let mut r = text::no_texts();
    push_text(&mut r, a);
    assert(text::texts(r@) =~= seq![a@]);
    r
}

fn two(a: &str, b: &str) -> (r: Vec<String>)
    ensures
        text::texts(r@) == seq![a@, b@],
{
    let mut r = text::no_texts();
    push_text(&mut r, a);
    push_text(&mut r, b);
    assert(text::texts(r@) =~= seq![a@, b@]);
    r
}

fn build_args(args: &Vec<String>) -> (r: Vec<String>)
    ensures
        text::texts(r@) == seq!["build"@] + text::texts(args@),
{
    let mut r = one("build");
    text::push_all(&mut r, args);
    r
}

/// What a command does, in its order.
pub fn tasks(b: Builtin, args: &Vec<String>) -> (r: Vec<Task>)
    ensures
        todo(r@) == tasks_of(b, text::texts(args@)),
{
    let mut r: Vec<Task> = Vec::new();
    assert(todo(r@) =~= Seq::empty());
    match b {
        Builtin::AddDeployConfig => {
            put(&mut r, Task::Own);
        },
        Builtin::Build => {
            put(&mut r, Task::CheckManaged);
            put(&mut r, Task::Compose(build_args(args)));
        },
        Builtin::Console => {
            put(&mut r, Task::CheckManaged);
            put(&mut r, Task::Own);
        },
        Builtin::CleanupBackups => {
            put(&mut r, Task::Own);
        },
        Builtin::CreateControlScript => {
            put(&mut r, Task::Own);
        },
        Builtin::Deploy => {
            put(&mut r, Task::RequireTools);
            put(&mut r, Task::Own);
        },
        Builtin::Doctor => {
            put(&mut r, Task::CheckManaged);
            put(&mut r, Task::Own);
        },
        Builtin::Init => {
            put(&mut r, Task::Own);
        },
        Builtin::InstallClaude => {
            put(&mut r, Task::Own);
        },
        Builtin::InstallDeps => {
            put(&mut r, Task::Own);
        },
        Builtin::Merge => {
            put(&mut r, Task::Own);
        },
        Builtin::Module => {
            put(&mut r, Task::CheckManaged);
            put(&mut r, Task::Own);
        },
        Builtin::Pull => {
            put(&mut r, Task::CheckManaged);
            put(&mut r, Task::Compose(one("pull")));
        },
        Builtin::PullIngress => {
            put(&mut r, Task::Ingress(one("pull")));
        },
        Builtin::Release => {
            put(&mut r, Task::Own);
        },
        Builtin::Restart => {
            put(&mut r, Task::CheckManaged);
            put(&mut r, Task::RequireTools);
            put(&mut r, Task::ReportDrift);
            put(&mut r, Task::OfferImagePull);
            put(&mut r, Task::Compose(one("down")));
            put(&mut r, Task::Compose(two("up", "-d")));
            put(&mut r, Task::HostAcl);
            put(&mut r, Task::ContainerAcl);
        },
        Builtin::RestartIngress => {
            put(&mut r, Task::Ingress(one("down")));
            put(&mut r, Task::Ingress(two("up", "-d")));
        },
        Builtin::SetAcl => {
            put(&mut r, Task::CheckManaged);
            put(&mut r, Task::RequireTools);
            put(&mut r, Task::RequireRunning);
            put(&mut r, Task::HostAcl);
            put(&mut r, Task::ContainerAcl);
        },
        Builtin::ShowRunning => {
            put(&mut r, Task::Own);
        },
        Builtin::Start => {
            put(&mut r, Task::CheckManaged);
            put(&mut r, Task::RequireTools);
            put(&mut r, Task::ReportDrift);
            put(&mut r, Task::OfferImagePull);
            put(&mut r, Task::Compose(two("up", "-d")));
            put(&mut r, Task::HostAcl);
            put(&mut r, Task::ContainerAcl);
        },
        Builtin::StartIngress => {
            put(&mut r, Task::Ingress(two("up", "-d")));
        },
        Builtin::Status => {
            put(&mut r, Task::Own);
            put(&mut r, Task::TryCompose(one("ps")));
        },
        Builtin::StatusIngress => {
            put(&mut r, Task::Ingress(one("ps")));
        },
        Builtin::Stop => {
            put(&mut r, Task::CheckManaged);
            put(&mut r, Task::Compose(one("down")));
        },
        Builtin::StopIngress => {
            put(&mut r, Task::Ingress(one("down")));
        },
        Builtin::TrustCa => {
            put(&mut r, Task::Own);
        },
        Builtin::Migrate => {
            put(&mut r, Task::Own);
        },
        Builtin::Update => {
            put(&mut r, Task::CheckManaged);
            put(&mut r, Task::Own);
        },
        Builtin::Upgrade => {
            put(&mut r, Task::Own);
        },
        Builtin::UserManual => {
            put(&mut r, Task::Own);
        },
    }
    assert(todo(r@) =~= tasks_of(b, text::texts(args@)));
    r
}

/// Whether a command works only in a project that the tool manages.
pub open spec fn requires_managed(name: Seq<char>) -> bool {
    name == "build"@ || name == "console"@ || name == "doctor"@ || name == "module"@ || name
        == "pull"@ || name == "setacl"@ || name == "start"@ || name == "stop"@ || name
        == "restart"@ || name == "update"@
}

/// Whether a command works only in a project that the tool manages. A script that takes the place
/// of the command is held to the same.
pub fn command_requires_managed_project(name: &str) -> (r: bool)
    ensures
        r == requires_managed(name@),
{
    same(name, "build") || same(name, "console") || same(name, "doctor") || same(name, "module")
        || same(name, "pull") || same(name, "setacl") || same(name, "start") || same(name, "stop")
        || same(name, "restart") || same(name, "update")
}

/// What is told of a directory that the tool does not manage.
pub fn check_managed(project_dir: &str, existing: &Vec<String>) -> (r: Result<(), String>)
    ensures
        r is Ok <==> utils::managed(project_dir@, text::texts(existing@)),
        r matches Err(e) ==> e@ == text::shown(project_dir@)
            + " not managed by docker control plugin"@,
{
    if utils::is_managed(project_dir, existing) {
        Ok(())
    } else {
        let mut e = text::quoted(project_dir);
        e.append(" not managed by docker control plugin");
        Err(e)
    }
}

// ---------------------------------------------------------------- scripts

/// What becomes of a command that the tool does not bring.
#[derive(Debug, Clone, PartialEq, Eq)]
pub enum ScriptRun {
    /// The script at this path is asked for its help.
    Help(String),
    /// The script at this path is run with these arguments.
    Run { path: String, args: Vec<String> },
}

/// What becomes of a command that the tool does not bring: the script of its name is run, or asked
/// for its help. The name has to be a plain one.
pub fn execute_external_script(
    project_dir: &str,
    args: &Vec<String>,
    existing: &Vec<String>,
) -> (r: Result<ScriptRun, String>)
    ensures
        ({
            let all = text::texts(args@);
            let found = paths::first_existing(
                custom::script_paths(project_dir@, all[0]),
                text::texts(existing@),
            );
            if all.len() == 0 {
                r matches Err(e) && e@ == "No command provided"@
            } else if !utils::is_plain_name(all[0]) {
                r matches Err(e) && e@ == "Invalid command name '"@ + all[0]
                    + "': must be a plain filename with no path separators"@
            } else if found is None {
                r matches Err(e) && e@ == "Unknown command: "@ + all[0]
            } else if all.len() > 1 && (all[1] == "--help"@ || all[1] == "-h"@) {
                r matches Ok(ScriptRun::Help(p)) && Some(p@) == found
            } else {
                r matches Ok(ScriptRun::Run { path, args: a }) && Some(path@) == found
                    && text::texts(a@) == all.skip(1)
            }
        }),
{
    if args.len() == 0 {
        return Err(text::owned("No command provided"));
    }
    let ghost all = text::texts(args@);
    assert(all[0] == args@[0]@);
    let name = args[0].as_str();
    if let Err(e) = utils::sanitize_command_name(name) {
        return Err(e);
    }
    let path = match custom::find_script_path(project_dir, name, existing) {
        Some(p) => p,
        None => {
            let mut e = text::owned("Unknown command: ");
            e.append(name);
            return Err(e);
        },
    };
    let mut rest = text::no_texts();
    let mut i: usize = 1;
    assert(all.subrange(1, 1) =~= Seq::empty());
    while i < args.len()
        invariant
            1 <= i <= args@.len(),
            all == text::texts(args@),
            text::texts(rest@) == all.subrange(1, i as int),
        decreases args@.len() - i,
    {
        push_text(&mut rest, args[i].as_str());
        assert(all.subrange(1, i + 1) =~= all.subrange(1, i as int).push(all[i as int]));
        i += 1;
    }
    assert(text::texts(rest@) =~= all.skip(1));
    assert(rest@.len() > 0 ==> rest@[0]@ == text::texts(rest@)[0]);
    if custom::wants_help(&rest) {
        Ok(ScriptRun::Help(path))
    } else {
        Ok(ScriptRun::Run { path, args: rest })
    }
}

// ---------------------------------------------------------------- notices

/// Whether a change of the template is worth a notice: what is merely unknown is not, since only
/// an update could clear it.
pub open spec fn worth_a_notice(s: &Summary) -> bool {
    s.safe@.len() > 0 || s.conflicts@.len() > 0 || s.removed@.len() > 0 || s.env_keys@.len() > 0
        || s.gitignore_entries@.len() > 0
}

/// What is told of a template that has changed since the project was brought up to date, by the
/// version it was brought up to where that is known.
pub fn maybe_report_template_drift(
    summary: &Summary,
    synced_at: Option<&str>,
    current: &str,
) -> (r: Option<String>)
    ensures
        r is Some <==> worth_a_notice(summary),
        r matches Some(m) ==> ({
            let since = match synced_at {
                Some(s) => s@,
                None => "an untracked version"@,
            };
            if since == current@ {
                m@ == "The project template has changed since your last sync ("@ + since + ")."@
            } else {
                m@ == "The project template has changed since "@ + since + " (now "@ + current@
                    + ")."@
            }
        }),
{
    if summary.safe.len() == 0 && summary.conflicts.len() == 0 && summary.removed.len() == 0
        && summary.env_keys.len() == 0 && summary.gitignore_entries.len() == 0 {
        return None;
    }
    let since = match synced_at {
        Some(s) => s,
        None => "an untracked version",
    };
    if same(since, current) {
        let mut m = text::owned("The project template has changed since your last sync (");
        m.append(since);
        m.append(").");
        Some(m)
    } else {
        let mut m = text::owned("The project template has changed since ");
        m.append(since);
        m.append(" (now ");
        m.append(current);
        m.append(").");
        Some(m)
    }
}

/// The images of some that are out of date.
pub open spec fn outdated(all: Seq<docker::ImageStatus>) -> Seq<Seq<char>>
    decreases all.len(),
{
    if all.len() == 0 {
        Seq::empty()
    } else {
        let rest = outdated(all.drop_last());
        if all.last().outdated {
            rest.push(all.last().image@)
        } else {
            rest
        }
    }
}

/// What is told of images that are out of date; nothing where there are none, and then nothing is
/// offered either.
pub fn maybe_offer_image_pull(images: &Vec<docker::ImageStatus>) -> (r: Vec<Message>)
    ensures
        ui::said(r@) == (if outdated(images@).len() == 0 {
            Seq::empty()
        } else {
            seq![(Level::Warning, "The following images appear to be outdated:"@)] + ui::each(
                Level::Warning,
                "  - "@,
                outdated(images@),
                ""@,
            )
        }),
{
    let mut old = text::no_texts();
    let mut i: usize = 0;
    assert(images@.take(0) =~= Seq::empty());
    while i < images.len()
        invariant
            i <= images@.len(),
            text::texts(old@) == outdated(images@.take(i as int)),
        decreases images@.len() - i,
    {
        assert(images@.take(i + 1).drop_last() =~= images@.take(i as int));
        assert(images@.take(i + 1).last() == images@[i as int]);
        if images[i].outdated {
            push_text(&mut old, images[i].image.as_str());
        }
        i += 1;
    }
    assert(images@.take(i as int) =~= images@);
    let mut r: Vec<Message> = Vec::new();
    assert(ui::said(r@) =~= Seq::empty());
    assert(text::texts(old@).len() == old@.len());
    if old.len() > 0 {
        ui::say(
            &mut r,
            Level::Warning,
            text::owned("The following images appear to be outdated:"),
        );
        ui::say_each(&mut r, Level::Warning, "  - ", &old, "");
        assert(ui::said(r@) =~= seq![
            (Level::Warning, "The following images appear to be outdated:"@),
        ] + ui::each(Level::Warning, "  - "@, outdated(images@), ""@));
    }
    r
}

// ---------------------------------------------------------------- laws

/// What a command line says behind a `--` changes nothing of what the tool itself is asked: it
/// belongs to the command that is run.
pub proof fn what_follows_the_separator_is_not_the_tools_own(
    own: Seq<Seq<char>>,
    rest: Seq<Seq<char>>,
    other: Seq<Seq<char>>,
)
    ensures
        custom::before_separator(own + seq!["--"@] + rest) == custom::before_separator(
            own + seq!["--"@] + other,
        ),
        agent_asked(custom::before_separator(own + seq!["--"@] + rest)) == agent_asked(
            custom::before_separator(own + seq!["--"@] + other),
        ),
    decreases own.len(),
{
    let a = own + seq!["--"@] + rest;
    let b = own + seq!["--"@] + other;
    if own.len() > 0 && own[0] != "--"@ {
        what_follows_the_separator_is_not_the_tools_own(own.drop_first(), rest, other);
        assert(a.drop_first() =~= own.drop_first() + seq!["--"@] + rest);
        assert(b.drop_first() =~= own.drop_first() + seq!["--"@] + other);
    }
}

proof fn lemma_names_apart(b: Builtin)
    ensures
        requires_managed(name_of(b)) <==> (b == Builtin::Build || b == Builtin::Console || b
            == Builtin::Doctor || b == Builtin::Module || b == Builtin::Pull || b
            == Builtin::SetAcl || b == Builtin::Start || b == Builtin::Stop || b
            == Builtin::Restart || b == Builtin::Update),
{
    reveal_strlit("add-deploy-config");
    reveal_strlit("build");
    reveal_strlit("console");
    reveal_strlit("cleanup-backups");
    reveal_strlit("create-control-script");
    reveal_strlit("deploy");
    reveal_strlit("doctor");
    reveal_strlit("init");
    reveal_strlit("install_claude");
    reveal_strlit("install-deps");
    reveal_strlit("merge");
    reveal_strlit("module");
    reveal_strlit("pull");
    reveal_strlit("pull-ingress");
    reveal_strlit("release");
    reveal_strlit("restart");
    reveal_strlit("restart-ingress");
    reveal_strlit("setacl");
    reveal_strlit("show-running");
    reveal_strlit("start");
    reveal_strlit("start-ingress");
    reveal_strlit("status");
    reveal_strlit("status-ingress");
    reveal_strlit("stop");
    reveal_strlit("stop-ingress");
    reveal_strlit("trust-ca");
    reveal_strlit("migrate");
    reveal_strlit("update");
    reveal_strlit("upgrade");
    reveal_strlit("user-manual");
    assert("add-deploy-config"@.len() == 17);
    assert("build"@.len() == 5);
    assert("console"@.len() == 7);
    assert("cleanup-backups"@.len() == 15);
    assert("create-control-script"@.len() == 21);
    assert("deploy"@.len() == 6);
    assert("doctor"@.len() == 6);
    assert("init"@.len() == 4);
    assert(hyphenated(ASSISTANT_COMMAND@).len() == 14);
    assert("install-deps"@.len() == 12);
    assert("merge"@.len() == 5);
    assert("module"@.len() == 6);
    assert("pull"@.len() == 4);
    assert("pull-ingress"@.len() == 12);
    assert("release"@.len() == 7);
    assert("restart"@.len() == 7);
    assert("restart-ingress"@.len() == 15);
    assert("setacl"@.len() == 6);
    assert("show-running"@.len() == 12);
    assert("start"@.len() == 5);
    assert("start-ingress"@.len() == 13);
    assert("status"@.len() == 6);
    assert("status-ingress"@.len() == 14);
    assert("stop"@.len() == 4);
    assert("stop-ingress"@.len() == 12);
    assert("trust-ca"@.len() == 8);
    assert("migrate"@.len() == 7);
    assert("update"@.len() == 6);
    assert("upgrade"@.len() == 7);
    assert("user-manual"@.len() == 11);
    assert("build"@[0] == 'b');
    assert("console"@[0] == 'c');
    assert("deploy"@[0] == 'd');
    assert("deploy"@[1] == 'e');
    assert("doctor"@[0] == 'd');
    assert("doctor"@[1] == 'o');
    assert("init"@[0] == 'i');
    assert("merge"@[0] == 'm');
    assert("migrate"@[0] == 'm');
    assert("module"@[0] == 'm');
    assert("pull"@[0] == 'p');
    assert("release"@[0] == 'r');
    assert("release"@[2] == 'l');
    assert("restart"@[0] == 'r');
    assert("restart"@[2] == 's');
    assert("setacl"@[0] == 's');
    assert("setacl"@[1] == 'e');
    assert("start"@[0] == 's');
    assert("status"@[0] == 's');
    assert("status"@[1] == 't');
    assert("stop"@[0] == 's');
    assert("update"@[0] == 'u');
    assert("upgrade"@[0] == 'u');
}

/// The list of commands that need a managed project is true: those commands check it before they
/// do anything, and no other command checks it at all. So a script that takes the place of a
/// command is held to what the command would have been held to.
pub proof fn the_managed_check_is_listed(b: Builtin, args: Seq<Seq<char>>)
    ensures
        requires_managed(name_of(b)) <==> tasks_of(b, args)[0] == TaskView::CheckManaged,
        !requires_managed(name_of(b)) ==> !tasks_of(b, args).contains(TaskView::CheckManaged),
{
    lemma_names_apart(b);
}

} // verus!
