//! What holds of reading a command line and of the commands as a whole.
use vstd::prelude::*;

use crate::commands::custom;
use crate::commands::custom::CustomCommand;
use crate::commands::custom_laws;
use crate::commands::custom_laws::typed;
use crate::dispatch;
use crate::dispatch::{AgentRequest, Builtin, HelpSection, Opening, ScriptRun, Task, TaskView};
use crate::docker;
use crate::paths;
use crate::template::summary::Summary;
use crate::text;
use crate::ui;
use crate::ui::{Level, Message};
use crate::utils;

verus! {

// ---------------------------------------------------------------- the command line

/// The key agent is stopped, restarted or started as it was asked for before the separator; to
/// stop it comes before all else.
pub proof fn stopping_comes_before_starting(args: &Vec<String>, r: AgentRequest)
    requires
        call_ensures(dispatch::agent_request, (args,), r),
    ensures
        ({
            let a = text::texts(args@);
            let stop = typed(a, "--stop-ssh-agent"@);
            let restart = typed(a, "--restart-ssh-agent"@);
            let start = typed(a, "--start-ssh-agent"@);
            &&& r is Stop <==> stop
            &&& r is Restart <==> !stop && restart
            &&& r is Start <==> !stop && !restart && start
            &&& r is Nothing <==> !stop && !restart && !start
        }),
{
    let a = text::texts(args@);
    custom_laws::lemma_typed(a, "--stop-ssh-agent"@);
    custom_laws::lemma_typed(a, "--restart-ssh-agent"@);
    custom_laws::lemma_typed(a, "--start-ssh-agent"@);
}

/// What has nothing to do with servers works without the key agent, and everything does where it
/// is skipped.
pub proof fn help_needs_no_agent(args: &Vec<String>, skipped: bool, r: bool, x: Seq<char>)
    requires
        call_ensures(dispatch::needs_agent, (args, skipped), r),
    ensures
        skipped ==> !r,
        typed(text::texts(args@), x) && (x == "--help"@ || x == "-h"@ || x == "--version"@ || x
            == "-V"@ || x == "docker-cli-plugin-metadata"@ || x == "upgrade"@ || x
            == "install-deps"@ || x == "user-manual"@) ==> !r,
{
    let a = text::texts(args@);
    custom_laws::lemma_typed(a, x);
    let own = custom::before_separator(a);
    if own.contains(x) {
        let i = choose|i: int| 0 <= i < own.len() && own[i] == x;
        assert(own[i] == x);
    }
}

/// Any command that is not among those is preceded by a look at the key agent.
pub proof fn other_commands_need_the_agent(args: &Vec<String>, r: bool)
    requires
        call_ensures(dispatch::needs_agent, (args, false), r),
        forall|i: int|
            0 <= i < args@.len() ==> !dispatch::works_without_agent((#[trigger] args@[i])@),
    ensures
        r,
{
    let a = text::texts(args@);
    let own = custom::before_separator(a);
    if dispatch::any_without_agent(own) {
        let i = choose|i: int| 0 <= i < own.len() && dispatch::works_without_agent(
            #[trigger] own[i],
        );
        assert(own.contains(own[i]));
        custom_laws::lemma_typed(a, own[i]);
        let k = choose|k: int|
            0 <= k < a.len() && #[trigger] a[k] == own[i] && forall|j: int|
                0 <= j <= k ==> #[trigger] a[j] != "--"@;
        assert(a[k] == args@[k]@);
    }
}

/// The version and the help of the tool are asked for in the place of a subcommand only: behind
/// one they belong to it. The metadata is asked for anywhere before the separator.
pub proof fn a_question_stands_in_the_place_of_a_command(
    args: &Vec<String>,
    flags: &Vec<String>,
    found: Option<(String, Vec<String>)>,
    r: Opening,
)
    requires
        call_ensures(custom::split_leading_subcommand, (args, flags), found),
        call_ensures(dispatch::opening, (args, flags), r),
    ensures
        ({
            let meta = typed(text::texts(args@), "docker-cli-plugin-metadata"@);
            let version = found matches Some(p) && (p.0@ == "--version"@ || p.0@ == "-V"@);
            let help = found matches Some(p) && (p.0@ == "help"@ || p.0@ == "--help"@ || p.0@
                == "-h"@);
            &&& r is Version <==> version
            &&& r is Metadata <==> !version && meta
            &&& r is Help <==> !version && !meta && help
            &&& r is Command <==> !version && !meta && !help
        }),
{
    custom_laws::lemma_typed(text::texts(args@), "docker-cli-plugin-metadata"@);
}

/// Whether an argument gives the project directory, or announces it.
pub open spec fn about_dir(token: Seq<char>) -> bool {
    token == "--dir"@ || token == "-d"@ || "--dir="@.is_prefix_of(token) || "-d="@.is_prefix_of(
        token,
    )
}

proof fn lemma_given(own: Seq<Seq<char>>, k: int, d: Seq<char>)
    requires
        0 <= k <= own.len(),
        forall|i: int| 0 <= i < k ==> !about_dir(#[trigger] own[i]),
    ensures
        k == own.len() ==> dispatch::given_dir(own) is None,
        k + 1 < own.len() && (own[k] == "--dir"@ || own[k] == "-d"@) ==> dispatch::given_dir(own)
            == Some(own[k + 1]),
        k < own.len() && own[k] == "--dir="@ + d ==> dispatch::given_dir(own) == Some(d),
        k < own.len() && own[k] == "-d="@ + d ==> dispatch::given_dir(own) == Some(d),
    decreases k,
{
    if k > 0 {
        assert(!about_dir(own[0]));
        let w = own.drop_first();
        assert forall|i: int| 0 <= i < k - 1 implies !about_dir(#[trigger] w[i]) by {
            assert(w[i] == own[i + 1]);
        }
        lemma_given(w, k - 1, d);
        if k < own.len() {
            assert(w[k - 1] == own[k]);
        }
        if k + 1 < own.len() {
            assert(w[k] == own[k + 1]);
        }
    } else if own.len() > 0 {
        reveal_strlit("--dir");
        reveal_strlit("-d");
        reveal_strlit("--dir=");
        reveal_strlit("-d=");
        let a = "--dir="@ + d;
        let b = "-d="@ + d;
        assert(a.subrange(0, 6) =~= "--dir="@);
        assert(a.skip(6) =~= d);
        assert(b.subrange(0, 3) =~= "-d="@);
        assert(b.skip(3) =~= d);
        assert(a[1] == '-' && b[1] == 'd');
        assert("--dir="@[1] == '-' && "-d="@[1] == 'd');
        if own[0] == a {
            assert(own[0].len() >= 6);
        }
        if own[0] == b {
            assert(own[0][1] == 'd');
            assert(own[0].len() >= 3);
            if "--dir="@.is_prefix_of(own[0]) {
                assert(own[0].subrange(0, 6)[1] == own[0][1]);
            }
            if own[0] == "--dir"@ {
                assert("--dir"@[1] == '-');
            }
        }
    }
}

/// The project directory is the first that is given before the separator, behind its flag or with
/// an equals sign; without one there is none.
pub proof fn the_first_directory_counts(
    args: &Vec<String>,
    own: Vec<String>,
    r: Option<String>,
    k: int,
    d: Seq<char>,
)
    requires
        call_ensures(custom::args_before_separator, (args,), own),
        call_ensures(dispatch::project_dir_argument, (args,), r),
        0 <= k <= own@.len(),
        forall|i: int| 0 <= i < k ==> !about_dir((#[trigger] own@[i])@),
    ensures
        k == own@.len() ==> r is None,
        k + 1 < own@.len() && (own@[k]@ == "--dir"@ || own@[k]@ == "-d"@) ==> paths::opt(r) == Some(
            own@[k + 1]@,
        ),
        k < own@.len() && (own@[k]@ == "--dir="@ + d || own@[k]@ == "-d="@ + d) ==> paths::opt(r)
            == Some(d),
{
    let t = text::texts(own@);
    assert forall|i: int| 0 <= i < k implies !about_dir(#[trigger] t[i]) by {
        assert(t[i] == own@[i]@);
    }
    if k < t.len() {
        assert(t[k] == own@[k]@);
    }
    if k + 1 < t.len() {
        assert(t[k + 1] == own@[k + 1]@);
    }
    lemma_given(t, k, d);
}

/// The programs are looked for before every command but those that install them or need none.
pub proof fn the_programs_are_looked_for(args: &Vec<String>, skipped: bool, r: bool)
    requires
        call_ensures(dispatch::needs_dependency_check, (args, skipped), r),
    ensures
        skipped ==> !r,
        typed(text::texts(args@), "install-deps"@) || typed(text::texts(args@), "user-manual"@)
            ==> !r,
        !skipped && !typed(text::texts(args@), "install-deps"@) && !typed(
            text::texts(args@),
            "user-manual"@,
        ) && !typed(text::texts(args@), dispatch::hyphenated(dispatch::ASSISTANT_COMMAND@)) ==> r,
{
    let a = text::texts(args@);
    custom_laws::lemma_typed(a, "install-deps"@);
    custom_laws::lemma_typed(a, "user-manual"@);
    custom_laws::lemma_typed(a, dispatch::hyphenated(dispatch::ASSISTANT_COMMAND@));
}

/// The tool tells what it does where it was asked to before the separator.
pub proof fn debugging_is_asked_for(args: &Vec<String>, r: bool)
    requires
        call_ensures(dispatch::wants_debug, (args,), r),
    ensures
        r <==> typed(text::texts(args@), "--debug"@),
{
    custom_laws::lemma_typed(text::texts(args@), "--debug"@);
}

/// The help shows the migration for old projects only, and the commands of the project where it
/// has any, unchanged.
pub proof fn the_help_shows_the_commands_of_the_project(
    old_control: bool,
    commands: Vec<CustomCommand>,
    r: Vec<HelpSection>,
)
    requires
        call_ensures(dispatch::custom_help, (old_control, commands), r),
    ensures
        !old_control && commands@.len() == 0 ==> r@.len() == 0,
        old_control ==> r@.len() > 0 && r@[0].rows@.len() == 1 && r@[0].rows@[0].name@ == "migrate"@,
        commands@.len() > 0 ==> r@.len() > 0 && r@.last().rows@ == commands@,
{
}

// ---------------------------------------------------------------- the commands

/// Whether one thing is done before another.
pub open spec fn ahead(s: Seq<TaskView>, a: TaskView, b: TaskView) -> bool {
    exists|i: int, j: int| 0 <= i < j < s.len() && #[trigger] s[i] == a && #[trigger] s[j] == b
}

/// Starting brings the containers up, after the project and the programs were checked; only then
/// are the rights of the files set. Restarting does the same once the containers are down.
pub proof fn starting_brings_the_containers_up(
    args: &Vec<String>,
    start: Vec<Task>,
    restart: Vec<Task>,
)
    requires
        call_ensures(dispatch::tasks, (Builtin::Start, args), start),
        call_ensures(dispatch::tasks, (Builtin::Restart, args), restart),
    ensures
        ({
            let s = dispatch::todo(start@);
            let t = dispatch::todo(restart@);
            let up = TaskView::Compose(seq!["up"@, "-d"@]);
            let down = TaskView::Compose(seq!["down"@]);
            &&& s[0] is CheckManaged && t[0] is CheckManaged
            &&& ahead(s, TaskView::RequireTools, up) && ahead(t, TaskView::RequireTools, down)
            &&& ahead(s, TaskView::OfferImagePull, up) && ahead(t, TaskView::OfferImagePull, up)
            &&& ahead(s, TaskView::ReportDrift, up) && ahead(t, TaskView::ReportDrift, up)
            &&& ahead(s, up, TaskView::HostAcl) && ahead(t, up, TaskView::HostAcl)
            &&& ahead(s, up, TaskView::ContainerAcl) && ahead(t, up, TaskView::ContainerAcl)
            &&& ahead(t, down, up)
            &&& !s.contains(down)
        }),
{
    reveal_strlit("up");
    reveal_strlit("down");
    let s = dispatch::todo(start@);
    let t = dispatch::todo(restart@);
    let up = seq!["up"@, "-d"@];
    let down = seq!["down"@];
    assert(up.len() != down.len());
    assert(s[1] is RequireTools && s[2] is ReportDrift && s[3] is OfferImagePull);
    assert(s[4] == TaskView::Compose(up));
    assert(s[5] is HostAcl && s[6] is ContainerAcl);
    assert(t[1] is RequireTools && t[2] is ReportDrift && t[3] is OfferImagePull);
    assert(t[4] == TaskView::Compose(down));
    assert(t[5] == TaskView::Compose(up));
    assert(t[6] is HostAcl && t[7] is ContainerAcl);
}

/// The commands for the ingress concern it alone, and are called after those for a project: they
/// call Docker as these do.
pub proof fn the_ingress_is_handled_like_a_project(
    args: &Vec<String>,
    start: Vec<Task>,
    stop: Vec<Task>,
    restart: Vec<Task>,
    pull: Vec<Task>,
    status: Vec<Task>,
)
    requires
        call_ensures(dispatch::tasks, (Builtin::StartIngress, args), start),
        call_ensures(dispatch::tasks, (Builtin::StopIngress, args), stop),
        call_ensures(dispatch::tasks, (Builtin::RestartIngress, args), restart),
        call_ensures(dispatch::tasks, (Builtin::PullIngress, args), pull),
        call_ensures(dispatch::tasks, (Builtin::StatusIngress, args), status),
    ensures
        dispatch::todo(start@) == seq![TaskView::Ingress(seq!["up"@, "-d"@])],
        dispatch::todo(stop@) == seq![TaskView::Ingress(seq!["down"@])],
        dispatch::todo(restart@) == dispatch::todo(stop@) + dispatch::todo(start@),
        dispatch::todo(pull@) == seq![TaskView::Ingress(seq!["pull"@])],
        dispatch::todo(status@) == seq![TaskView::Ingress(seq!["ps"@])],
{
    assert(dispatch::todo(restart@) =~= dispatch::todo(stop@) + dispatch::todo(start@));
}

/// What the simple commands on a project do: they check it and hand their work to Docker, with the
/// arguments that were given where they take some.
pub proof fn simple_commands_call_docker(
    args: &Vec<String>,
    build: Vec<Task>,
    pull: Vec<Task>,
    stop: Vec<Task>,
)
    requires
        call_ensures(dispatch::tasks, (Builtin::Build, args), build),
        call_ensures(dispatch::tasks, (Builtin::Pull, args), pull),
        call_ensures(dispatch::tasks, (Builtin::Stop, args), stop),
    ensures
        dispatch::todo(build@).len() == 2,
        dispatch::todo(build@)[0] is CheckManaged,
        dispatch::todo(build@)[1] == TaskView::Compose(seq!["build"@] + text::texts(args@)),
        dispatch::todo(pull@).len() == 2,
        dispatch::todo(pull@)[0] is CheckManaged,
        dispatch::todo(pull@)[1] == TaskView::Compose(seq!["pull"@]),
        dispatch::todo(stop@).len() == 2,
        dispatch::todo(stop@)[0] is CheckManaged,
        dispatch::todo(stop@)[1] == TaskView::Compose(seq!["down"@]),
{
}

/// Rights are set only in a managed project that runs, with the programs that this takes.
pub proof fn rights_are_set_where_containers_run(args: &Vec<String>, r: Vec<Task>)
    requires
        call_ensures(dispatch::tasks, (Builtin::SetAcl, args), r),
    ensures
        ({
            let s = dispatch::todo(r@);
            &&& s[0] is CheckManaged
            &&& ahead(s, TaskView::RequireTools, TaskView::HostAcl)
            &&& ahead(s, TaskView::RequireRunning, TaskView::HostAcl)
            &&& ahead(s, TaskView::RequireRunning, TaskView::ContainerAcl)
            &&& forall|i: int|
                0 <= i < s.len() ==> !((#[trigger] s[i]) is Compose) && !(s[i] is Own)
        }),
{
    let s = dispatch::todo(r@);
    assert(s[1] is RequireTools && s[2] is RequireRunning && s[3] is HostAcl && s[4] is ContainerAcl);
}

/// Only a deployment, a start and a restart are held to the programs that they need, apart from
/// setting rights; no command but those that say so touches the containers.
pub proof fn containers_are_left_alone(b: Builtin, args: &Vec<String>, r: Vec<Task>, i: int)
    requires
        call_ensures(dispatch::tasks, (b, args), r),
        0 <= i < dispatch::todo(r@).len(),
    ensures
        dispatch::todo(r@)[i] is Compose ==> b == Builtin::Build || b == Builtin::Pull || b
            == Builtin::Start || b == Builtin::Stop || b == Builtin::Restart,
        dispatch::todo(r@)[i] is Ingress ==> b == Builtin::StartIngress || b
            == Builtin::StopIngress || b == Builtin::RestartIngress || b == Builtin::PullIngress
            || b == Builtin::StatusIngress,
        dispatch::todo(r@)[i] is RequireTools ==> b == Builtin::Deploy || b == Builtin::Start || b
            == Builtin::Restart || b == Builtin::SetAcl,
        dispatch::todo(r@)[i] is TryCompose ==> b == Builtin::Status,
        dispatch::todo(r@)[i] is Own ==> i == dispatch::todo(r@).len() - 1 || b == Builtin::Status,
        b == Builtin::Deploy ==> dispatch::todo(r@)[0] is RequireTools,
        b == Builtin::Deploy || b == Builtin::Init || b == Builtin::Merge || b == Builtin::Migrate
            || b == Builtin::Update || b == Builtin::Module || b == Builtin::Release || b
            == Builtin::Upgrade || b == Builtin::Doctor || b == Builtin::TrustCa
            ==> dispatch::todo(r@).contains(TaskView::Own),
{
    let s = dispatch::todo(r@);
    assert(s.contains(s[s.len() - 1]));
}

/// The commands for the ingress are called like those for a project, with its name behind.
pub proof fn ingress_commands_are_called_after_it(
    start: String,
    stop: String,
    restart: String,
    pull: String,
    status: String,
    start_ingress: String,
    stop_ingress: String,
    restart_ingress: String,
    pull_ingress: String,
    status_ingress: String,
)
    requires
        call_ensures(Builtin::name, (&Builtin::Start,), start),
        call_ensures(Builtin::name, (&Builtin::Stop,), stop),
        call_ensures(Builtin::name, (&Builtin::Restart,), restart),
        call_ensures(Builtin::name, (&Builtin::Pull,), pull),
        call_ensures(Builtin::name, (&Builtin::Status,), status),
        call_ensures(Builtin::name, (&Builtin::StartIngress,), start_ingress),
        call_ensures(Builtin::name, (&Builtin::StopIngress,), stop_ingress),
        call_ensures(Builtin::name, (&Builtin::RestartIngress,), restart_ingress),
        call_ensures(Builtin::name, (&Builtin::PullIngress,), pull_ingress),
        call_ensures(Builtin::name, (&Builtin::StatusIngress,), status_ingress),
    ensures
        start@ == "start"@,
        stop@ == "stop"@,
        restart@ == "re"@ + start@,
        pull@ == "pull"@,
        status@ == "status"@,
        start_ingress@ == start@ + "-ingress"@,
        stop_ingress@ == stop@ + "-ingress"@,
        restart_ingress@ == restart@ + "-ingress"@,
        pull_ingress@ == pull@ + "-ingress"@,
        status_ingress@ == status@ + "-ingress"@,
{
    reveal_strlit("-ingress");
    reveal_strlit("re");
    reveal_strlit("start");
    reveal_strlit("stop");
    reveal_strlit("restart");
    reveal_strlit("pull");
    reveal_strlit("status");
    reveal_strlit("start-ingress");
    reveal_strlit("stop-ingress");
    reveal_strlit("restart-ingress");
    reveal_strlit("pull-ingress");
    reveal_strlit("status-ingress");
    assert("restart"@ =~= "re"@ + "start"@);
    assert("start-ingress"@ =~= "start"@ + "-ingress"@);
    assert("stop-ingress"@ =~= "stop"@ + "-ingress"@);
    assert("restart-ingress"@ =~= "restart"@ + "-ingress"@);
    assert("pull-ingress"@ =~= "pull"@ + "-ingress"@);
    assert("status-ingress"@ =~= "status"@ + "-ingress"@);
}

/// A script that takes the place of a command is held to a managed project exactly where the
/// command itself would be.
pub proof fn a_script_is_held_to_what_its_command_is(
    b: Builtin,
    args: &Vec<String>,
    name: String,
    text: &str,
    steps: Vec<Task>,
    r: bool,
)
    requires
        call_ensures(Builtin::name, (&b,), name),
        text@ == name@,
        call_ensures(dispatch::tasks, (b, args), steps),
        call_ensures(dispatch::command_requires_managed_project, (text,), r),
    ensures
        r <==> dispatch::todo(steps@)[0] is CheckManaged,
{
    dispatch::the_managed_check_is_listed(b, text::texts(args@));
}

/// A directory is managed where either of the two files marks it, and is refused otherwise.
pub proof fn a_project_is_marked(
    dir: &str,
    existing: &Vec<String>,
    marked: bool,
    r: Result<(), String>,
)
    requires
        call_ensures(utils::is_managed, (dir, existing), marked),
        call_ensures(dispatch::check_managed, (dir, existing), r),
        dir@.len() > 0,
        dir@.last() != '/',
    ensures
        r is Ok <==> marked,
        marked <==> text::texts(existing@).contains(
            dir@ + "/"@ + ".managed-by-docker-control-plugin"@,
        ) || text::texts(existing@).contains(dir@ + "/"@ + ".managed-by-docker-control"@),
{
    reveal_strlit("/");
    reveal_strlit(".managed-by-docker-control-plugin");
    reveal_strlit(".managed-by-docker-control");
    assert("/"@ =~= seq!['/']);
    assert(".managed-by-docker-control-plugin"@[0] == '.' && ".managed-by-docker-control"@[0] == '.');
}

// ---------------------------------------------------------------- scripts

/// A script runs only under a plain name, and the one that runs is the one that is found under it,
/// with every argument behind the name; its help is asked for by the first of them.
pub proof fn only_a_script_that_is_found_runs(
    dir: &str,
    args: &Vec<String>,
    existing: &Vec<String>,
    name: &str,
    found: Option<String>,
    r: Result<ScriptRun, String>,
)
    requires
        args@.len() > 0 ==> name@ == args@[0]@,
        call_ensures(custom::find_script_path, (dir, name, existing), found),
        call_ensures(dispatch::execute_external_script, (dir, args, existing), r),
    ensures
        r is Ok ==> args@.len() > 0 && found is Some && name@.len() > 0 && !name@.contains('/')
            && !name@.contains('\\') && name@ != ".."@ && name@ != "."@,
        r matches Ok(ScriptRun::Run { path, args: a }) ==> path@ == found->0@ && text::texts(a@)
            == text::texts(args@).skip(1),
        r matches Ok(ScriptRun::Help(path)) ==> path@ == found->0@ && args@.len() > 1 && (
        args@[1]@ == "--help"@ || args@[1]@ == "-h"@),
        r is Err && args@.len() > 0 ==> found is None || !utils::is_plain_name(name@),
{
    let all = text::texts(args@);
    if args@.len() > 0 {
        assert(all[0] == args@[0]@);
    }
    if args@.len() > 1 {
        assert(all[1] == args@[1]@);
    }
}

// ---------------------------------------------------------------- notices

/// A change of the template is told exactly where an update would do something about it.
pub proof fn only_what_an_update_does_is_told(
    s: &Summary,
    at: Option<&str>,
    current: &str,
    r: Option<String>,
)
    requires
        call_ensures(dispatch::maybe_report_template_drift, (s, at, current), r),
    ensures
        r is None <==> s.safe@.len() == 0 && s.conflicts@.len() == 0 && s.removed@.len() == 0
            && s.env_keys@.len() == 0 && s.gitignore_entries@.len() == 0,
{
}

proof fn lemma_outdated(all: Seq<docker::ImageStatus>, s: Seq<char>)
    ensures
        dispatch::outdated(all).contains(s) <==> exists|i: int|
            0 <= i < all.len() && (#[trigger] all[i]).outdated && all[i].image@ == s,
    decreases all.len(),
{
    if all.len() > 0 {
        let w = all.drop_last();
        lemma_outdated(w, s);
        let rest = dispatch::outdated(w);
        vstd::seq_lib::lemma_seq_contains_after_push(rest, all.last().image@, s);
        if exists|i: int| 0 <= i < w.len() && (#[trigger] w[i]).outdated && w[i].image@ == s {
            let i = choose|i: int|
                0 <= i < w.len() && (#[trigger] w[i]).outdated && w[i].image@ == s;
            assert(all[i] == w[i]);
        }
        if exists|i: int| 0 <= i < all.len() && (#[trigger] all[i]).outdated && all[i].image@ == s {
            let i = choose|i: int|
                0 <= i < all.len() && (#[trigger] all[i]).outdated && all[i].image@ == s;
            if i < w.len() {
                assert(all[i] == w[i]);
            }
        }
        assert(all[all.len() - 1] == all.last());
    }
}

/// Every image that is out of date is named, and no other; without one nothing is said.
pub proof fn every_outdated_image_is_named(
    images: &Vec<docker::ImageStatus>,
    r: Vec<Message>,
    i: int,
)
    requires
        call_ensures(dispatch::maybe_offer_image_pull, (images,), r),
        0 <= i < images@.len(),
    ensures
        images@[i].outdated ==> ui::said(r@).contains(
            (Level::Warning, "  - "@ + images@[i].image@ + ""@),
        ),
        (forall|j: int| 0 <= j < images@.len() ==> !(#[trigger] images@[j]).outdated) ==> r@.len()
            == 0,
{
    let out = dispatch::outdated(images@);
    let said = ui::said(r@);
    assert(said.len() == r@.len());
    if images@[i].outdated {
        let s = images@[i].image@;
        lemma_outdated(images@, s);
        let k = choose|k: int| 0 <= k < out.len() && out[k] == s;
        assert(said[k + 1] == (Level::Warning, "  - "@ + s + ""@));
    }
    if forall|j: int| 0 <= j < images@.len() ==> !(#[trigger] images@[j]).outdated {
        if out.len() > 0 {
            lemma_outdated(images@, out[0]);
            assert(out.contains(out[0]));
        }
    }
}

// ---------------------------------------------------------------- shared rules

/// The name of a command is one that cannot lead anywhere but into its directory.
pub proof fn a_command_name_stays_in_its_directory(name: &str, r: Result<(), String>)
    requires
        call_ensures(utils::sanitize_command_name, (name,), r),
    ensures
        r is Ok <==> name@.len() > 0 && !name@.contains('/') && !name@.contains('\\') && name@
            != "."@ && name@ != ".."@,
{
}

/// A file is copied where there is none yet or where it differs, and only then.
pub proof fn an_equal_file_is_not_copied(source: &str, target: Option<&str>, r: bool)
    requires
        call_ensures(utils::needs_copy, (source, target), r),
    ensures
        target is None ==> r,
        target matches Some(t) ==> (r <==> source@ != t@),
{
}

} // verus!
