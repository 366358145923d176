//! The order in which a release is rolled out, and what follows when a step goes wrong.
use vstd::prelude::*;

use crate::paths;
use crate::shell;
use crate::shell::sq;
use crate::text;

verus! {

// ---------------------------------------------------------------- the server

/// A server that releases are rolled out to, as it is configured.
#[derive(Debug, Clone, PartialEq, Eq)]
pub struct Environment {
    pub user: String,
    pub domain: String,
    pub service_root: Option<String>,
    pub console_command: Option<String>,
    pub shared_directories: Option<Vec<String>>,
    pub shared_files: Option<Vec<String>>,
    pub cops_integration: Option<bool>,
    pub teams_webhook_url: Option<String>,
}

/// The strings of an optional list; none where there is no list.
pub open spec fn list_or_empty(v: Option<Vec<String>>) -> Seq<Seq<char>> {
    match v {
        Some(l) => text::texts(l@),
        None => Seq::empty(),
    }
}

/// An optional text, or else its default.
pub open spec fn text_or(s: Option<String>, default: Seq<char>) -> Seq<char> {
    match s {
        Some(t) => t@,
        None => default,
    }
}

/// One rollout: a release, its archive, and the server that it goes to.
#[derive(Debug, Clone, PartialEq, Eq)]
pub struct Rollout {
    pub env: Environment,
    pub archive_path: String,
    pub release_dir: String,
    pub maintenance_mode: String,
    /// Nothing is asked; every offer is taken.
    pub yes: bool,
}

/// A rollout with the defaults of its server filled in.
pub ghost struct RolloutView {
    pub user: Seq<char>,
    pub domain: Seq<char>,
    pub webhook: Option<Seq<char>>,
    pub server_root: Seq<char>,
    pub console_command: Seq<char>,
    pub shared_directories: Seq<Seq<char>>,
    pub shared_files: Seq<Seq<char>>,
    pub cops: bool,
    pub archive_path: Seq<char>,
    pub release_dir: Seq<char>,
    pub maintenance_mode: Seq<char>,
    pub yes: bool,
}

impl View for Rollout {
    type V = RolloutView;

    open spec fn view(&self) -> RolloutView {
        RolloutView {
            user: self.env.user@,
            domain: self.env.domain@,
            webhook: paths::opt(self.env.teams_webhook_url),
            server_root: text_or(self.env.service_root, "/var/www/html"@),
            console_command: text_or(self.env.console_command, "bin/console"@),
            shared_directories: list_or_empty(self.env.shared_directories),
            shared_files: list_or_empty(self.env.shared_files),
            cops: self.env.cops_integration == Some(true),
            archive_path: self.archive_path@,
            release_dir: self.release_dir@,
            maintenance_mode: self.maintenance_mode@,
            yes: self.yes,
        }
    }
}

impl RolloutView {
    /// Where the releases lie on the server.
    pub open spec fn releases(self) -> Seq<char> {
        self.server_root + "/releases"@
    }

    /// Where this release will lie.
    pub open spec fn release_path(self) -> Seq<char> {
        self.releases() + "/"@ + self.release_dir
    }

    /// Where the archive is copied to.
    pub open spec fn remote_archive(self) -> Seq<char> {
        self.releases() + "/"@ + (match paths::last_name(self.archive_path) {
            Some(n) => n,
            None => Seq::empty(),
        })
    }

    /// The console script relative to a release: an interpreter before it and slashes at its
    /// beginning are left out.
    pub open spec fn console_script(self) -> Seq<char> {
        if "php "@.is_prefix_of(self.console_command) {
            text::without_prefixes(self.console_command.skip("php "@.len() as int), "/"@)
        } else {
            text::without_prefixes(self.console_command, "/"@)
        }
    }

    /// The console of the release that is live.
    pub open spec fn console_current(self) -> Seq<char> {
        "php "@ + text::without_end(self.server_root, '/') + "/current/"@ + self.console_script()
    }

    /// The console of the release that is rolled out.
    pub open spec fn console_new(self) -> Seq<char> {
        "php "@ + text::without_end(self.release_path(), '/') + "/"@ + self.console_script()
    }

    /// The script that removes all but the newest releases, the live one kept in any case.
    pub open spec fn cleanup_script(self) -> Seq<char> {
        "ls -d1t "@ + shell::quoted(self.releases()) + "/* 2>/dev/null | grep -v $(readlink -f "@
            + shell::quoted(self.server_root + "/current"@)
            + " 2>/dev/null || echo \"none\") | grep -E "@ + shell::quoted(
            self.releases() + "/[0-9]{14}_.+$"@,
        ) + " | tail -n +6 | xargs rm -rf 2>/dev/null || true"@
    }

    /// The command that removes all but the newest releases.
    pub open spec fn cleanup(self) -> Seq<char> {
        "bash -c "@ + shell::quoted(self.cleanup_script())
    }
}

impl Rollout {
    fn server_root(&self) -> (r: String)
        ensures
            r@ == self@.server_root,
    {
        match &self.env.service_root {
            Some(s) => text::owned(s.as_str()),
            None => text::owned("/var/www/html"),
        }
    }

    fn releases(&self) -> (r: String)
        ensures
            r@ == self@.releases(),
    {
        let mut r = self.server_root();
        r.append("/releases");
        r
    }

    fn release_path(&self) -> (r: String)
        ensures
            r@ == self@.release_path(),
    {
        let mut r = self.releases();
        r.append("/");
        r.append(self.release_dir.as_str());
        r
    }

    fn remote_archive(&self) -> (r: String)
        ensures
            r@ == self@.remote_archive(),
    {
        let mut r = self.releases();
        r.append("/");
        match paths::file_name(self.archive_path.as_str()) {
            Some(n) => {
                r.append(n.as_str());
            },
            None => {
                assert(r@ + Seq::<char>::empty() =~= r@);
            },
        }
        r
    }

    fn console_script(&self) -> (r: String)
        ensures
            r@ == self@.console_script(),
    {
        let command = match &self.env.console_command {
            Some(c) => text::owned(c.as_str()),
            None => text::owned("bin/console"),
        };
        proof {
            reveal_strlit("/");
        }
        match text::strip_prefix(command.as_str(), "php ") {
            Some(rest) => text::trim_start_matches(rest.as_str(), "/"),
            None => text::trim_start_matches(command.as_str(), "/"),
        }
    }

    /// The console of the release that is live.
    pub fn console_current(&self) -> (r: String)
        ensures
            r@ == self@.console_current(),
    {
        let mut r = text::owned("php ");
        r.append(text::trim_end_char(self.server_root().as_str(), '/').as_str());
        r.append("/current/");
        r.append(self.console_script().as_str());
        r
    }

    /// The console of the release that is rolled out.
    pub fn console_new(&self) -> (r: String)
        ensures
            r@ == self@.console_new(),
    {
        let mut r = text::owned("php ");
        r.append(text::trim_end_char(self.release_path().as_str(), '/').as_str());
        r.append("/");
        r.append(self.console_script().as_str());
        r
    }

    fn cleanup(&self) -> (r: String)
        ensures
            r@ == self@.cleanup(),
    {
        let mut current = self.server_root();
        current.append("/current");
        let mut pattern = self.releases();
        pattern.append("/[0-9]{14}_.+$");
        let mut script = text::owned("ls -d1t ");
        script.append(sq(self.releases().as_str()).as_str());
        script.append("/* 2>/dev/null | grep -v $(readlink -f ");
        script.append(sq(current.as_str()).as_str());
        script.append(" 2>/dev/null || echo \"none\") | grep -E ");
        script.append(sq(pattern.as_str()).as_str());
        script.append(" | tail -n +6 | xargs rm -rf 2>/dev/null || true");
        let mut r = text::owned("bash -c ");
        r.append(sq(script.as_str()).as_str());
        r
    }
}

// ---------------------------------------------------------------- the steps

/// The stages of a rollout, in their order.
#[derive(Debug, Clone, Copy, PartialEq, Eq, Structural)]
pub enum Stage {
    /// The archive is copied and unpacked.
    Transfer,
    /// Shared directories and files are linked into the release.
    Share,
    /// Both releases are put into maintenance.
    Maintenance,
    PreHook,
    /// Caches, migrations, schema.
    Tasks,
    Cops,
    PostHook,
    /// The release becomes the live one.
    Switch,
    /// Maintenance ends.
    Finish,
}

/// The place of a stage in the order.
pub open spec fn rank(s: Stage) -> int {
    match s {
        Stage::Transfer => 0,
        Stage::Share => 1,
        Stage::Maintenance => 2,
        Stage::PreHook => 3,
        Stage::Tasks => 4,
        Stage::Cops => 5,
        Stage::PostHook => 6,
        Stage::Switch => 7,
        Stage::Finish => 8,
    }
}

/// One step of a rollout.
#[derive(Debug, Clone, PartialEq, Eq)]
pub enum Step {
    Say(String),
    Warn(String),
    /// A command on the server that has to succeed.
    Run(String),
    /// A command on the server that may fail.
    Attempt(String),
    /// A file is copied to the server.
    Copy { from: String, to: String },
    /// The hook script of the server is looked for and compiled.
    LoadHooks,
    /// A function of the hook script, where there is one.
    Hook(String),
    /// A command that is run where the user agrees.
    Offer { question: String, preset: bool, command: String },
    /// A check of the integration; a failure is answered by the user.
    Check { label: String, command: String },
    /// The user is asked whether to go on after a failed check.
    Insist,
    /// Wait for the user.
    Pause,
    /// The rollout is given up.
    Stop(String),
}

/// A step, with its strings as sequences of characters.
pub ghost enum StepView {
    Say(Seq<char>),
    Warn(Seq<char>),
    Run(Seq<char>),
    Attempt(Seq<char>),
    Copy { from: Seq<char>, to: Seq<char> },
    LoadHooks,
    Hook(Seq<char>),
    Offer { question: Seq<char>, preset: bool, command: Seq<char> },
    Check { label: Seq<char>, command: Seq<char> },
    Insist,
    Pause,
    Stop(Seq<char>),
}

impl View for Step {
    type V = StepView;

    open spec fn view(&self) -> StepView {
        match *self {
            Step::Say(t) => StepView::Say(t@),
            Step::Warn(t) => StepView::Warn(t@),
            Step::Run(c) => StepView::Run(c@),
            Step::Attempt(c) => StepView::Attempt(c@),
            Step::Copy { from, to } => StepView::Copy { from: from@, to: to@ },
            Step::LoadHooks => StepView::LoadHooks,
            Step::Hook(n) => StepView::Hook(n@),
            Step::Offer { question, preset, command } => StepView::Offer {
                question: question@,
                preset,
                command: command@,
            },
            Step::Check { label, command } => StepView::Check {
                label: label@,
                command: command@,
            },
            Step::Insist => StepView::Insist,
            Step::Pause => StepView::Pause,
            Step::Stop(e) => StepView::Stop(e@),
        }
    }
}

/// A step and the stage it belongs to.
#[derive(Debug, Clone, PartialEq, Eq)]
pub struct Planned {
    pub stage: Stage,
    pub step: Step,
}

/// The views of planned steps.
pub open spec fn planned(v: Seq<Planned>) -> Seq<(Stage, StepView)> {
    v.map_values(|p: Planned| (p.stage, p.step@))
}

/// Steps of one stage.
pub open spec fn in_stage(stage: Stage, steps: Seq<StepView>) -> Seq<(Stage, StepView)> {
    steps.map_values(|s: StepView| (stage, s))
}

fn put(out: &mut Vec<Planned>, stage: Stage, step: Step)
    ensures
        planned(final(out)@) == planned(old(out)@).push((stage, step@)),
{
    let ghost before = planned(out@);
    let p = Planned { stage, step };
    out.push(p);
    assert(planned(out@) =~= before.push((stage, step@)));
}

fn put_all(out: &mut Vec<Planned>, more: Vec<Planned>)
    ensures
        planned(final(out)@) == planned(old(out)@) + planned(more@),
{
    let ghost before = planned(out@);
    let ghost all = planned(more@);
    let mut rest = more;
    out.append(&mut rest);
    assert(planned(out@) =~= before + all);
}

// ---------------------------------------------------------------- transfer and shared paths

/// How the release gets to the server.
pub open spec fn transfer(c: RolloutView) -> Seq<StepView> {
    seq![
        StepView::Run("mkdir -p "@ + shell::quoted(c.releases())),
        StepView::Say("Transferring archive..."@),
        StepView::Copy { from: c.archive_path, to: c.remote_archive() },
        StepView::Say("Extracting archive..."@),
        StepView::Run("mkdir -p "@ + shell::quoted(c.release_path())),
        StepView::Run(
            "7z x -o"@ + shell::quoted(c.release_path()) + " "@ + shell::quoted(c.remote_archive()),
        ),
        StepView::Run("rm -f "@ + shell::quoted(c.remote_archive())),
        StepView::Attempt(c.cleanup()),
    ]
}

fn command_on(verb: &str, path: &str) -> (r: String)
    ensures
        r@ == verb@ + shell::quoted(path@),
{
    let mut r = text::owned(verb);
    r.append(sq(path).as_str());
    r
}

fn plan_transfer(c: &Rollout) -> (r: Vec<Planned>)
    ensures
        planned(r@) == in_stage(Stage::Transfer, transfer(c@)),
{
    let mut r: Vec<Planned> = Vec::new();
    let s = Stage::Transfer;
    let path = c.release_path();
    let archive = c.remote_archive();
    put(&mut r, s, Step::Run(command_on("mkdir -p ", c.releases().as_str())));
    put(&mut r, s, Step::Say(text::owned("Transferring archive...")));
    put(
        &mut r,
        s,
        Step::Copy { from: text::owned(c.archive_path.as_str()), to: c.remote_archive() },
    );
    put(&mut r, s, Step::Say(text::owned("Extracting archive...")));
    put(&mut r, s, Step::Run(command_on("mkdir -p ", path.as_str())));
    let mut unpack = command_on("7z x -o", path.as_str());
    unpack.append(" ");
    unpack.append(sq(archive.as_str()).as_str());
    put(&mut r, s, Step::Run(unpack));
    put(&mut r, s, Step::Run(command_on("rm -f ", archive.as_str())));
    put(&mut r, s, Step::Attempt(c.cleanup()));
    assert(planned(r@) =~= in_stage(Stage::Transfer, transfer(c@)));
    r
}

/// What a path is called in the directory that all releases share.
pub open spec fn shared_path(root: Seq<char>, rel: Seq<char>) -> Seq<char> {
    root + "/shared/"@ + rel
}

/// The command that puts a link to a shared path in the place of what the release brought.
pub open spec fn link_command(
    remove: Seq<char>,
    shared: Seq<char>,
    target: Seq<char>,
) -> Seq<char> {
    remove + shell::quoted(target) + " && ln -sf "@ + shell::quoted(shared) + " "@
        + shell::quoted(target)
}

fn link_command_of(remove: &str, shared: &str, target: &str) -> (r: String)
    ensures
        r@ == link_command(remove@, shared@, target@),
{
    let mut r = command_on(remove, target);
    r.append(" && ln -sf ");
    r.append(sq(shared).as_str());
    r.append(" ");
    r.append(sq(target).as_str());
    r
}

/// A shared directory is made where it is missing, and linked.
pub open spec fn share_dir(c: RolloutView, dir: Seq<char>) -> Seq<StepView> {
    let shared = shared_path(c.server_root, dir);
    let target = c.release_path() + "/"@ + dir;
    seq![
        StepView::Run("mkdir -p "@ + shell::quoted(shared)),
        StepView::Run(link_command("rm -rf "@, shared, target)),
    ]
}

/// A shared file is made where it is missing, with its directory, and linked.
pub open spec fn share_file(c: RolloutView, file: Seq<char>) -> Seq<StepView> {
    let shared = shared_path(c.server_root, file);
    let target = c.release_path() + "/"@ + file;
    seq![
        StepView::Run("mkdir -p "@ + shell::quoted(paths::parent_of(shared)->0)),
        StepView::Run("touch "@ + shell::quoted(shared)),
        StepView::Run(link_command("rm -f "@, shared, target)),
    ]
}

/// The steps for all shared directories.
pub open spec fn share_dirs(c: RolloutView, dirs: Seq<Seq<char>>) -> Seq<StepView>
    decreases dirs.len(),
{
    if dirs.len() == 0 {
        Seq::empty()
    } else {
        share_dirs(c, dirs.drop_last()) + share_dir(c, dirs.last())
    }
}

/// The steps for all shared files.
pub open spec fn share_files(c: RolloutView, files: Seq<Seq<char>>) -> Seq<StepView>
    decreases files.len(),
{
    if files.len() == 0 {
        Seq::empty()
    } else {
        share_files(c, files.drop_last()) + share_file(c, files.last())
    }
}

/// The steps of the shared paths.
pub open spec fn sharing(c: RolloutView) -> Seq<StepView> {
    seq![StepView::Say("Handling shared paths..."@)] + share_dirs(c, c.shared_directories)
        + share_files(c, c.shared_files)
}

fn put_shared_dir(out: &mut Vec<Planned>, c: &Rollout, dir: &str)
    ensures
        planned(final(out)@) == planned(old(out)@) + in_stage(Stage::Share, share_dir(c@, dir@)),
{
    let ghost before = planned(out@);
    let mut shared = c.server_root();
    shared.append("/shared/");
    shared.append(dir);
    let mut target = c.release_path();
    target.append("/");
    target.append(dir);
    put(out, Stage::Share, Step::Run(command_on("mkdir -p ", shared.as_str())));
    put(
        out,
        Stage::Share,
        Step::Run(link_command_of("rm -rf ", shared.as_str(), target.as_str())),
    );
    assert(planned(out@) =~= before + in_stage(Stage::Share, share_dir(c@, dir@)));
}

fn put_shared_file(out: &mut Vec<Planned>, c: &Rollout, file: &str)
    ensures
        planned(final(out)@) == planned(old(out)@) + in_stage(Stage::Share, share_file(c@, file@)),
{
    let ghost before = planned(out@);
    let mut shared = c.server_root();
    let ghost k = shared@.len() + 1;
    shared.append("/shared/");
    shared.append(file);
    let mut target = c.release_path();
    target.append("/");
    target.append(file);
    proof {
        reveal_strlit("/shared/");
        assert(shared@[k as int] == 's');
        paths::a_named_path_has_a_parent(shared@, k as int);
    }
    if let Some(dir) = paths::parent(shared.as_str()) {
        put(out, Stage::Share, Step::Run(command_on("mkdir -p ", dir.as_str())));
    }
    put(out, Stage::Share, Step::Run(command_on("touch ", shared.as_str())));
    put(
        out,
        Stage::Share,
        Step::Run(link_command_of("rm -f ", shared.as_str(), target.as_str())),
    );
    assert(planned(out@) =~= before + in_stage(Stage::Share, share_file(c@, file@)));
}

fn plan_shared_dirs(c: &Rollout, dirs: &Vec<String>) -> (r: Vec<Planned>)
    ensures
        planned(r@) == in_stage(Stage::Share, share_dirs(c@, text::texts(dirs@))),
{
    let ghost all = text::texts(dirs@);
    let mut r: Vec<Planned> = Vec::new();
    let mut i: usize = 0;
    assert(planned(r@) =~= in_stage(Stage::Share, share_dirs(c@, all.take(0))));
    while i < dirs.len()
        invariant
            i <= dirs@.len(),
            all == text::texts(dirs@),
            planned(r@) == in_stage(Stage::Share, share_dirs(c@, all.take(i as int))),
        decreases dirs@.len() - i,
    {
        put_shared_dir(&mut r, c, dirs[i].as_str());
        assert(all.take(i + 1).drop_last() =~= all.take(i as int));
        assert(all.take(i + 1).last() == dirs@[i as int]@);
        assert(planned(r@) =~= in_stage(Stage::Share, share_dirs(c@, all.take(i + 1))));
        i += 1;
    }
    assert(all.take(i as int) =~= all);
    r
}

fn plan_shared_files(c: &Rollout, files: &Vec<String>) -> (r: Vec<Planned>)
    ensures
        planned(r@) == in_stage(Stage::Share, share_files(c@, text::texts(files@))),
{
    let ghost all = text::texts(files@);
    let mut r: Vec<Planned> = Vec::new();
    let mut i: usize = 0;
    assert(planned(r@) =~= in_stage(Stage::Share, share_files(c@, all.take(0))));
    while i < files.len()
        invariant
            i <= files@.len(),
            all == text::texts(files@),
            planned(r@) == in_stage(Stage::Share, share_files(c@, all.take(i as int))),
        decreases files@.len() - i,
    {
        put_shared_file(&mut r, c, files[i].as_str());
        assert(all.take(i + 1).drop_last() =~= all.take(i as int));
        assert(all.take(i + 1).last() == files@[i as int]@);
        assert(planned(r@) =~= in_stage(Stage::Share, share_files(c@, all.take(i + 1))));
        i += 1;
    }
    assert(all.take(i as int) =~= all);
    r
}

fn plan_sharing(c: &Rollout) -> (r: Vec<Planned>)
    ensures
        planned(r@) == in_stage(Stage::Share, sharing(c@)),
{
    let mut r: Vec<Planned> = Vec::new();
    put(&mut r, Stage::Share, Step::Say(text::owned("Handling shared paths...")));
    if let Some(dirs) = &c.env.shared_directories {
        let more = plan_shared_dirs(c, dirs);
        put_all(&mut r, more);
    }
    if let Some(files) = &c.env.shared_files {
        let more = plan_shared_files(c, files);
        put_all(&mut r, more);
    }
    assert(planned(r@) =~= in_stage(Stage::Share, sharing(c@)));
    r
}

/// What is done before the maintenance mode is chosen.
pub open spec fn preparation(c: RolloutView) -> Seq<(Stage, StepView)> {
    in_stage(Stage::Transfer, transfer(c)) + in_stage(Stage::Share, sharing(c)) + in_stage(
        Stage::Maintenance,
        seq![
            StepView::LoadHooks,
            StepView::Say("Reloading FPM..."@),
            StepView::Attempt("sudo php-fpm-reload.sh"@),
        ],
    )
}

/// The steps up to the choice of the maintenance mode: the release is brought to the server and
/// unpacked there, old releases are removed, shared paths are linked, and the hook script is
/// compiled.
pub fn prepare(c: &Rollout) -> (r: Vec<Planned>)
    requires
        paths::last_name(c.archive_path@) is Some,
    ensures
        planned(r@) == preparation(c@),
{
    let mut r = plan_transfer(c);
    let more = plan_sharing(c);
    put_all(&mut r, more);
    put(&mut r, Stage::Maintenance, Step::LoadHooks);
    put(&mut r, Stage::Maintenance, Step::Say(text::owned("Reloading FPM...")));
    put(&mut r, Stage::Maintenance, Step::Attempt(text::owned("sudo php-fpm-reload.sh")));
    assert(planned(r@) =~= preparation(c@));
    r
}

/// How the maintenance mode is settled.
#[derive(Debug, Clone, PartialEq, Eq)]
pub enum ModeChoice {
    Given(String),
    /// The user picks `hard` or `soft`; this one is offered first.
    Ask { soft_first: bool },
}

/// Which maintenance mode to use: the given one where nothing is asked.
pub fn maintenance_choice(c: &Rollout) -> (r: ModeChoice)
    ensures
        c.yes ==> (r matches ModeChoice::Given(m) && m@ == c.maintenance_mode@),
        !c.yes ==> r == (ModeChoice::Ask { soft_first: c.maintenance_mode@ == "soft"@ }),
{
    if c.yes {
        ModeChoice::Given(text::owned(c.maintenance_mode.as_str()))
    } else {
        ModeChoice::Ask { soft_first: text::same(c.maintenance_mode.as_str(), "soft") }
    }
}

/// What the console of a release is asked to do.
pub open spec fn told(console: Seq<char>, what: Seq<char>) -> Seq<char> {
    console + " "@ + what
}

fn tell(console: &str, what: &str) -> (r: String)
    ensures
        r@ == told(console@, what@),
{
    let mut r = text::owned(console);
    r.append(" ");
    r.append(what);
    r
}

/// A command of the console that is run without asking, or offered to the user.
pub open spec fn offered(
    c: RolloutView,
    question: Seq<char>,
    preset: bool,
    what: Seq<char>,
) -> StepView {
    if c.yes {
        StepView::Run(told(c.console_new(), what))
    } else {
        StepView::Offer { question, preset, command: told(c.console_new(), what) }
    }
}

fn offer(c: &Rollout, question: &str, preset: bool, what: &str) -> (r: Step)
    ensures
        r@ == offered(c@, question@, preset, what@),
{
    let command = tell(c.console_new().as_str(), what);
    if c.yes {
        Step::Run(command)
    } else {
        Step::Offer { question: text::owned(question), preset, command }
    }
}

/// Both releases go into maintenance, as far as they can.
pub open spec fn closing(c: RolloutView, mode: Seq<char>) -> Seq<StepView> {
    seq![
        StepView::Say("Enabling maintenance mode ("@ + mode + ")"@),
        StepView::Attempt(told(c.console_current(), "shared:maintenance "@ + mode)),
        StepView::Attempt(told(c.console_new(), "shared:maintenance "@ + mode)),
    ]
}

/// Caches, migrations and the schema of the new release.
pub open spec fn tasks(c: RolloutView) -> Seq<StepView> {
    seq![
        StepView::Say("Executing deployment tasks..."@),
        StepView::Run(told(c.console_new(), "shared:clear-opcc"@)),
        StepView::Run(told(c.console_new(), "orm:clear-cache:metadata"@)),
        StepView::Run(told(c.console_new(), "orm:clear-cache:query"@)),
        offered(c, "Clear result cache?"@, false, "orm:clear-cache:result"@),
        offered(c, "Execute migrations?"@, true, "migrations:migrate --no-interaction"@),
        offered(c, "Execute schema-tool?"@, false, "orm:schema-tool:update --dump-sql"@),
    ]
}

/// The checks of the integration, where it is configured.
pub open spec fn checks(c: RolloutView) -> Seq<StepView> {
    if c.cops {
        seq![
            StepView::Say("Executing COPS integration..."@),
            StepView::Check {
                label: "outdated"@,
                command: told(c.console_new(), "cops:outdated"@),
            },
            StepView::Check {
                label: "permissions"@,
                command: told(c.console_new(), "cops:permissions"@),
            },
        ]
    } else {
        Seq::empty()
    }
}

/// The command that makes the release the live one.
pub open spec fn switch_command(c: RolloutView) -> Seq<char> {
    let current = c.server_root + "/current"@;
    "rm -f "@ + shell::quoted(current) + " && ln -s "@ + shell::quoted("releases/"@ + c.release_dir)
        + " "@ + shell::quoted(current)
}

/// The user has a last look, then the release becomes the live one.
pub open spec fn switching(c: RolloutView) -> Seq<StepView> {
    seq![
        StepView::Say(
            "Basic deployment done. You can now run custom commands on the server."@,
        ),
    ] + (if c.yes {
        Seq::empty()
    } else {
        seq![
            StepView::Say("Press ENTER to continue and finish deployment..."@),
            StepView::Pause,
        ]
    }) + seq![
        StepView::Say("Updating current symlink..."@),
        StepView::Run(switch_command(c)),
    ]
}

/// Maintenance ends and the byte code cache is cleared once more.
pub open spec fn finishing(c: RolloutView) -> Seq<StepView> {
    seq![
        StepView::Say("Disabling maintenance mode..."@),
        StepView::Run(told(c.console_new(), "shared:maintenance off"@)),
        StepView::Say("Final bytecode cache clear..."@),
        StepView::Run(told(c.console_new(), "shared:clear-opcc"@)),
        StepView::Hook("done_deploy"@),
    ]
}

/// What is done once the maintenance mode is chosen.
pub open spec fn execution(c: RolloutView, mode: Seq<char>) -> Seq<(Stage, StepView)> {
    in_stage(Stage::Maintenance, closing(c, mode)) + in_stage(
        Stage::PreHook,
        seq![StepView::Hook("pre_deploy"@)],
    ) + in_stage(Stage::Tasks, tasks(c)) + in_stage(Stage::Cops, checks(c)) + in_stage(
        Stage::PostHook,
        seq![StepView::Hook("post_deploy"@)],
    ) + in_stage(Stage::Switch, switching(c)) + in_stage(Stage::Finish, finishing(c))
}

fn plan_tasks(c: &Rollout) -> (r: Vec<Planned>)
    ensures
        planned(r@) == in_stage(Stage::Tasks, tasks(c@)),
{
    let mut r: Vec<Planned> = Vec::new();
    let s = Stage::Tasks;
    let console = c.console_new();
    put(&mut r, s, Step::Say(text::owned("Executing deployment tasks...")));
    put(&mut r, s, Step::Run(tell(console.as_str(), "shared:clear-opcc")));
    put(&mut r, s, Step::Run(tell(console.as_str(), "orm:clear-cache:metadata")));
    put(&mut r, s, Step::Run(tell(console.as_str(), "orm:clear-cache:query")));
    put(&mut r, s, offer(c, "Clear result cache?", false, "orm:clear-cache:result"));
    put(&mut r, s, offer(c, "Execute migrations?", true, "migrations:migrate --no-interaction"));
    put(&mut r, s, offer(c, "Execute schema-tool?", false, "orm:schema-tool:update --dump-sql"));
    assert(planned(r@) =~= in_stage(Stage::Tasks, tasks(c@)));
    r
}

fn plan_checks(c: &Rollout) -> (r: Vec<Planned>)
    ensures
        planned(r@) == in_stage(Stage::Cops, checks(c@)),
{
    let mut r: Vec<Planned> = Vec::new();
    let s = Stage::Cops;
    if let Some(true) = c.env.cops_integration {
        let console = c.console_new();
        put(&mut r, s, Step::Say(text::owned("Executing COPS integration...")));
        put(
            &mut r,
            s,
            Step::Check {
                label: text::owned("outdated"),
                command: tell(console.as_str(), "cops:outdated"),
            },
        );
        put(
            &mut r,
            s,
            Step::Check {
                label: text::owned("permissions"),
                command: tell(console.as_str(), "cops:permissions"),
            },
        );
    }
    assert(planned(r@) =~= in_stage(Stage::Cops, checks(c@)));
    r
}

fn plan_switch(c: &Rollout) -> (r: Vec<Planned>)
    ensures
        planned(r@) == in_stage(Stage::Switch, switching(c@)),
{
    let mut r: Vec<Planned> = Vec::new();
    let s = Stage::Switch;
    put(
        &mut r,
        s,
        Step::Say(
            text::owned("Basic deployment done. You can now run custom commands on the server."),
        ),
    );
    if !c.yes {
        put(&mut r, s, Step::Say(text::owned("Press ENTER to continue and finish deployment...")));
        put(&mut r, s, Step::Pause);
    }
    put(&mut r, s, Step::Say(text::owned("Updating current symlink...")));
    let mut current = c.server_root();
    current.append("/current");
    let mut target = text::owned("releases/");
    target.append(c.release_dir.as_str());
    let mut command = command_on("rm -f ", current.as_str());
    command.append(" && ln -s ");
    command.append(sq(target.as_str()).as_str());
    command.append(" ");
    command.append(sq(current.as_str()).as_str());
    put(&mut r, s, Step::Run(command));
    assert(planned(r@) =~= in_stage(Stage::Switch, switching(c@)));
    r
}

fn plan_finish(c: &Rollout) -> (r: Vec<Planned>)
    ensures
        planned(r@) == in_stage(Stage::Finish, finishing(c@)),
{
    let mut r: Vec<Planned> = Vec::new();
    let s = Stage::Finish;
    let console = c.console_new();
    put(&mut r, s, Step::Say(text::owned("Disabling maintenance mode...")));
    put(&mut r, s, Step::Run(tell(console.as_str(), "shared:maintenance off")));
    put(&mut r, s, Step::Say(text::owned("Final bytecode cache clear...")));
    put(&mut r, s, Step::Run(tell(console.as_str(), "shared:clear-opcc")));
    put(&mut r, s, Step::Hook(text::owned("done_deploy")));
    assert(planned(r@) =~= in_stage(Stage::Finish, finishing(c@)));
    r
}

/// The steps once the maintenance mode is chosen.
pub fn perform_deployment(c: &Rollout, mode: &str) -> (r: Vec<Planned>)
    ensures
        planned(r@) == execution(c@, mode@),
{
    let mut r: Vec<Planned> = Vec::new();
    let s = Stage::Maintenance;
    let mut enabling = text::owned("Enabling maintenance mode (");
    enabling.append(mode);
    enabling.append(")");
    let mut what = text::owned("shared:maintenance ");
    what.append(mode);
    put(&mut r, s, Step::Say(enabling));
    put(&mut r, s, Step::Attempt(tell(c.console_current().as_str(), what.as_str())));
    put(&mut r, s, Step::Attempt(tell(c.console_new().as_str(), what.as_str())));
    put(&mut r, Stage::PreHook, Step::Hook(text::owned("pre_deploy")));
    let a = plan_tasks(c);
    put_all(&mut r, a);
    let b = plan_checks(c);
    put_all(&mut r, b);
    put(&mut r, Stage::PostHook, Step::Hook(text::owned("post_deploy")));
    let d = plan_switch(c);
    put_all(&mut r, d);
    let e = plan_finish(c);
    put_all(&mut r, e);
    assert(planned(r@) =~= execution(c@, mode@));
    r
}

// ---------------------------------------------------------------- what follows a step

/// What became of a step.
#[derive(Debug, Clone, PartialEq, Eq)]
pub enum Event {
    Done,
    Failed(String),
    /// A function that the script called is not there; with how the failure reads.
    Missing { function: String, error: String },
    Answered(bool),
}

/// An event, with its strings as sequences of characters.
pub ghost enum EventView {
    Done,
    Failed(Seq<char>),
    Missing { function: Seq<char>, error: Seq<char> },
    Answered(bool),
}

impl View for Event {
    type V = EventView;

    open spec fn view(&self) -> EventView {
        match *self {
            Event::Done => EventView::Done,
            Event::Failed(e) => EventView::Failed(e@),
            Event::Missing { function, error } => EventView::Missing {
                function: function@,
                error: error@,
            },
            Event::Answered(b) => EventView::Answered(b),
        }
    }
}

/// Maintenance ends on both releases, as far as it can, and the rollout is given up.
pub open spec fn giving_up(c: RolloutView, reason: Seq<char>) -> Seq<StepView> {
    seq![
        StepView::Attempt(told(c.console_current(), "shared:maintenance off"@)),
        StepView::Attempt(told(c.console_new(), "shared:maintenance off"@)),
        StepView::Stop(reason),
    ]
}

/// The steps that a step leads to by what became of it, before the rest of the plan goes on.
pub open spec fn follow_up(c: RolloutView, step: StepView, event: EventView) -> Seq<StepView> {
    match (step, event) {
        (StepView::Run(_), EventView::Failed(e)) => seq![StepView::Stop(e)],
        (StepView::Copy { .. }, EventView::Failed(e)) => seq![StepView::Stop(e)],
        (StepView::Pause, EventView::Failed(e)) => seq![StepView::Stop(e)],
        (StepView::LoadHooks, EventView::Failed(e)) => seq![
            StepView::Stop("Failed to compile Rhai script: "@ + e),
        ],
        (StepView::Hook(n), EventView::Failed(e)) => seq![
            StepView::Stop("Hook "@ + n + " failed: "@ + e),
        ],
        (StepView::Hook(n), EventView::Missing { function, error }) => if n.is_prefix_of(function) {
            Seq::empty()
        } else {
            seq![StepView::Stop("Hook "@ + n + " failed: "@ + error)]
        },
        (StepView::Offer { command, .. }, EventView::Answered(true)) => seq![
            StepView::Run(command),
        ],
        (StepView::Offer { .. }, EventView::Failed(e)) => seq![StepView::Stop(e)],
        (StepView::Check { label, .. }, EventView::Failed(e)) => if c.yes {
            giving_up(c, "COPS "@ + label + " check failed: "@ + e + ". Deployment aborted."@)
        } else {
            seq![StepView::Warn("COPS "@ + label + " command failed: "@ + e), StepView::Insist]
        },
        (StepView::Insist, EventView::Answered(false)) => giving_up(
            c,
            "Deployment aborted due to COPS integration failure"@,
        ),
        (StepView::Insist, EventView::Failed(e)) => seq![StepView::Stop(e)],
        _ => Seq::empty(),
    }
}

fn give_up(out: &mut Vec<Planned>, c: &Rollout, stage: Stage, reason: String)
    ensures
        planned(final(out)@) == planned(old(out)@) + in_stage(stage, giving_up(c@, reason@)),
{
    let ghost before = planned(out@);
    put(
        out,
        stage,
        Step::Attempt(tell(c.console_current().as_str(), "shared:maintenance off")),
    );
    put(out, stage, Step::Attempt(tell(c.console_new().as_str(), "shared:maintenance off")));
    put(out, stage, Step::Stop(reason));
    assert(planned(out@) =~= before + in_stage(stage, giving_up(c@, reason@)));
}

fn hook_failed(name: &str, error: &str) -> (r: String)
    ensures
        r@ == "Hook "@ + name@ + " failed: "@ + error@,
{
    let mut r = text::owned("Hook ");
    r.append(name);
    r.append(" failed: ");
    r.append(error);
    r
}

fn check_failed(label: &str, verb: &str, error: &str) -> (r: String)
    ensures
        r@ == "COPS "@ + label@ + verb@ + error@,
{
    let mut r = text::owned("COPS ");
    r.append(label);
    r.append(verb);
    r.append(error);
    r
}

/// The question that follows a failed check.
pub fn insist_question() -> (r: String)
    ensures
        r@ == "Do you want to continue deployment despite COPS command failure?"@,
{
    text::owned("Do you want to continue deployment despite COPS command failure?")
}

/// What a step leads to by what became of it.
pub fn settle(c: &Rollout, p: &Planned, event: &Event) -> (r: Vec<Planned>)
    ensures
        planned(r@) == in_stage(p.stage, follow_up(c@, p.step@, event@)),
{
    let mut r: Vec<Planned> = Vec::new();
    let s = p.stage;
    match (&p.step, event) {
        (Step::Run(_), Event::Failed(e)) => {
            put(&mut r, s, Step::Stop(text::owned(e.as_str())));
        },
        (Step::Copy { .. }, Event::Failed(e)) => {
            put(&mut r, s, Step::Stop(text::owned(e.as_str())));
        },
        (Step::Pause, Event::Failed(e)) => {
            put(&mut r, s, Step::Stop(text::owned(e.as_str())));
        },
        (Step::LoadHooks, Event::Failed(e)) => {
            let mut m = text::owned("Failed to compile Rhai script: ");
            m.append(e.as_str());
            put(&mut r, s, Step::Stop(m));
        },
        (Step::Hook(n), Event::Failed(e)) => {
            put(&mut r, s, Step::Stop(hook_failed(n.as_str(), e.as_str())));
        },
        (Step::Hook(n), Event::Missing { function, error }) => {
            if !text::starts_with(function.as_str(), n.as_str()) {
                put(&mut r, s, Step::Stop(hook_failed(n.as_str(), error.as_str())));
            }
        },
        (Step::Offer { command, .. }, Event::Answered(true)) => {
            put(&mut r, s, Step::Run(text::owned(command.as_str())));
        },
        (Step::Offer { .. }, Event::Failed(e)) => {
            put(&mut r, s, Step::Stop(text::owned(e.as_str())));
        },
        (Step::Check { label, .. }, Event::Failed(e)) => {
            if c.yes {
                let mut m = check_failed(label.as_str(), " check failed: ", e.as_str());
                m.append(". Deployment aborted.");
                give_up(&mut r, c, s, m);
            } else {
                put(
                    &mut r,
                    s,
                    Step::Warn(check_failed(label.as_str(), " command failed: ", e.as_str())),
                );
                put(&mut r, s, Step::Insist);
            }
        },
        (Step::Insist, Event::Answered(false)) => {
            give_up(
                &mut r,
                c,
                s,
                text::owned("Deployment aborted due to COPS integration failure"),
            );
        },
        (Step::Insist, Event::Failed(e)) => {
            put(&mut r, s, Step::Stop(text::owned(e.as_str())));
        },
        _ => {},
    }
    assert(planned(r@) =~= in_stage(p.stage, follow_up(c@, p.step@, event@)));
    r
}

/// The steps that are left once the first of them was done. A rollout that was given up stays so.
pub open spec fn after(
    c: RolloutView,
    queue: Seq<(Stage, StepView)>,
    event: EventView,
) -> Seq<(Stage, StepView)> {
    if queue.len() == 0 || queue[0].1 is Stop {
        queue
    } else {
        in_stage(queue[0].0, follow_up(c, queue[0].1, event)) + queue.drop_first()
    }
}

/// Goes on after the first step: what it leads to comes before the rest.
pub fn advance(c: &Rollout, queue: Vec<Planned>, event: &Event) -> (r: Vec<Planned>)
    ensures
        planned(r@) == after(c@, planned(queue@), event@),
{
    let mut rest = queue;
    if rest.len() == 0 {
        return rest;
    }
    assert(planned(queue@)[0] == (queue@[0].stage, queue@[0].step@));
    if let Step::Stop(_) = rest[0].step {
        return rest;
    }
    let first = rest.remove(0);
    let mut r = settle(c, &first, event);
    assert(planned(rest@) =~= planned(queue@).drop_first());
    put_all(&mut r, rest);
    r
}

// ---------------------------------------------------------------- laws

/// Whether the stages of some steps come in their order.
pub open spec fn ordered(q: Seq<(Stage, StepView)>) -> bool {
    forall|i: int, j: int|
        0 <= i <= j < q.len() ==> rank((#[trigger] q[i]).0) <= rank((#[trigger] q[j]).0)
}

proof fn lemma_ordered_join(a: Seq<(Stage, StepView)>, s: Stage, steps: Seq<StepView>)
    requires
        ordered(a),
        forall|i: int| 0 <= i < a.len() ==> rank((#[trigger] a[i]).0) <= rank(s),
    ensures
        ordered(a + in_stage(s, steps)),
        forall|i: int|
            0 <= i < (a + in_stage(s, steps)).len() ==> rank(
                (#[trigger] (a + in_stage(s, steps))[i]).0,
            ) <= rank(s),
{
}

/// A release is rolled out in order: it is brought over, then shared paths are linked, then
/// maintenance begins, then come the first hook, the tasks, the checks and the second hook, and
/// only then does the release become the live one, with maintenance ending last.
pub proof fn the_stages_come_in_order(c: RolloutView, mode: Seq<char>)
    ensures
        ordered(preparation(c) + execution(c, mode)),
{
    let e = Seq::<(Stage, StepView)>::empty();
    let m = seq![
        StepView::LoadHooks,
        StepView::Say("Reloading FPM..."@),
        StepView::Attempt("sudo php-fpm-reload.sh"@),
    ];
    let pre = seq![StepView::Hook("pre_deploy"@)];
    let post = seq![StepView::Hook("post_deploy"@)];
    lemma_ordered_join(e, Stage::Transfer, transfer(c));
    let a = e + in_stage(Stage::Transfer, transfer(c));
    lemma_ordered_join(a, Stage::Share, sharing(c));
    let b = a + in_stage(Stage::Share, sharing(c));
    lemma_ordered_join(b, Stage::Maintenance, m + closing(c, mode));
    let d = b + in_stage(Stage::Maintenance, m + closing(c, mode));
    lemma_ordered_join(d, Stage::PreHook, pre);
    let f = d + in_stage(Stage::PreHook, pre);
    lemma_ordered_join(f, Stage::Tasks, tasks(c));
    let g = f + in_stage(Stage::Tasks, tasks(c));
    lemma_ordered_join(g, Stage::Cops, checks(c));
    let h = g + in_stage(Stage::Cops, checks(c));
    lemma_ordered_join(h, Stage::PostHook, post);
    let k = h + in_stage(Stage::PostHook, post);
    lemma_ordered_join(k, Stage::Switch, switching(c));
    let l = k + in_stage(Stage::Switch, switching(c));
    lemma_ordered_join(l, Stage::Finish, finishing(c));
    assert(preparation(c) + execution(c, mode) =~= l + in_stage(Stage::Finish, finishing(c)));
}

/// Whatever becomes of a step, the rollout does not go back to an earlier stage.
pub proof fn no_event_leads_back(
    c: RolloutView,
    queue: Seq<(Stage, StepView)>,
    event: EventView,
)
    requires
        ordered(queue),
    ensures
        ordered(after(c, queue, event)),
{
}

/// A command that has to succeed and fails ends the rollout: nothing after it is done, and the
/// release does not become the live one.
pub proof fn a_failed_command_ends_the_rollout(
    c: RolloutView,
    queue: Seq<(Stage, StepView)>,
    error: Seq<char>,
    later: EventView,
)
    requires
        queue.len() > 0,
        queue[0].1 is Run || queue[0].1 is Copy,
    ensures
        ({
            let q = after(c, queue, EventView::Failed(error));
            q[0].1 == StepView::Stop(error) && after(c, q, later) == q
        }),
{
}

/// A rollout that is given up over a failed check ends maintenance on both releases first: on
/// the one that is live and on the new one.
pub proof fn giving_up_ends_maintenance(
    c: RolloutView,
    queue: Seq<(Stage, StepView)>,
    event: EventView,
    second: EventView,
    third: EventView,
)
    requires
        queue.len() > 0,
        (queue[0].1 is Check && event is Failed && c.yes) || (queue[0].1 is Insist && event
            == EventView::Answered(false)),
    ensures
        ({
            let q = after(c, queue, event);
            &&& q[0].1 == StepView::Attempt(told(c.console_current(), "shared:maintenance off"@))
            &&& after(c, q, second)[0].1 == StepView::Attempt(
                told(c.console_new(), "shared:maintenance off"@),
            )
            &&& after(c, after(c, q, second), third)[0].1 is Stop
        }),
{
    let q = after(c, queue, event);
    assert(q[0].1 is Attempt);
    let q2 = after(c, q, second);
    assert(follow_up(c, q[0].1, second) =~= Seq::empty());
    assert(q2 =~= q.drop_first());
    assert(follow_up(c, q2[0].1, third) =~= Seq::empty());
    assert(after(c, q2, third) =~= q2.drop_first());
}

/// Whether a step waits for the user.
pub open spec fn asks(s: StepView) -> bool {
    s is Offer || s is Insist || s is Pause
}

/// Whether none of some steps waits for the user.
pub open spec fn silent(q: Seq<(Stage, StepView)>) -> bool {
    forall|i: int| 0 <= i < q.len() ==> !asks((#[trigger] q[i]).1)
}

proof fn lemma_shared_dirs_silent(c: RolloutView, dirs: Seq<Seq<char>>, i: int)
    requires
        0 <= i < share_dirs(c, dirs).len(),
    ensures
        !asks(share_dirs(c, dirs)[i]),
    decreases dirs.len(),
{
    let before = share_dirs(c, dirs.drop_last());
    if i < before.len() {
        lemma_shared_dirs_silent(c, dirs.drop_last(), i);
    }
}

proof fn lemma_shared_files_silent(c: RolloutView, files: Seq<Seq<char>>, i: int)
    requires
        0 <= i < share_files(c, files).len(),
    ensures
        !asks(share_files(c, files)[i]),
    decreases files.len(),
{
    let before = share_files(c, files.drop_last());
    if i < before.len() {
        lemma_shared_files_silent(c, files.drop_last(), i);
    }
}

/// A rollout that was told to ask nothing asks nothing, neither by its plan nor after anything
/// that becomes of a step.
pub proof fn an_unattended_rollout_asks_nothing(
    c: RolloutView,
    mode: Seq<char>,
    queue: Seq<(Stage, StepView)>,
    event: EventView,
)
    requires
        c.yes,
        silent(queue),
    ensures
        silent(preparation(c) + execution(c, mode)),
        silent(after(c, queue, event)),
{
    let p = preparation(c) + execution(c, mode);
    let t = transfer(c).len();
    let d = share_dirs(c, c.shared_directories).len();
    let f = share_files(c, c.shared_files).len();
    assert forall|i: int| 0 <= i < p.len() implies !asks((#[trigger] p[i]).1) by {
        if t + 1 <= i < t + 1 + d {
            lemma_shared_dirs_silent(c, c.shared_directories, i - t - 1);
            assert(p[i].1 == share_dirs(c, c.shared_directories)[i - t - 1]);
        } else if t + 1 + d <= i < t + 1 + d + f {
            lemma_shared_files_silent(c, c.shared_files, i - t - 1 - d);
            assert(p[i].1 == share_files(c, c.shared_files)[i - t - 1 - d]);
        }
    }
}

} // verus!
