//! The steps of linking, creating and unlinking a module, and how they are undone.
use vstd::prelude::*;

use crate::commands::module::composer;
use crate::commands::module::composer::{
    branch_from_pin, links_view, repo_entry_json, repo_key, validate_package_name, LinkView,
    LinkedModule, NameFault, CREATE_PIN,
};
use crate::commands::module::{find_linked, linked_at};
use crate::number;
use crate::order;
use crate::paths;
use crate::text;
use crate::text::{push_all, push_text, same};
use crate::ui;
use crate::ui::{Level, Message};

verus! {

// ---------------------------------------------------------------- link

/// How linking a module begins.
#[derive(Debug, Clone, PartialEq, Eq)]
pub enum LinkStart {
    /// The module is linked already.
    AlreadyLinked(LinkedModule),
    /// Both the vendor directory and the checkout are real directories.
    BothExist,
    /// The vendor directory is no git repository.
    NotARepository,
    /// The module can be linked; `reuse` tells whether an earlier checkout is used.
    Proceed { reuse: bool },
}

/// How linking a module begins, with the linked module as its view.
pub ghost enum StartView {
    AlreadyLinked(LinkView),
    BothExist,
    NotARepository,
    Proceed { reuse: bool },
}

impl View for LinkStart {
    type V = StartView;

    open spec fn view(&self) -> StartView {
        match *self {
            LinkStart::AlreadyLinked(l) => StartView::AlreadyLinked(l@),
            LinkStart::BothExist => StartView::BothExist,
            LinkStart::NotARepository => StartView::NotARepository,
            LinkStart::Proceed { reuse } => StartView::Proceed { reuse },
        }
    }
}

/// What was found of a module on disk.
#[derive(Debug, Clone, Copy, PartialEq, Eq, Structural)]
pub struct ModuleFiles {
    /// Whether something stands under `vendor/`.
    pub vendor_exists: bool,
    /// Whether that is a symbolic link.
    pub vendor_is_symlink: bool,
    /// Whether that is a git repository.
    pub vendor_is_git: bool,
    /// Whether something stands under `modules/`.
    pub checkout_exists: bool,
}

/// Decides how linking a module begins.
pub fn begin_link(linked: &Vec<LinkedModule>, relative: &str, files: ModuleFiles) -> (r: LinkStart)
    ensures
        r@ == (match super::first_linked_at(links_view(linked@), relative@) {
            Some(l) => StartView::AlreadyLinked(l),
            None => if files.checkout_exists {
                if files.vendor_exists && !files.vendor_is_symlink {
                    StartView::BothExist
                } else {
                    StartView::Proceed { reuse: true }
                }
            } else if !files.vendor_is_git {
                StartView::NotARepository
            } else {
                StartView::Proceed { reuse: false }
            },
        }),
{
    match find_linked(linked, relative) {
        Some(l) => LinkStart::AlreadyLinked(l),
        None => if files.checkout_exists {
            if files.vendor_exists && !files.vendor_is_symlink {
                LinkStart::BothExist
            } else {
                LinkStart::Proceed { reuse: true }
            }
        } else if !files.vendor_is_git {
            LinkStart::NotARepository
        } else {
            LinkStart::Proceed { reuse: false }
        },
    }
}

/// The version that a module is pinned to: the one that was asked for, or else the one that is
/// installed.
pub fn link_pin(version: Option<&str>, installed: Option<&str>, package: &str) -> (r: Result<
    String,
    String,
>)
    ensures
        match version {
            Some(v) => r matches Ok(s) && s@ == v@,
            None => match installed {
                Some(i) => r matches Ok(s) && s@ == i@,
                None => r matches Err(e) && e@
                    == "Could not determine the installed version of "@ + package@
                    + " from composer.lock — pass --version <version> to pin it explicitly"@,
            },
        },
{
    match version {
        Some(v) => Ok(text::owned(v)),
        None => match installed {
            Some(i) => Ok(text::owned(i)),
            None => {
                let mut e = text::owned("Could not determine the installed version of ");
                e.append(package);
                e.append(" from composer.lock — pass --version <version> to pin it explicitly");
                Err(e)
            },
        },
    }
}

/// One step of linking or creating a module. A run stops at the first one that fails, and is
/// then undone.
#[derive(Debug, Clone, PartialEq, Eq)]
pub enum LinkAction {
    /// Move the vendor directory to `modules/`.
    MoveCheckout,
    /// Put the checkout on this branch, where it is not on it.
    CheckoutBranch(String),
    /// Keep the checkouts out of the application's repository.
    IgnoreModules,
    /// Run Composer with these arguments.
    Composer(Vec<String>),
    /// Make sure that `vendor/` links to the checkout: Composer may succeed without doing so.
    VerifyLink,
}

/// A step, with its strings as sequences of characters.
pub ghost enum LinkActionView {
    MoveCheckout,
    CheckoutBranch(Seq<char>),
    IgnoreModules,
    Composer(Seq<Seq<char>>),
    VerifyLink,
}

impl View for LinkAction {
    type V = LinkActionView;

    open spec fn view(&self) -> LinkActionView {
        match *self {
            LinkAction::MoveCheckout => LinkActionView::MoveCheckout,
            LinkAction::CheckoutBranch(b) => LinkActionView::CheckoutBranch(b@),
            LinkAction::IgnoreModules => LinkActionView::IgnoreModules,
            LinkAction::Composer(v) => LinkActionView::Composer(text::texts(v@)),
            LinkAction::VerifyLink => LinkActionView::VerifyLink,
        }
    }
}

/// The views of a list of steps.
pub open spec fn steps_view(v: Seq<LinkAction>) -> Seq<LinkActionView> {
    v.map_values(|a: LinkAction| a@)
}

fn push_step(out: &mut Vec<LinkAction>, a: LinkAction)
    ensures
        steps_view(final(out)@) == steps_view(old(out)@).push(a@),
{
    let ghost before = steps_view(out@);
    out.push(a);
    assert(steps_view(out@) =~= before.push(a@));
}

/// The arguments with which Composer writes a module's repository entry.
pub open spec fn config_args(relative: Seq<char>, package: Seq<char>, pin: Seq<char>) -> Seq<
    Seq<char>,
> {
    seq!["config"@, composer::key_of(relative), composer::repo_entry(relative, package, pin)]
}

fn config_args_of(relative: &str, package: &str, pin: &str) -> (r: Vec<String>)
    ensures
        text::texts(r@) == config_args(relative@, package@, pin@),
{
    let mut r = text::no_texts();
    push_text(&mut r, "config");
    push_text(&mut r, repo_key(relative).as_str());
    push_text(&mut r, repo_entry_json(relative, package, pin).as_str());
    assert(text::texts(r@) =~= config_args(relative@, package@, pin@));
    r
}

/// The steps of linking a module.
pub open spec fn link_steps(
    reuse: bool,
    relative: Seq<char>,
    package: Seq<char>,
    pin: Seq<char>,
    composer_args: Seq<Seq<char>>,
    skip_composer: bool,
) -> Seq<LinkActionView> {
    (if reuse {
        Seq::empty()
    } else {
        seq![LinkActionView::MoveCheckout]
    }) + (match composer::pinned_branch(pin) {
        Some(b) => seq![LinkActionView::CheckoutBranch(b)],
        None => Seq::empty(),
    }) + seq![LinkActionView::IgnoreModules] + (if skip_composer {
        Seq::empty()
    } else {
        seq![
            LinkActionView::Composer(config_args(relative, package, pin)),
            LinkActionView::Composer(seq!["update"@, package] + composer_args),
            LinkActionView::VerifyLink,
        ]
    })
}

/// The steps of linking a module: the checkout is moved and put on its branch, ignored by the
/// application, and made known to Composer, whose result is then verified.
pub fn link(
    reuse: bool,
    relative: &str,
    package: &str,
    pin: &str,
    composer_args: &Vec<String>,
    skip_composer: bool,
) -> (r: Vec<LinkAction>)
    ensures
        steps_view(r@) == link_steps(
            reuse,
            relative@,
            package@,
            pin@,
            text::texts(composer_args@),
            skip_composer,
        ),
{
    let mut r: Vec<LinkAction> = Vec::new();
    assert(steps_view(r@) =~= Seq::empty());
    if !reuse {
        push_step(&mut r, LinkAction::MoveCheckout);
    }
    if let Some(b) = branch_from_pin(pin) {
        push_step(&mut r, LinkAction::CheckoutBranch(b));
    }
    push_step(&mut r, LinkAction::IgnoreModules);
    if !skip_composer {
        push_step(&mut r, LinkAction::Composer(config_args_of(relative, package, pin)));
        let mut update = text::no_texts();
        push_text(&mut update, "update");
        push_text(&mut update, package);
        push_all(&mut update, composer_args);
        assert(text::texts(update@) =~= seq!["update"@, package@] + text::texts(composer_args@));
        push_step(&mut r, LinkAction::Composer(update));
        push_step(&mut r, LinkAction::VerifyLink);
    }
    assert(steps_view(r@) =~= link_steps(
        reuse,
        relative@,
        package@,
        pin@,
        text::texts(composer_args@),
        skip_composer,
    ));
    r
}

// ---------------------------------------------------------------- undoing a link

/// What linking has changed so far.
#[derive(Debug, Clone, PartialEq, Eq)]
pub struct LinkState {
    pub moved: bool,
    pub gitignore_added: bool,
    /// The commit that the checkout stood at before it was put on a branch.
    pub detached_head: Option<String>,
}

/// Something that linking has done.
#[derive(Debug, Clone, PartialEq, Eq)]
pub enum LinkEvent {
    Moved,
    /// The checkout was put on a branch; it stood at this commit before, where that is known.
    OnBranch(Option<String>),
    /// The ignore rule was looked at; tells whether it was added.
    Ignored(bool),
}

/// One step of undoing. Each is tried, whatever became of the others.
#[derive(Debug, Clone, PartialEq, Eq)]
pub enum LinkUndo {
    /// Put `composer.json` and `composer.lock` back as they were.
    RestoreComposer,
    /// Put the checkout back on this commit.
    RestoreHead(String),
    /// Move the checkout back to `vendor/`, in place of a link that Composer may have made.
    MoveBack,
    /// Take the ignore rule out again.
    RevertGitignore,
    /// Tell that the new module is kept.
    KeepModule,
}

/// A step of undoing, with its strings as sequences of characters.
pub ghost enum UndoView {
    RestoreComposer,
    RestoreHead(Seq<char>),
    MoveBack,
    RevertGitignore,
    KeepModule,
}

impl View for LinkUndo {
    type V = UndoView;

    open spec fn view(&self) -> UndoView {
        match *self {
            LinkUndo::RestoreComposer => UndoView::RestoreComposer,
            LinkUndo::RestoreHead(c) => UndoView::RestoreHead(c@),
            LinkUndo::MoveBack => UndoView::MoveBack,
            LinkUndo::RevertGitignore => UndoView::RevertGitignore,
            LinkUndo::KeepModule => UndoView::KeepModule,
        }
    }
}

/// The views of the steps of undoing.
pub open spec fn undo_view(v: Seq<LinkUndo>) -> Seq<UndoView> {
    v.map_values(|u: LinkUndo| u@)
}

fn push_undo(out: &mut Vec<LinkUndo>, u: LinkUndo)
    ensures
        undo_view(final(out)@) == undo_view(old(out)@).push(u@),
{
    let ghost before = undo_view(out@);
    out.push(u);
    assert(undo_view(out@) =~= before.push(u@));
}

/// The changes so far, as plain values.
pub ghost struct ChangedView {
    pub moved: bool,
    pub gitignore_added: bool,
    pub detached_head: Option<Seq<char>>,
}

impl View for LinkState {
    type V = ChangedView;

    open spec fn view(&self) -> ChangedView {
        ChangedView {
            moved: self.moved,
            gitignore_added: self.gitignore_added,
            detached_head: paths::opt(self.detached_head),
        }
    }
}

/// The changes with one more thing done.
pub open spec fn with_event(s: ChangedView, e: LinkEvent) -> ChangedView {
    match e {
        LinkEvent::Moved => ChangedView { moved: true, ..s },
        LinkEvent::OnBranch(c) => ChangedView { detached_head: paths::opt(c), ..s },
        LinkEvent::Ignored(added) => ChangedView { gitignore_added: added, ..s },
    }
}

impl LinkState {
    /// Nothing has been changed yet.
    pub fn new() -> (r: LinkState)
        ensures
            !r@.moved && !r@.gitignore_added && r@.detached_head is None,
    {
        LinkState { moved: false, gitignore_added: false, detached_head: None }
    }

    /// Notes something that was done.
    pub fn record(&mut self, event: LinkEvent)
        ensures
            final(self)@ == with_event(old(self)@, event),
    {
        match event {
            LinkEvent::Moved => {
                self.moved = true;
            },
            LinkEvent::OnBranch(c) => {
                self.detached_head = c;
            },
            LinkEvent::Ignored(added) => {
                self.gitignore_added = added;
            },
        }
    }
}

/// How a link is undone: the files of Composer first, then the commit of the checkout, while it
/// still lies in `modules/`, then its place, then the ignore rule.
pub open spec fn undo_steps(s: ChangedView) -> Seq<UndoView> {
    seq![UndoView::RestoreComposer] + (match s.detached_head {
        Some(c) => seq![UndoView::RestoreHead(c)],
        None => Seq::empty(),
    }) + (if s.moved {
        seq![UndoView::MoveBack]
    } else {
        Seq::empty()
    }) + (if s.gitignore_added {
        seq![UndoView::RevertGitignore]
    } else {
        Seq::empty()
    })
}

/// The steps that undo a link which failed.
pub fn rollback_link(state: &LinkState) -> (r: Vec<LinkUndo>)
    ensures
        undo_view(r@) == undo_steps(state@),
{
    let mut r: Vec<LinkUndo> = Vec::new();
    assert(undo_view(r@) =~= Seq::empty());
    push_undo(&mut r, LinkUndo::RestoreComposer);
    if let Some(c) = &state.detached_head {
        push_undo(&mut r, LinkUndo::RestoreHead(c.clone()));
    }
    if state.moved {
        push_undo(&mut r, LinkUndo::MoveBack);
    }
    if state.gitignore_added {
        push_undo(&mut r, LinkUndo::RevertGitignore);
    }
    assert(undo_view(r@) =~= undo_steps(state@));
    r
}

/// Undoing touches only what was changed: the checkout is moved back exactly where it was moved,
/// and the ignore rule is taken out exactly where it was added.
pub proof fn undoing_matches_what_was_done(s: ChangedView)
    ensures
        undo_steps(s).contains(UndoView::MoveBack) <==> s.moved,
        undo_steps(s).contains(UndoView::RevertGitignore) <==> s.gitignore_added,
        forall|c: Seq<char>| #[trigger]
            undo_steps(s).contains(UndoView::RestoreHead(c)) <==> s.detached_head == Some(c),
        !undo_steps(s).contains(UndoView::KeepModule),
{
    let steps = undo_steps(s);
    let h = if s.detached_head is Some {
        1int
    } else {
        0int
    };
    let m = if s.moved {
        1int
    } else {
        0int
    };
    if s.moved {
        assert(steps[1 + h] == UndoView::MoveBack);
    }
    if s.gitignore_added {
        assert(steps[1 + h + m] == UndoView::RevertGitignore);
    }
    if let Some(c) = s.detached_head {
        assert(steps[1] == UndoView::RestoreHead(c));
    }
}

/// The branch that a checkout is put on: the one its pin stands for, unless it is on it.
pub fn checkout_pinned_branch(pin: &str, current: Option<&str>) -> (r: Option<String>)
    ensures
        paths::opt(r) == (match composer::pinned_branch(pin@) {
            Some(b) => if crate::docker::opt_str(current) == Some(b) {
                None
            } else {
                Some(b)
            },
            None => None,
        }),
{
    match branch_from_pin(pin) {
        Some(b) => {
            let on_it = match current {
                Some(c) => same(c, b.as_str()),
                None => false,
            };
            if on_it {
                None
            } else {
                Some(b)
            }
        },
        None => None,
    }
}

/// Whether a path is a symbolic link to a directory, given where the two lead, as far as that is
/// known.
pub fn links_to(is_symlink: bool, link: Option<&str>, target: Option<&str>) -> (r: bool)
    ensures
        r == (is_symlink && (link matches Some(a) && target matches Some(b) && a@ == b@)),
{
    if !is_symlink {
        return false;
    }
    match (link, target) {
        (Some(a), Some(b)) => same(a, b),
        _ => false,
    }
}

/// What the command says once a module is linked.
pub fn link_report(package: &str, relative: &str) -> (r: Vec<Message>)
    ensures
        ui::said(r@) == seq![
            (Level::Success, package@ + " is linked for development."@),
            (Level::Info, "  edit here: htdocs/modules/"@ + relative@),
            (
                Level::Warning,
                "composer.json and composer.lock are tracked — do not commit this link. `deploy` and `release` build from the committed tree, where modules/ does not exist."@,
            ),
        ],
{
    let mut out: Vec<Message> = Vec::new();
    assert(ui::said(out@) =~= Seq::empty());
    let mut line = text::owned(package);
    line.append(" is linked for development.");
    ui::say(&mut out, Level::Success, line);
    let mut place = text::owned("  edit here: htdocs/modules/");
    place.append(relative);
    ui::say(&mut out, Level::Info, place);
    ui::say(
        &mut out,
        Level::Warning,
        text::owned(
            "composer.json and composer.lock are tracked — do not commit this link. `deploy` and `release` build from the committed tree, where modules/ does not exist.",
        ),
    );
    assert(ui::said(out@) =~= seq![
        (Level::Success, package@ + " is linked for development."@),
        (Level::Info, "  edit here: htdocs/modules/"@ + relative@),
        (
            Level::Warning,
            "composer.json and composer.lock are tracked — do not commit this link. `deploy` and `release` build from the committed tree, where modules/ does not exist."@,
        ),
    ]);
    out
}

// ---------------------------------------------------------------- create

/// How creating a module begins.
#[derive(Debug, Clone, PartialEq, Eq)]
pub enum CreateStart {
    /// The name is no package name.
    Invalid(NameFault),
    /// The module is linked already, as this package.
    AlreadyLinked(String),
    /// A checkout of this name is there already.
    CheckoutExists,
    /// A package of this name is installed already.
    Installed,
    /// The module can be created under this path.
    Proceed(String),
}

/// How creating a module begins, with its strings as sequences of characters.
pub ghost enum CreateView {
    Invalid(NameFault),
    AlreadyLinked(Seq<char>),
    CheckoutExists,
    Installed,
    Proceed(Seq<char>),
}

impl View for CreateStart {
    type V = CreateView;

    open spec fn view(&self) -> CreateView {
        match *self {
            CreateStart::Invalid(f) => CreateView::Invalid(f),
            CreateStart::AlreadyLinked(p) => CreateView::AlreadyLinked(p@),
            CreateStart::CheckoutExists => CreateView::CheckoutExists,
            CreateStart::Installed => CreateView::Installed,
            CreateStart::Proceed(p) => CreateView::Proceed(p@),
        }
    }
}

/// Decides how creating a module begins. The name is judged as it was typed, and every module
/// that is there already is refused.
pub fn begin_create(linked: &Vec<LinkedModule>, module: &str, files: ModuleFiles) -> (r: CreateStart)
    ensures
        ({
            let t = text::without_ends(module@, '/');
            r@ == match composer::name_fault(t) {
                Some(f) => CreateView::Invalid(f),
                None => match super::first_linked_at(links_view(linked@), t) {
                    Some(l) => CreateView::AlreadyLinked(l.package),
                    None => if files.checkout_exists {
                        CreateView::CheckoutExists
                    } else if files.vendor_exists {
                        CreateView::Installed
                    } else {
                        CreateView::Proceed(t)
                    },
                },
            }
        }),
{
    let t = super::module_argument(module);
    match validate_package_name(t.as_str()) {
        Err(f) => CreateStart::Invalid(f),
        Ok(_) => match find_linked(linked, t.as_str()) {
            Some(l) => CreateStart::AlreadyLinked(l.package),
            None => if files.checkout_exists {
                CreateStart::CheckoutExists
            } else if files.vendor_exists {
                CreateStart::Installed
            } else {
                CreateStart::Proceed(t)
            },
        },
    }
}

/// The arguments of `composer init` for a new module. Its questions need a terminal.
pub fn init_args(relative: &str, package_type: Option<&str>, yes: bool, interactive: bool) -> (r: Vec<
    String,
>)
    ensures
        text::texts(r@) == seq![
            "init"@,
            "--name="@ + relative@,
            "--type="@ + (match package_type {
                Some(t) => t@,
                None => "library"@,
            }),
        ] + (if yes || !interactive {
            seq!["--no-interaction"@]
        } else {
            Seq::empty()
        }),
{
    let mut r = text::no_texts();
    push_text(&mut r, "init");
    let mut name = text::owned("--name=");
    name.append(relative);
    push_text(&mut r, name.as_str());
    let mut kind = text::owned("--type=");
    match package_type {
        Some(t) => {
            kind.append(t);
        },
        None => {
            kind.append("library");
        },
    }
    push_text(&mut r, kind.as_str());
    if yes || !interactive {
        push_text(&mut r, "--no-interaction");
    }
    assert(text::texts(r@) =~= seq![
        "init"@,
        "--name="@ + relative@,
        "--type="@ + (match package_type {
            Some(t) => t@,
            None => "library"@,
        }),
    ] + (if yes || !interactive {
        seq!["--no-interaction"@]
    } else {
        Seq::empty()
    }));
    r
}

/// The steps that link a module once it was scaffolded. Unlike an installed one it has to be
/// required by the application.
pub open spec fn create_steps(
    relative: Seq<char>,
    package: Seq<char>,
    composer_args: Seq<Seq<char>>,
    skip_composer: bool,
) -> Seq<LinkActionView> {
    seq![LinkActionView::IgnoreModules] + (if skip_composer {
        Seq::empty()
    } else {
        seq![
            LinkActionView::Composer(config_args(relative, package, CREATE_PIN@)),
            LinkActionView::Composer(
                seq!["require"@, package + ":"@ + CREATE_PIN@] + composer_args,
            ),
            LinkActionView::VerifyLink,
        ]
    })
}

/// The steps that link a module once it was scaffolded.
pub fn create(
    relative: &str,
    package: &str,
    composer_args: &Vec<String>,
    skip_composer: bool,
) -> (r: Vec<LinkAction>)
    ensures
        steps_view(r@) == create_steps(
            relative@,
            package@,
            text::texts(composer_args@),
            skip_composer,
        ),
{
    let mut r: Vec<LinkAction> = Vec::new();
    assert(steps_view(r@) =~= Seq::empty());
    push_step(&mut r, LinkAction::IgnoreModules);
    if !skip_composer {
        push_step(&mut r, LinkAction::Composer(config_args_of(relative, package, CREATE_PIN)));
        let mut pinned = text::owned(package);
        pinned.append(":");
        pinned.append(CREATE_PIN);
        let mut require = text::no_texts();
        push_text(&mut require, "require");
        push_text(&mut require, pinned.as_str());
        push_all(&mut require, composer_args);
        assert(text::texts(require@) =~= seq!["require"@, package@ + ":"@ + CREATE_PIN@]
            + text::texts(composer_args@));
        push_step(&mut r, LinkAction::Composer(require));
        push_step(&mut r, LinkAction::VerifyLink);
    }
    assert(steps_view(r@) =~= create_steps(
        relative@,
        package@,
        text::texts(composer_args@),
        skip_composer,
    ));
    r
}

/// The steps that undo what creating a module changed in the application. The module itself is
/// new work, and is never deleted.
pub fn rollback_create(gitignore_added: bool) -> (r: Vec<LinkUndo>)
    ensures
        undo_view(r@) == seq![UndoView::RestoreComposer] + (if gitignore_added {
            seq![UndoView::RevertGitignore]
        } else {
            Seq::empty()
        }) + seq![UndoView::KeepModule],
        !undo_view(r@).contains(UndoView::MoveBack),
{
    let mut r: Vec<LinkUndo> = Vec::new();
    assert(undo_view(r@) =~= Seq::empty());
    push_undo(&mut r, LinkUndo::RestoreComposer);
    if gitignore_added {
        push_undo(&mut r, LinkUndo::RevertGitignore);
    }
    push_undo(&mut r, LinkUndo::KeepModule);
    assert(undo_view(r@) =~= seq![UndoView::RestoreComposer] + (if gitignore_added {
        seq![UndoView::RevertGitignore]
    } else {
        Seq::empty()
    }) + seq![UndoView::KeepModule]);
    r
}

// ---------------------------------------------------------------- unlink

/// Whether a checkout has a remote. Where that is not known it counts as having one: only a
/// module that was certainly created here is held back.
pub fn checkout_has_remote(remotes: Option<bool>) -> (r: bool)
    ensures
        r == (remotes != Some(false)),
{
    match remotes {
        Some(b) => b,
        None => true,
    }
}

/// The refusal of an entry that Composer cannot remove.
pub open spec fn unnamed_entry(package: Seq<char>, url: Seq<char>) -> Seq<char> {
    "The path repository for "@ + package
        + " in htdocs/composer.json has no \"name\" property, so `composer config --unset` cannot remove it. Delete the entry pointing at "@
        + url + " by hand, then run `composer update "@ + package + "`."@
}

/// The refusal of a module that exists nowhere else.
pub open spec fn only_copy(package: Seq<char>, relative: Seq<char>) -> Seq<char> {
    package + " has no git remote, so it exists only in htdocs/modules/"@ + relative
        + ". Removing the path              repository would leave the application requiring a package nothing can supply.\nPush the module to a repository the application can reach and run `unlink` again,              or — if it was a mistake — drop it from the application first with              `docker-control console -- composer remove "@
        + package + "`."@
}

/// Refuses, before anything is touched, to unlink a module whose entry Composer cannot remove, or
/// that exists nowhere but in its checkout.
pub fn begin_unlink(target: &LinkedModule, checkout_exists: bool, has_remote: bool) -> (r: Result<
    (),
    String,
>)
    ensures
        match r {
            Ok(_) => target@.key is Some && !(checkout_exists && !has_remote),
            Err(e) => if target@.key is None {
                e@ == unnamed_entry(target@.package, target@.url)
            } else {
                checkout_exists && !has_remote && e@ == only_copy(
                    target@.package,
                    target@.relative(),
                )
            },
        },
{
    if target.key.is_none() {
        let mut e = text::owned("The path repository for ");
        e.append(target.package.as_str());
        e.append(
            " in htdocs/composer.json has no \"name\" property, so `composer config --unset` cannot remove it. Delete the entry pointing at ",
        );
        e.append(target.url.as_str());
        e.append(" by hand, then run `composer update ");
        e.append(target.package.as_str());
        e.append("`.");
        return Err(e);
    }
    if checkout_exists && !has_remote {
        let mut e = target.package.clone();
        e.append(" has no git remote, so it exists only in htdocs/modules/");
        e.append(target.relative_path().as_str());
        e.append(
            ". Removing the path              repository would leave the application requiring a package nothing can supply.\nPush the module to a repository the application can reach and run `unlink` again,              or — if it was a mistake — drop it from the application first with              `docker-control console -- composer remove ",
        );
        e.append(target.package.as_str());
        e.append("`.");
        return Err(e);
    }
    Ok(())
}

/// The two Composer calls of unlinking a module, in order: the entry is removed, and the package
/// is installed from its source again. Nothing can be done for an entry without a key.
pub fn unlink_inner(target: &LinkedModule) -> (r: Result<(Vec<String>, Vec<String>), String>)
    ensures
        match r {
            Ok((unset, update)) => target@.key matches Some(k) && text::texts(unset@) == seq![
                "config"@,
                "--unset"@,
                "repositories."@ + k,
            ] && text::texts(update@) == seq!["update"@, target@.package, "--prefer-source"@],
            Err(e) => target@.key is None && e@ == "no addressable repositories key for "@
                + target@.package,
        },
{
    match &target.key {
        Some(k) => {
            let mut key = text::owned("repositories.");
            key.append(k.as_str());
            let mut unset = text::no_texts();
            push_text(&mut unset, "config");
            push_text(&mut unset, "--unset");
            push_text(&mut unset, key.as_str());
            assert(text::texts(unset@) =~= seq!["config"@, "--unset"@, "repositories."@ + k@]);
            let mut update = text::no_texts();
            push_text(&mut update, "update");
            push_text(&mut update, target.package.as_str());
            push_text(&mut update, "--prefer-source");
            assert(text::texts(update@) =~= seq![
                "update"@,
                target@.package,
                "--prefer-source"@,
            ]);
            Ok((unset, update))
        },
        None => {
            let mut e = text::owned("no addressable repositories key for ");
            e.append(target.package.as_str());
            Err(e)
        },
    }
}

/// One step of unlinking a module. A run stops at the first one that fails, and is then undone.
#[derive(Debug, Clone, PartialEq, Eq)]
pub enum UnlinkAction {
    /// Remove the link from `vendor/` to the checkout: Composer would follow it into the
    /// checkout, and refuse to remove one with local changes.
    RemoveSymlink,
    /// Run Composer with these arguments.
    Composer(Vec<String>),
    /// Make sure that `vendor/` no longer links to the checkout: Composer may succeed without
    /// having removed the entry.
    VerifyUnlinked,
}

/// A step of unlinking, with its strings as sequences of characters.
pub ghost enum UnlinkView {
    RemoveSymlink,
    Composer(Seq<Seq<char>>),
    VerifyUnlinked,
}

impl View for UnlinkAction {
    type V = UnlinkView;

    open spec fn view(&self) -> UnlinkView {
        match *self {
            UnlinkAction::RemoveSymlink => UnlinkView::RemoveSymlink,
            UnlinkAction::Composer(v) => UnlinkView::Composer(text::texts(v@)),
            UnlinkAction::VerifyUnlinked => UnlinkView::VerifyUnlinked,
        }
    }
}

/// The views of a list of steps of unlinking.
pub open spec fn unlinking_view(v: Seq<UnlinkAction>) -> Seq<UnlinkView> {
    v.map_values(|a: UnlinkAction| a@)
}

/// The steps of unlinking a package with the entry of a key.
pub open spec fn unlink_steps(
    key: Seq<char>,
    package: Seq<char>,
    vendor_is_symlink: bool,
    skip_composer: bool,
) -> Seq<UnlinkView> {
    (if vendor_is_symlink {
        seq![UnlinkView::RemoveSymlink]
    } else {
        Seq::empty()
    }) + (if skip_composer {
        Seq::empty()
    } else {
        seq![
            UnlinkView::Composer(seq!["config"@, "--unset"@, "repositories."@ + key]),
            UnlinkView::Composer(seq!["update"@, package, "--prefer-source"@]),
            UnlinkView::VerifyUnlinked,
        ]
    })
}

/// The steps of unlinking a module: the link is removed, the entry is taken from Composer, the
/// package is installed from its source again, and the result is verified.
pub fn unlink(target: &LinkedModule, vendor_is_symlink: bool, skip_composer: bool) -> (r: Result<
    Vec<UnlinkAction>,
    String,
>)
    ensures
        match r {
            Ok(v) => target@.key matches Some(k) && unlinking_view(v@) == unlink_steps(
                k,
                target@.package,
                vendor_is_symlink,
                skip_composer,
            ),
            Err(e) => target@.key is None && e@ == "no addressable repositories key for "@
                + target@.package,
        },
{
    match unlink_inner(target) {
        Err(e) => Err(e),
        Ok((unset, update)) => {
            let mut r: Vec<UnlinkAction> = Vec::new();
            if vendor_is_symlink {
                r.push(UnlinkAction::RemoveSymlink);
            }
            if !skip_composer {
                r.push(UnlinkAction::Composer(unset));
                r.push(UnlinkAction::Composer(update));
                r.push(UnlinkAction::VerifyUnlinked);
            }
            assert(unlinking_view(r@) =~= unlink_steps(
                target@.key->0,
                target@.package,
                vendor_is_symlink,
                skip_composer,
            ));
            Ok(r)
        },
    }
}

/// One step of undoing an unlinking. Each is tried, whatever became of the others.
#[derive(Debug, Clone, Copy, PartialEq, Eq, Structural)]
pub enum UnlinkUndo {
    /// Put `composer.json` and `composer.lock` back as they were.
    RestoreComposer,
    /// Make the link from `vendor/` to the checkout again.
    Relink,
}

/// How a failed unlinking is undone. Where the link itself could not be removed nothing has
/// changed yet; after that Composer's files are restored, and the link is made again where
/// nothing stands in its place.
pub fn rollback_unlink(failed: &UnlinkAction, vendor_exists: bool) -> (r: Vec<UnlinkUndo>)
    ensures
        r@ == if failed@ is RemoveSymlink {
            Seq::empty()
        } else if vendor_exists {
            seq![UnlinkUndo::RestoreComposer]
        } else {
            seq![UnlinkUndo::RestoreComposer, UnlinkUndo::Relink]
        },
{
    let mut r: Vec<UnlinkUndo> = Vec::new();
    if let UnlinkAction::RemoveSymlink = failed {
        assert(r@ =~= Seq::empty());
        return r;
    }
    r.push(UnlinkUndo::RestoreComposer);
    assert(r@ =~= seq![UnlinkUndo::RestoreComposer]);
    if !vendor_exists {
        r.push(UnlinkUndo::Relink);
        assert(r@ =~= seq![UnlinkUndo::RestoreComposer, UnlinkUndo::Relink]);
    }
    r
}

/// Composer never sees the link while a module is unlinked, and what it did is verified last.
pub proof fn the_link_goes_before_composer_runs(
    key: Seq<char>,
    package: Seq<char>,
    vendor_is_symlink: bool,
    skip_composer: bool,
)
    ensures
        ({
            let steps = unlink_steps(key, package, vendor_is_symlink, skip_composer);
            &&& vendor_is_symlink <==> steps.contains(UnlinkView::RemoveSymlink)
            &&& forall|i: int, j: int|
                0 <= i < steps.len() && 0 <= j < steps.len() && #[trigger] steps[i] is RemoveSymlink
                    && #[trigger] steps[j] is Composer ==> i < j
            &&& forall|j: int|
                0 <= j < steps.len() && #[trigger] steps[j] is Composer
                    ==> steps.last() is VerifyUnlinked
        }),
{
    let steps = unlink_steps(key, package, vendor_is_symlink, skip_composer);
    if vendor_is_symlink {
        assert(steps[0] is RemoveSymlink);
    }
}

/// What becomes of a checkout that is to be deleted.
#[derive(Debug, Clone, Copy, PartialEq, Eq, Structural)]
pub enum Purge {
    /// There is none.
    Nothing,
    /// It can be deleted.
    Remove,
    /// It holds work that exists nowhere else, so the user is asked first.
    Ask,
}

/// What a checkout holds that its remotes lack.
#[derive(Debug, Clone, Copy, PartialEq, Eq, Structural)]
pub struct Unsaved {
    pub dirty: bool,
    pub unpushed: usize,
}

/// Decides what becomes of a checkout. `unsaved` is `None` where it is no repository.
pub fn purge_checkout(checkout_exists: bool, unsaved: Option<Unsaved>, yes: bool) -> (r: Purge)
    ensures
        r == if !checkout_exists {
            Purge::Nothing
        } else if !yes && (unsaved matches Some(u) && (u.dirty || u.unpushed > 0)) {
            Purge::Ask
        } else {
            Purge::Remove
        },
{
    if !checkout_exists {
        return Purge::Nothing;
    }
    match unsaved {
        Some(u) => if !yes && (u.dirty || u.unpushed > 0) {
            Purge::Ask
        } else {
            Purge::Remove
        },
        None => Purge::Remove,
    }
}

/// What is said of the work in a checkout before it is deleted.
pub open spec fn unsaved_warnings(package: Seq<char>, u: Unsaved) -> Seq<(Level, Seq<char>)> {
    (if u.dirty {
        seq![(Level::Warning, package + " has uncommitted changes."@)]
    } else {
        Seq::empty()
    }) + (if u.unpushed > 0 {
        seq![
            (
                Level::Warning,
                package + " has "@ + number::decimal(u.unpushed as nat)
                    + " commit(s) that exist on no remote."@,
            ),
        ]
    } else {
        Seq::empty()
    })
}

/// What is said of the work in a checkout before it is deleted.
pub fn warn_unsaved(package: &str, u: Unsaved) -> (r: Vec<Message>)
    ensures
        ui::said(r@) == unsaved_warnings(package@, u),
{
    let mut out: Vec<Message> = Vec::new();
    assert(ui::said(out@) =~= Seq::empty());
    if u.dirty {
        let mut line = text::owned(package);
        line.append(" has uncommitted changes.");
        ui::say(&mut out, Level::Warning, line);
    }
    if u.unpushed > 0 {
        let mut line = text::owned(package);
        line.append(" has ");
        line.append(number::to_decimal(u.unpushed as u64).as_str());
        line.append(" commit(s) that exist on no remote.");
        ui::say(&mut out, Level::Warning, line);
    }
    assert(ui::said(out@) =~= unsaved_warnings(package@, u));
    out
}

/// Whether the ignore rule can go: nothing is linked and no checkout is left. `linked` is the
/// number of linked modules, where that could be read.
pub fn tidy_modules_gitignore(linked: Option<usize>, has_checkouts: bool) -> (r: bool)
    ensures
        r == (linked == Some(0usize) && !has_checkouts),
{
    match linked {
        Some(n) => n == 0 && !has_checkouts,
        None => false,
    }
}

/// Where the link from `vendor/` to a checkout leads.
pub fn symlink_dev_checkout(relative: &str) -> (r: String)
    ensures
        r@ == "../../modules/"@ + relative@,
{
    let mut r = text::owned("../../modules/");
    r.append(relative);
    r
}

// ---------------------------------------------------------------- list

/// The branch of a checkout as it is shown.
pub fn current_branch(branch: Option<&str>) -> (r: String)
    ensures
        r@ == (match branch {
            Some(b) => if b@ == "HEAD"@ {
                "detached"@
            } else {
                b@
            },
            None => "-"@,
        }),
{
    match branch {
        Some(b) => if same(b, "HEAD") {
            text::owned("detached")
        } else {
            text::owned(b)
        },
        None => text::owned("-"),
    }
}

/// The paths of linked modules.
pub open spec fn relatives(linked: Seq<LinkView>) -> Seq<Seq<char>> {
    linked.map_values(|l: LinkView| l.relative())
}

/// The modules that are listed: those that are installed and those that are linked, once each,
/// in ascending order.
pub fn listed_modules(available: &Vec<String>, linked: &Vec<LinkedModule>) -> (r: Vec<String>)
    ensures
        order::ascending(text::texts(r@)),
        forall|s: Seq<char>| #[trigger]
            text::texts(r@).contains(s) <==> text::texts(available@).contains(s) || linked_at(
                links_view(linked@),
                s,
            ),
{
    let mut all = text::copy_texts(available);
    let ghost names = text::texts(available@);
    let ghost links = links_view(linked@);
    let ghost ways = relatives(links);
    let mut i: usize = 0;
    assert(text::texts(all@) =~= names + ways.take(0));
    while i < linked.len()
        invariant
            i <= linked@.len(),
            names == text::texts(available@),
            links == links_view(linked@),
            ways == relatives(links),
            text::texts(all@) == names + ways.take(i as int),
        decreases linked@.len() - i,
    {
        push_text(&mut all, linked[i].relative_path().as_str());
        assert(ways.take(i + 1) =~= ways.take(i as int).push(ways[i as int]));
        i += 1;
    }
    assert(ways.take(i as int) =~= ways);
    let ghost v = text::texts(all@);
    let sorted = order::sort(&all);
    let r = order::dedup(&sorted);
    proof {
        order::in_order_sorts(v);
        order::dedup_of_sorted(text::texts(sorted@));
        assert forall|s: Seq<char>| #[trigger] text::texts(r@).contains(s) <==> names.contains(s)
            || linked_at(links, s) by {
            assert(text::texts(r@).contains(s) <==> text::texts(sorted@).contains(s));
            assert(text::texts(sorted@).contains(s) <==> v.contains(s));
            if v.contains(s) {
                let k = choose|k: int| 0 <= k < v.len() && v[k] == s;
                if k < names.len() {
                    assert(names[k] == s);
                } else {
                    assert(links[k - names.len()].relative() == s);
                }
            }
            if names.contains(s) {
                let k = choose|k: int| 0 <= k < names.len() && names[k] == s;
                assert(v[k] == s);
            }
            if linked_at(links, s) {
                let k = choose|k: int|
                    0 <= k < links.len() && (#[trigger] links[k]).relative() == s;
                assert(v[names.len() + k] == s);
            }
        }
    }
    r
}

/// `s` filled up with spaces at its end.
pub open spec fn padded(s: Seq<char>, width: nat) -> Seq<char> {
    if s.len() >= width {
        s
    } else {
        s + Seq::new((width - s.len()) as nat, |i: int| ' ')
    }
}

fn pad(s: &str, width: usize) -> (r: String)
    ensures
        r@ == padded(s@, width as nat),
{
    let mut r = text::owned(s);
    let mut n: usize = text::chars_of(s).len();
    while n < width
        invariant
            s@.len() <= n,
            n <= width || n == s@.len(),
            r@ == s@ + Seq::new((n - s@.len()) as nat, |i: int| ' '),
        decreases width - n,
    {
        let ghost before = r@;
        r.push(' ');
        n += 1;
        assert(r@ =~= s@ + Seq::new((n - s@.len()) as nat, |i: int| ' '));
    }
    assert(r@ =~= padded(s@, width as nat));
    r
}

/// The line for one module in the list.
pub fn list_row(name: &str, linked: bool, version: Option<&str>, branch: &str) -> (r: String)
    ensures
        r@ == "  "@ + (if linked {
            "✓"@
        } else {
            "○"@
        }) + " "@ + padded(name@, 34) + " "@ + padded(
            if linked {
                "linked"@
            } else {
                "vendor"@
            },
            8,
        ) + " "@ + padded(
            match version {
                Some(v) => v@,
                None => "-"@,
            },
            14,
        ) + " "@ + branch@,
{
    let mut r = text::owned("  ");
    r.append(if linked {
        "✓"
    } else {
        "○"
    });
    r.append(" ");
    r.append(pad(name, 34).as_str());
    r.append(" ");
    r.append(pad(if linked {
        "linked"
    } else {
        "vendor"
    }, 8).as_str());
    r.append(" ");
    r.append(pad(match version {
        Some(v) => v,
        None => "-",
    }, 14).as_str());
    r.append(" ");
    r.append(branch);
    r
}

} // verus!
