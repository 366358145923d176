//! What is told of linking, creating and unlinking a module.
use vstd::prelude::*;

use super::composer;
use super::composer::{repo_key, AutoloadFault, LinkedModule, NameFault};
use super::flow::{CreateStart, LinkStart};
use crate::paths;
use crate::text;
use crate::ui;
use crate::ui::{Level, Message};

verus! {

/// A module that is linked already, as it is told.
pub open spec fn already_linked(package: Seq<char>, version: Option<Seq<char>>) -> Seq<char> {
    package + " is already linked for development (pinned "@ + (match version {
        Some(v) => v,
        None => "unpinned"@,
    }) + ")."@
}

/// What follows from how linking a module begins: nothing more to do, with what is told, or a
/// refusal, or (`None`) that the module is linked.
pub fn link_outcome(start: &LinkStart, vendor_path: &str, dev_path: &str) -> (r: Result<
    Option<String>,
    String,
>)
    ensures
        match *start {
            LinkStart::AlreadyLinked(l) => r matches Ok(Some(m)) && m@ == already_linked(
                l@.package,
                l@.version,
            ),
            LinkStart::BothExist => r matches Err(e) && e@ == "Both "@ + text::shown(
                vendor_path@,
            ) + " and "@ + text::shown(dev_path@)
                + " exist as real directories. Remove whichever copy is stale before linking."@,
            LinkStart::NotARepository => r matches Err(e) && e@ == text::shown(vendor_path@)
                + " is not a git repository — only source-installed modules can be linked"@,
            LinkStart::Proceed { reuse } => r matches Ok(None),
        },
{
    match start {
        LinkStart::AlreadyLinked(l) => {
            let mut m = text::owned(l.package.as_str());
            m.append(" is already linked for development (pinned ");
            match &l.version {
                Some(v) => {
                    m.append(v.as_str());
                },
                None => {
                    m.append("unpinned");
                },
            }
            m.append(").");
            Ok(Some(m))
        },
        LinkStart::BothExist => {
            let mut e = text::owned("Both ");
            e.append(text::quoted(vendor_path).as_str());
            e.append(" and ");
            e.append(text::quoted(dev_path).as_str());
            e.append(
                " exist as real directories. Remove whichever copy is stale before linking.",
            );
            Err(e)
        },
        LinkStart::NotARepository => {
            let mut e = text::quoted(vendor_path);
            e.append(" is not a git repository — only source-installed modules can be linked");
            Err(e)
        },
        LinkStart::Proceed { reuse } => Ok(None),
    }
}

/// The refusal of a name that Composer would refuse.
pub fn invalid_name(fault: &NameFault, package: &str) -> (r: String)
    ensures
        r@ == text::shown(package@) + " is not a valid Composer package name ("@
            + composer::reason_of(*fault)
            + "). Expected <vendor>/<name>, lowercase, e.g. acme/widget"@,
{
    let mut e = text::quoted(package);
    e.append(" is not a valid Composer package name (");
    e.append(fault.reason().as_str());
    e.append("). Expected <vendor>/<name>, lowercase, e.g. acme/widget");
    e
}

/// What follows from how creating a module begins: its path, or a refusal.
pub fn create_outcome(start: &CreateStart, relative: &str, vendor_path: &str, dev_path: &str) -> (r:
    Result<String, String>)
    ensures
        match *start {
            CreateStart::Invalid(f) => r matches Err(e) && e@ == text::shown(relative@)
                + " is not a valid Composer package name ("@ + composer::reason_of(f)
                + "). Expected <vendor>/<name>, lowercase, e.g. acme/widget"@,
            CreateStart::AlreadyLinked(p) => r matches Err(e) && e@ == p@
                + " is already linked for development."@,
            CreateStart::CheckoutExists => r matches Err(e) && e@ == text::shown(dev_path@)
                + " already exists — link the existing checkout with `docker-control module link "@
                + relative@ + "`"@,
            CreateStart::Installed => r matches Err(e) && e@ == text::shown(vendor_path@)
                + " already exists, so "@ + relative@
                + " is an installed package rather than a new one — use `docker-control module link "@
                + relative@ + "`"@,
            CreateStart::Proceed(p) => r matches Ok(q) && q@ == p@,
        },
{
    match start {
        CreateStart::Invalid(f) => Err(invalid_name(f, relative)),
        CreateStart::AlreadyLinked(p) => {
            let mut e = text::owned(p.as_str());
            e.append(" is already linked for development.");
            Err(e)
        },
        CreateStart::CheckoutExists => {
            let mut e = text::quoted(dev_path);
            e.append(
                " already exists — link the existing checkout with `docker-control module link ",
            );
            e.append(relative);
            e.append("`");
            Err(e)
        },
        CreateStart::Installed => {
            let mut e = text::quoted(vendor_path);
            e.append(" already exists, so ");
            e.append(relative);
            e.append(
                " is an installed package rather than a new one — use `docker-control module link ",
            );
            e.append(relative);
            e.append("`");
            Err(e)
        },
        CreateStart::Proceed(p) => Ok(text::owned(p.as_str())),
    }
}

/// The failure of a Composer run that succeeded without linking the module.
pub fn not_linked(vendor_path: &str, dev_path: &str, relative: &str) -> (r: String)
    ensures
        r@ == "Composer reported success but "@ + text::shown(vendor_path@)
            + " is not a symlink to "@ + text::shown(dev_path@)
            + ".\nAnother repository in htdocs/composer.json is taking priority over the path repository. Check that the `"@
            + composer::key_of(relative@) + "` entry is first in `repositories`."@,
{
    let mut e = text::owned("Composer reported success but ");
    e.append(text::quoted(vendor_path).as_str());
    e.append(" is not a symlink to ");
    e.append(text::quoted(dev_path).as_str());
    e.append(
        ".\nAnother repository in htdocs/composer.json is taking priority over the path repository. Check that the `",
    );
    e.append(repo_key(relative).as_str());
    e.append("` entry is first in `repositories`.");
    e
}

/// The failure of a Composer run that succeeded without taking the link away.
pub fn still_linked(vendor_path: &str, target: &LinkedModule) -> (r: String)
    ensures
        r@ == "Composer reported success but "@ + text::shown(vendor_path@)
            + " is still a symlink to the development checkout.\nThe path repository was not removed from htdocs/composer.json — remove the entry pointing at "@
            + target@.url + " by hand, then run `composer update "@ + target@.package + "`."@,
{
    let mut e = text::owned("Composer reported success but ");
    e.append(text::quoted(vendor_path).as_str());
    e.append(
        " is still a symlink to the development checkout.\nThe path repository was not removed from htdocs/composer.json — remove the entry pointing at ",
    );
    e.append(target.url.as_str());
    e.append(" by hand, then run `composer update ");
    e.append(target.package.as_str());
    e.append("`.");
    e
}

/// What is told once a module was created.
pub fn create_report(package: &str, relative: &str) -> (r: Vec<Message>)
    ensures
        ui::said(r@) == seq![
            (Level::Success, package@ + " is created and linked for development."@),
            (Level::Info, "  edit here: htdocs/modules/"@ + relative@),
            (
                Level::Warning,
                "Do not commit the path repository in composer.json — `deploy` and `release` build from the committed tree, where modules/ does not exist."@,
            ),
            (
                Level::Warning,
                "The `require` on "@ + package@
                    + " *does* belong in a commit, but only once the module is pushed somewhere the application's other repositories can reach. Until then the application only installs on this machine."@,
            ),
        ],
{
    let mut out: Vec<Message> = Vec::new();
    assert(ui::said(out@) =~= Seq::empty());
    let mut done = text::owned(package);
    done.append(" is created and linked for development.");
    ui::say(&mut out, Level::Success, done);
    let mut place = text::owned("  edit here: htdocs/modules/");
    place.append(relative);
    ui::say(&mut out, Level::Info, place);
    ui::say(
        &mut out,
        Level::Warning,
        text::owned(
            "Do not commit the path repository in composer.json — `deploy` and `release` build from the committed tree, where modules/ does not exist.",
        ),
    );
    let mut require = text::owned("The `require` on ");
    require.append(package);
    require.append(
        " *does* belong in a commit, but only once the module is pushed somewhere the application's other repositories can reach. Until then the application only installs on this machine.",
    );
    ui::say(&mut out, Level::Warning, require);
    assert(ui::said(out@) =~= seq![
        (Level::Success, package@ + " is created and linked for development."@),
        (Level::Info, "  edit here: htdocs/modules/"@ + relative@),
        (
            Level::Warning,
            "Do not commit the path repository in composer.json — `deploy` and `release` build from the committed tree, where modules/ does not exist."@,
        ),
        (
            Level::Warning,
            "The `require` on "@ + package@
                + " *does* belong in a commit, but only once the module is pushed somewhere the application's other repositories can reach. Until then the application only installs on this machine."@,
        ),
    ]);
    out
}

/// What became of the first commit of a new module.
#[derive(Debug, Clone, PartialEq, Eq)]
pub enum FirstCommit {
    /// It was made as the user.
    Own,
    /// It was made as the tool, for want of an identity of the user.
    Substitute,
    Failed(String),
}

/// What is told of the first commit of a new module; a failure leaves a usable checkout.
pub fn commit_scaffold(c: &FirstCommit) -> (r: Message)
    ensures
        (r.level, r.text@) == (match *c {
            FirstCommit::Own => (Level::Info, "  initial commit on "@ + composer::CREATE_BRANCH@),
            FirstCommit::Substitute => (
                Level::Warning,
                "  initial commit on "@ + composer::CREATE_BRANCH@
                    + " was authored as docker-control — set user.name and user.email in your git config, then `git commit --amend --reset-author`"@,
            ),
            FirstCommit::Failed(e) => (
                Level::Warning,
                "  could not create the initial commit ("@ + e@
                    + ") — the checkout is a git repository on "@ + composer::CREATE_BRANCH@
                    + ", commit it by hand"@,
            ),
        }),
{
    match c {
        FirstCommit::Own => {
            let mut m = text::owned("  initial commit on ");
            m.append(composer::CREATE_BRANCH);
            Message { level: Level::Info, text: m }
        },
        FirstCommit::Substitute => {
            let mut m = text::owned("  initial commit on ");
            m.append(composer::CREATE_BRANCH);
            m.append(
                " was authored as docker-control — set user.name and user.email in your git config, then `git commit --amend --reset-author`",
            );
            Message { level: Level::Warning, text: m }
        },
        FirstCommit::Failed(e) => {
            let mut m = text::owned("  could not create the initial commit (");
            m.append(e.as_str());
            m.append(") — the checkout is a git repository on ");
            m.append(composer::CREATE_BRANCH);
            m.append(", commit it by hand");
            Message { level: Level::Warning, text: m }
        },
    }
}

/// What is told of the branch that a checkout was to be put on.
pub fn branch_report(branch: &str, success: bool) -> (r: Message)
    ensures
        (r.level, r.text@) == (if success {
            (Level::Info, "  checked out branch "@ + branch@)
        } else {
            (
                Level::Warning,
                "  could not check out branch "@ + branch@
                    + " — the checkout is on a detached HEAD, switch branches before committing"@,
            )
        }),
{
    if success {
        let mut m = text::owned("  checked out branch ");
        m.append(branch);
        Message { level: Level::Info, text: m }
    } else {
        let mut m = text::owned("  could not check out branch ");
        m.append(branch);
        m.append(" — the checkout is on a detached HEAD, switch branches before committing");
        Message { level: Level::Warning, text: m }
    }
}

/// The failure of a mapping that could not be added to a module's `composer.json`; `None` where the
/// file is no JSON, which is told with what is wrong with it.
pub fn autoload_fault(fault: &AutoloadFault, path: &str) -> (r: Option<String>)
    ensures
        paths::opt(r) == (match *fault {
            AutoloadFault::NotJson => None,
            AutoloadFault::NotAnObject => Some(
                text::shown(path@) + " is not a JSON object"@,
            ),
            AutoloadFault::AutoloadNotAnObject => Some(
                "\"autoload\" in "@ + text::shown(path@) + " is not a JSON object"@,
            ),
        }),
{
    match fault {
        AutoloadFault::NotJson => None,
        AutoloadFault::NotAnObject => {
            let mut e = text::quoted(path);
            e.append(" is not a JSON object");
            Some(e)
        },
        AutoloadFault::AutoloadNotAnObject => {
            let mut e = text::owned("\"autoload\" in ");
            e.append(text::quoted(path).as_str());
            e.append(" is not a JSON object");
            Some(e)
        },
    }
}

/// Refuses to unlink where nothing is linked.
pub fn require_linked(linked: &Vec<LinkedModule>) -> (r: Result<(), String>)
    ensures
        linked@.len() > 0 ==> r is Ok,
        linked@.len() == 0 ==> (r matches Err(e) && e@
            == "No modules are currently linked for development."@),
{
    if linked.len() == 0 {
        Err(text::owned("No modules are currently linked for development."))
    } else {
        Ok(())
    }
}

/// What is told once a module was unlinked, where its checkout may have stayed.
pub open spec fn unlinked(
    package: Seq<char>,
    relative: Seq<char>,
    checkout_exists: bool,
) -> Seq<(Level, Seq<char>)> {
    seq![(Level::Success, package + " is back to a normal vendor install."@)] + (
    if checkout_exists {
        seq![
            (
                Level::Info,
                "  development checkout kept at htdocs/modules/"@ + relative
                    + " (remove it with --purge)"@,
            ),
        ]
    } else {
        Seq::empty()
    }) + seq![
        (Level::Info, "  restart the php container if the application serves stale paths"@),
    ]
}

/// What is told once a module was unlinked.
pub fn unlink_report(package: &str, relative: &str, checkout_exists: bool) -> (r: Vec<Message>)
    ensures
        ui::said(r@) == unlinked(package@, relative@, checkout_exists),
{
    let mut out: Vec<Message> = Vec::new();
    assert(ui::said(out@) =~= Seq::empty());
    let mut done = text::owned(package);
    done.append(" is back to a normal vendor install.");
    ui::say(&mut out, Level::Success, done);
    if checkout_exists {
        let mut kept = text::owned("  development checkout kept at htdocs/modules/");
        kept.append(relative);
        kept.append(" (remove it with --purge)");
        ui::say(&mut out, Level::Info, kept);
    }
    ui::say(
        &mut out,
        Level::Info,
        text::owned("  restart the php container if the application serves stale paths"),
    );
    assert(ui::said(out@) =~= unlinked(package@, relative@, checkout_exists));
    out
}

} // verus!
