//! Moving a vendor module out of `vendor/` so that it can be developed in place.
//!
//! Anything edited below `vendor/` is discarded by the next install. A module that is linked
//! lies below `modules/` instead, and a `path` repository links it back into `vendor/`.
use vstd::prelude::*;

use crate::docker;
use crate::lines;
use crate::text;
use crate::text::{is_listed, push_all, push_text, same};

pub mod composer;
pub mod composer_laws;
pub mod file_laws;
pub mod flow;
pub mod gitignore;
pub mod laws;
pub mod report;

use crate::commands::module::composer::{links_view, LinkView, LinkedModule};

verus! {

/// What the command is asked to do.
#[derive(Debug, Clone)]
pub enum ModuleAction {
    /// Move a vendor module to `modules/` and link it back for development.
    Link {
        /// Module to link as `<vendor>/<name>` (prompted for when omitted).
        module: Option<String>,
        /// Version to pin in the path repository (default: the version in composer.lock).
        version: Option<String>,
        /// Extra arguments forwarded to `composer update`.
        composer_args: Vec<String>,
    },
    /// Restore a linked module to a normal Composer install under `vendor/`.
    Unlink {
        /// Module to unlink as `<vendor>/<name>` (prompted for when omitted).
        module: Option<String>,
        /// Also delete the development checkout.
        purge: bool,
        /// Skip the confirmation prompt when purging.
        yes: bool,
    },
    /// Scaffold a new module and link it for development.
    Create {
        /// New module as `<vendor>/<name>`.
        module: String,
        /// Package type forwarded to `composer init` (default: library).
        package_type: Option<String>,
        /// Skip the questions of `composer init`.
        yes: bool,
        /// Extra arguments forwarded to `composer require`.
        composer_args: Vec<String>,
    },
    /// List vendor modules and show which are linked for development.
    List,
}

/// Asks the user which module is meant, and whether a checkout may be deleted.
pub trait ModulePromptProvider {
    fn select_module_to_link(&self, modules: Vec<String>) -> Result<String, String>;

    fn select_module_to_unlink(&self, modules: Vec<String>) -> Result<String, String>;

    fn confirm_purge(&self, module: &str) -> Result<bool, String>;
}

/// The questions as a terminal puts them.
pub struct InteractiveModulePromptProvider;

impl InteractiveModulePromptProvider {
    /// The question for the module to link.
    pub fn link_question(&self) -> (r: String)
        ensures
            r@ == "Select vendor module to link for development"@,
    {
        text::owned("Select vendor module to link for development")
    }

    /// The question for the module to unlink.
    pub fn unlink_question(&self) -> (r: String)
        ensures
            r@ == "Select module to unlink"@,
    {
        text::owned("Select module to unlink")
    }

    /// The question before a checkout with work in it is deleted.
    pub fn purge_question(&self, module: &str) -> (r: String)
        ensures
            r@ == "Delete the development checkout of "@ + module@ + " anyway?"@,
    {
        let mut r = text::owned("Delete the development checkout of ");
        r.append(module);
        r.append(" anyway?");
        r
    }
}

/// How the command runs.
pub struct ModuleOptions<P: ModulePromptProvider> {
    pub prompt_provider: P,
    /// Skip every Composer call.
    pub skip_composer: bool,
}

/// The command needs an application: refuses to run without its `composer.json`.
pub fn execute(htdocs: &str, has_composer_json: bool) -> (r: Result<(), String>)
    ensures
        r is Ok <==> has_composer_json,
        r matches Err(e) ==> e@ == "No composer.json found in "@ + text::shown(htdocs@)
            + " — this command needs an application in htdocs/"@,
{
    if has_composer_json {
        return Ok(());
    }
    let mut e = text::owned("No composer.json found in ");
    e.append(text::quoted(htdocs).as_str());
    e.append(" — this command needs an application in htdocs/");
    Err(e)
}

/// Composer runs inside the containers, so they have to run.
pub fn require_running_stack(skip_composer: bool, running: bool) -> (r: Result<(), String>)
    ensures
        r is Ok <==> skip_composer || running,
        r matches Err(e) ==> e@
            == "The project containers are not running — Composer runs inside the php container. Start them with `docker-control start` first."@,
{
    if skip_composer || running {
        return Ok(());
    }
    Err(
        text::owned(
            "The project containers are not running — Composer runs inside the php container. Start them with `docker-control start` first.",
        ),
    )
}

/// A module's directory as the container sees it.
pub fn container_module_dir(relative: &str) -> (r: String)
    ensures
        r@ == "/var/www/html/modules/"@ + relative@,
{
    let mut r = text::owned("/var/www/html/modules/");
    r.append(relative);
    r
}

/// The arguments of `docker compose` that run Composer in a directory of the application's
/// container, as the web server's user.
pub open spec fn composer_call(workdir: Seq<char>, tty: bool, args: Seq<Seq<char>>) -> Seq<
    Seq<char>,
> {
    (if tty {
        seq!["exec"@]
    } else {
        seq!["exec"@, "-T"@]
    }) + seq![
        "-u"@,
        "www-data"@,
        "-w"@,
        workdir,
        "-e"@,
        "COMPOSER_HOME"@ + "="@ + "/var/www/.composer"@,
        "php"@,
        "composer"@,
    ] + args
}

/// The arguments that run Composer in the application's directory.
pub fn composer(project_dir: &str, args: &Vec<String>) -> (r: Vec<String>)
    ensures
        text::texts(r@) == docker::compose(
            project_dir@,
            composer_call("/var/www/html"@, false, text::texts(args@)),
        ),
{
    composer_init(project_dir, "/var/www/html", args, false)
}

/// The arguments that run Composer in some directory, with a terminal for its questions where
/// there is one.
pub fn composer_init(project_dir: &str, workdir: &str, args: &Vec<String>, tty: bool) -> (r: Vec<
    String,
>)
    ensures
        text::texts(r@) == docker::compose(
            project_dir@,
            composer_call(workdir@, tty, text::texts(args@)),
        ),
{
    let mut full = text::no_texts();
    push_text(&mut full, "composer");
    push_all(&mut full, args);
    let env: [(&str, &str); 1] = [("COMPOSER_HOME", "/var/www/.composer")];
    let r = docker::exec_as_user(project_dir, "php", "www-data", Some(workdir), &env, &full, tty);
    proof {
        assert(env@.drop_last() =~= Seq::empty());
        let flags = docker::flags_of("www-data"@, Some(workdir@), env@, tty);
        assert(docker::env_flags(env@.drop_last()) =~= Seq::empty());
        assert(docker::env_flags(env@) =~= seq![
            "-e"@,
            "COMPOSER_HOME"@ + "="@ + "/var/www/.composer"@,
        ]);
        assert(seq!["exec"@] + flags + seq!["php"@] + text::texts(full@) =~= composer_call(
            workdir@,
            tty,
            text::texts(args@),
        ));
    }
    r
}

// ---------------------------------------------------------------- which module is meant

/// Whether a module is linked, by its path.
pub open spec fn linked_at(linked: Seq<LinkView>, relative: Seq<char>) -> bool {
    exists|i: int| 0 <= i < linked.len() && (#[trigger] linked[i]).relative() == relative
}

/// The first linked module with this path.
pub open spec fn first_linked_at(linked: Seq<LinkView>, relative: Seq<char>) -> Option<LinkView>
    decreases linked.len(),
{
    if linked.len() == 0 {
        None
    } else if linked[0].relative() == relative {
        Some(linked[0])
    } else {
        first_linked_at(linked.drop_first(), relative)
    }
}

/// The view of an optional linked module.
pub open spec fn opt_link(l: Option<LinkedModule>) -> Option<LinkView> {
    match l {
        Some(m) => Some(m@),
        None => None,
    }
}

/// Looks for a linked module by its path.
pub fn find_linked(linked: &Vec<LinkedModule>, relative: &str) -> (r: Option<LinkedModule>)
    ensures
        opt_link(r) == first_linked_at(links_view(linked@), relative@),
        r is Some <==> linked_at(links_view(linked@), relative@),
        r matches Some(l) ==> l@.relative() == relative@,
{
    let ghost all = links_view(linked@);
    let mut i: usize = 0;
    assert(all.skip(0) =~= all);
    while i < linked.len()
        invariant
            i <= linked@.len(),
            all == links_view(linked@),
            first_linked_at(all, relative@) == first_linked_at(all.skip(i as int), relative@),
            forall|k: int| 0 <= k < i ==> (#[trigger] all[k]).relative() != relative@,
        decreases linked@.len() - i,
    {
        let ghost rest = all.skip(i as int);
        assert(rest[0] == linked@[i as int]@);
        assert(all[i as int] == linked@[i as int]@);
        if same(linked[i].relative_path().as_str(), relative) {
            return Some(linked[i].copy());
        }
        assert(rest.drop_first() =~= all.skip(i + 1));
        i += 1;
    }
    None
}

/// The modules that are not linked, in order.
pub open spec fn unlinked(available: Seq<Seq<char>>, linked: Seq<LinkView>) -> Seq<Seq<char>>
    decreases available.len(),
{
    if available.len() == 0 {
        available
    } else if linked_at(linked, available.last()) {
        unlinked(available.drop_last(), linked)
    } else {
        unlinked(available.drop_last(), linked).push(available.last())
    }
}

fn unlinked_of(available: &Vec<String>, linked: &Vec<LinkedModule>) -> (r: Vec<String>)
    ensures
        text::texts(r@) == unlinked(text::texts(available@), links_view(linked@)),
{
    let ghost all = text::texts(available@);
    let mut r = text::no_texts();
    let mut i: usize = 0;
    while i < available.len()
        invariant
            i <= available@.len(),
            all == text::texts(available@),
            text::texts(r@) == unlinked(all.take(i as int), links_view(linked@)),
        decreases available@.len() - i,
    {
        proof {
            assert(all.take(i + 1).drop_last() =~= all.take(i as int));
            assert(all.take(i + 1).last() == available@[i as int]@);
        }
        if find_linked(linked, available[i].as_str()).is_none() {
            push_text(&mut r, available[i].as_str());
        }
        i += 1;
    }
    assert(all.take(i as int) =~= all);
    r
}

/// A module that is known, or those among which the user has to pick one.
#[derive(Debug, Clone, PartialEq, Eq)]
pub enum LinkTarget {
    Chosen(String),
    Ask(Vec<String>),
}

/// The name of a module as it was typed, without the slashes around it.
pub fn module_argument(module: &str) -> (r: String)
    ensures
        r@ == text::without_ends(module@, '/'),
{
    text::trim_char(module, '/')
}

/// The refusal of a module that is not there.
pub open spec fn not_found(module: Seq<char>, available: Seq<Seq<char>>) -> Seq<char> {
    "Module "@ + module + " not found. Available: "@ + (if available.len() == 0 {
        "none"@
    } else {
        lines::joined(available, ", "@)
    })
}

/// Decides which module is linked: the one that was named, where it is installed, linked or
/// checked out already, or else one of those that are not linked.
pub fn link_target(
    available: &Vec<String>,
    linked: &Vec<LinkedModule>,
    module: Option<&str>,
    has_checkout: bool,
) -> (r: Result<LinkTarget, String>)
    ensures
        ({
            let all = text::texts(available@);
            let links = links_view(linked@);
            match module {
                Some(m) => {
                    let t = text::without_ends(m@, '/');
                    if all.contains(t) || linked_at(links, t) || has_checkout {
                        r matches Ok(LinkTarget::Chosen(s)) && s@ == t
                    } else {
                        r matches Err(e) && e@ == not_found(t, all)
                    }
                },
                None => {
                    let rest = unlinked(all, links);
                    if rest.len() == 0 {
                        r matches Err(e) && e@
                            == "No unlinked vendor modules found in htdocs/vendor. Run `docker-control module list`."@
                    } else {
                        r matches Ok(LinkTarget::Ask(v)) && text::texts(v@) == rest
                    }
                },
            }
        }),
{
    match module {
        Some(m) => {
            let t = module_argument(m);
            if is_listed(available, t.as_str()) || find_linked(linked, t.as_str()).is_some()
                || has_checkout {
                return Ok(LinkTarget::Chosen(t));
            }
            let mut e = text::owned("Module ");
            e.append(t.as_str());
            e.append(" not found. Available: ");
            if available.len() == 0 {
                e.append("none");
            } else {
                e.append(lines::join(available, ", ").as_str());
            }
            Err(e)
        },
        None => {
            let rest = unlinked_of(available, linked);
            if rest.len() == 0 {
                return Err(
                    text::owned(
                        "No unlinked vendor modules found in htdocs/vendor. Run `docker-control module list`.",
                    ),
                );
            }
            Ok(LinkTarget::Ask(rest))
        },
    }
}

/// Decides which module is linked, asking the user where it is not named. What the prompt
/// answers is passed on as it is.
pub fn resolve_link_target<P: ModulePromptProvider>(
    available: &Vec<String>,
    linked: &Vec<LinkedModule>,
    module: Option<&str>,
    has_checkout: bool,
    options: &ModuleOptions<P>,
) -> (r: Result<String, String>)
    ensures
        ({
            let all = text::texts(available@);
            let links = links_view(linked@);
            let rest = unlinked(all, links);
            match module {
                Some(m) => {
                    let t = text::without_ends(m@, '/');
                    if all.contains(t) || linked_at(links, t) || has_checkout {
                        r matches Ok(s) && s@ == t
                    } else {
                        r matches Err(e) && e@ == not_found(t, all)
                    }
                },
                None => if rest.len() == 0 {
                    r matches Err(e) && e@
                        == "No unlinked vendor modules found in htdocs/vendor. Run `docker-control module list`."@
                } else {
                    exists|list: Vec<String>|
                        text::texts(list@) == rest && #[trigger] call_ensures(
                            P::select_module_to_link,
                            (&options.prompt_provider, list),
                            r,
                        )
                },
            }
        }),
{
    match link_target(available, linked, module, has_checkout) {
        Ok(LinkTarget::Chosen(s)) => Ok(s),
        Ok(LinkTarget::Ask(list)) => options.prompt_provider.select_module_to_link(list),
        Err(e) => Err(e),
    }
}

/// A linked module that is known, or those among which the user has to pick one.
#[derive(Debug, Clone, PartialEq, Eq)]
pub enum UnlinkTarget {
    Chosen(LinkedModule),
    Ask(Vec<String>),
}

/// The first linked module with this path or this package name.
pub open spec fn first_named(linked: Seq<LinkView>, name: Seq<char>) -> Option<LinkView>
    decreases linked.len(),
{
    if linked.len() == 0 {
        None
    } else if linked[0].relative() == name || linked[0].package == name {
        Some(linked[0])
    } else {
        first_named(linked.drop_first(), name)
    }
}

/// The first linked module with this package name.
pub open spec fn first_package(linked: Seq<LinkView>, name: Seq<char>) -> Option<LinkView>
    decreases linked.len(),
{
    if linked.len() == 0 {
        None
    } else if linked[0].package == name {
        Some(linked[0])
    } else {
        first_package(linked.drop_first(), name)
    }
}

/// The package names of linked modules.
pub open spec fn packages(linked: Seq<LinkView>) -> Seq<Seq<char>> {
    linked.map_values(|l: LinkView| l.package)
}

fn packages_of(linked: &Vec<LinkedModule>) -> (r: Vec<String>)
    ensures
        text::texts(r@) == packages(links_view(linked@)),
{
    let ghost all = packages(links_view(linked@));
    let mut r = text::no_texts();
    let mut i: usize = 0;
    while i < linked.len()
        invariant
            i <= linked@.len(),
            all == packages(links_view(linked@)),
            text::texts(r@) == all.take(i as int),
        decreases linked@.len() - i,
    {
        push_text(&mut r, linked[i].package.as_str());
        assert(all.take(i + 1) =~= all.take(i as int).push(all[i as int]));
        i += 1;
    }
    assert(all.take(i as int) =~= all);
    r
}

/// Looks for a linked module by its package name, and by its path where `by_path` is set.
fn find_named(linked: &Vec<LinkedModule>, name: &str, by_path: bool) -> (r: Option<LinkedModule>)
    ensures
        opt_link(r) == if by_path {
            first_named(links_view(linked@), name@)
        } else {
            first_package(links_view(linked@), name@)
        },
{
    let ghost all = links_view(linked@);
    let mut i: usize = 0;
    assert(all.skip(0) =~= all);
    while i < linked.len()
        invariant
            i <= linked@.len(),
            all == links_view(linked@),
            by_path ==> first_named(all, name@) == first_named(all.skip(i as int), name@),
            !by_path ==> first_package(all, name@) == first_package(all.skip(i as int), name@),
        decreases linked@.len() - i,
    {
        let ghost rest = all.skip(i as int);
        assert(rest[0] == linked@[i as int]@);
        if same(linked[i].package.as_str(), name) || (by_path && same(
            linked[i].relative_path().as_str(),
            name,
        )) {
            return Some(linked[i].copy());
        }
        assert(rest.drop_first() =~= all.skip(i + 1));
        i += 1;
    }
    None
}

/// Decides which module is unlinked: the one that was named by its path or its package, the
/// only one there is, or one that the user picks.
pub fn unlink_target(linked: &Vec<LinkedModule>, module: Option<&str>) -> (r: Result<
    UnlinkTarget,
    String,
>)
    ensures
        ({
            let links = links_view(linked@);
            match module {
                Some(m) => {
                    let t = text::without_ends(m@, '/');
                    match first_named(links, t) {
                        Some(l) => r matches Ok(UnlinkTarget::Chosen(c)) && c@ == l,
                        None => r matches Err(e) && e@ == t + " is not linked. Linked modules: "@
                            + lines::joined(packages(links), ", "@),
                    }
                },
                None => if links.len() == 1 {
                    r matches Ok(UnlinkTarget::Chosen(c)) && c@ == links[0]
                } else {
                    r matches Ok(UnlinkTarget::Ask(v)) && text::texts(v@) == packages(links)
                },
            }
        }),
{
    match module {
        Some(m) => {
            let t = module_argument(m);
            match find_named(linked, t.as_str(), true) {
                Some(l) => Ok(UnlinkTarget::Chosen(l)),
                None => {
                    let mut e = t;
                    e.append(" is not linked. Linked modules: ");
                    e.append(lines::join(&packages_of(linked), ", ").as_str());
                    Err(e)
                },
            }
        },
        None => if linked.len() == 1 {
            assert(links_view(linked@)[0] == linked@[0]@);
            Ok(UnlinkTarget::Chosen(linked[0].copy()))
        } else {
            Ok(UnlinkTarget::Ask(packages_of(linked)))
        },
    }
}

/// The linked module that the user picked by its package name.
pub fn picked_module(linked: &Vec<LinkedModule>, selection: &str) -> (r: Result<
    LinkedModule,
    String,
>)
    ensures
        match first_package(links_view(linked@), selection@) {
            Some(l) => r matches Ok(m) && m@ == l,
            None => r matches Err(e) && e@ == "Unknown module "@ + selection@,
        },
{
    match find_named(linked, selection, false) {
        Some(l) => Ok(l),
        None => {
            let mut e = text::owned("Unknown module ");
            e.append(selection);
            Err(e)
        },
    }
}

/// Decides which module is unlinked, asking the user where that is needed.
pub fn resolve_unlink_target<P: ModulePromptProvider>(
    linked: &Vec<LinkedModule>,
    module: Option<&str>,
    options: &ModuleOptions<P>,
) -> (r: Result<LinkedModule, String>)
    ensures
        ({
            let links = links_view(linked@);
            match module {
                Some(m) => {
                    let t = text::without_ends(m@, '/');
                    match first_named(links, t) {
                        Some(l) => r matches Ok(c) && c@ == l,
                        None => r matches Err(e) && e@ == t + " is not linked. Linked modules: "@
                            + lines::joined(packages(links), ", "@),
                    }
                },
                None => if links.len() == 1 {
                    r matches Ok(c) && c@ == links[0]
                } else {
                    exists|list: Vec<String>, reply: Result<String, String>|
                        text::texts(list@) == packages(links) && #[trigger] call_ensures(
                            P::select_module_to_unlink,
                            (&options.prompt_provider, list),
                            reply,
                        ) && match reply {
                            Ok(s) => match first_package(links, s@) {
                                Some(l) => r matches Ok(m) && m@ == l,
                                None => r matches Err(e) && e@ == "Unknown module "@ + s@,
                            },
                            Err(e) => r matches Err(x) && x == e,
                        }
                },
            }
        }),
{
    match unlink_target(linked, module) {
        Ok(UnlinkTarget::Chosen(l)) => Ok(l),
        Ok(UnlinkTarget::Ask(list)) => {
            let ghost asked = list;
            let reply = options.prompt_provider.select_module_to_unlink(list);
            assert(call_ensures(
                P::select_module_to_unlink,
                (&options.prompt_provider, asked),
                reply,
            ));
            match reply {
                Ok(s) => picked_module(linked, s.as_str()),
                Err(e) => Err(e),
            }
        },
        Err(e) => Err(e),
    }
}

} // verus!
