//! Rolling a release out to a server.
pub mod archive;
pub mod laws;
pub mod notify;
pub mod release_laws;
pub mod rollout;

use vstd::prelude::*;

use crate::commands::deploy::rollout::Environment;
use crate::lines;
use crate::lines::lines_of;
use crate::paths;
use crate::table::Table;
use crate::text;

verus! {

// ---------------------------------------------------------------- the project

/// A value of the project's `.env` without the quotes around it.
pub open spec fn unquoted(v: Seq<char>) -> Seq<char> {
    text::without_ends(text::without_ends(text::trimmed(v), '"'), '\'')
}

/// The value of the first line that sets a key.
pub open spec fn env_value(all: Seq<Seq<char>>, key: Seq<char>) -> Option<Seq<char>>
    decreases all.len(),
{
    if all.len() == 0 {
        None
    } else {
        match text::cut(all[0], '=') {
            Some((k, v)) => if text::trimmed(k) == key {
                Some(unquoted(v))
            } else {
                env_value(all.drop_first(), key)
            },
            None => env_value(all.drop_first(), key),
        }
    }
}

/// What the project's `.env` sets for a key, where the file can be read.
pub open spec fn env_of(content: Option<Seq<char>>, key: Seq<char>) -> Option<Seq<char>> {
    match content {
        Some(c) => env_value(lines::lines(c), key),
        None => None,
    }
}

/// The value that the text of a `.env` file sets for a key.
pub fn get_env_var(content: Option<&str>, key: &str) -> (r: Option<String>)
    ensures
        paths::opt(r) == env_of(crate::docker::opt_str(content), key@),
{
    let body = match content {
        Some(c) => c,
        None => {
            return None;
        },
    };
    let all = lines_of(body);
    let ghost seqs = text::texts(all@);
    let mut i: usize = 0;
    assert(seqs.skip(0) =~= seqs);
    while i < all.len()
        invariant
            i <= all@.len(),
            seqs == text::texts(all@),
            content matches Some(c) && seqs == lines::lines(c@),
            env_value(seqs, key@) == env_value(seqs.skip(i as int), key@),
        decreases all@.len() - i,
    {
        assert(seqs.skip(i as int)[0] == all@[i as int]@);
        assert(seqs.skip(i as int).drop_first() =~= seqs.skip(i + 1));
        if let Some((k, v)) = text::split_once(all[i].as_str(), '=') {
            if text::same(text::trim(k.as_str()).as_str(), key) {
                let bare = text::trim(v.as_str());
                let open = text::trim_char(bare.as_str(), '"');
                return Some(text::trim_char(open.as_str(), '\''));
            }
        }
        i += 1;
    }
    None
}

/// What the project is called: by its `.env`, or else as its directory.
pub open spec fn project_name(content: Option<Seq<char>>, dir: Seq<char>) -> Seq<char> {
    match env_of(content, "PROJECTNAME"@) {
        Some(n) => n,
        None => match paths::last_name(dir) {
            Some(n) => n,
            None => Seq::empty(),
        },
    }
}

/// What the project is called.
pub fn get_project_name(content: Option<&str>, project_dir: &str) -> (r: String)
    ensures
        r@ == project_name(crate::docker::opt_str(content), project_dir@),
{
    match get_env_var(content, "PROJECTNAME") {
        Some(n) => n,
        None => match paths::file_name(project_dir) {
            Some(n) => n,
            None => {
                let none = text::owned("");
                proof {
                    reveal_strlit("");
                    assert(none@ =~= Seq::empty());
                }
                none
            },
        },
    }
}

/// The places of the hook script of a server: with the application, or with the deployments.
pub open spec fn hook_files(project_dir: Seq<char>, env_name: Seq<char>) -> Seq<Seq<char>> {
    seq![
        paths::below(
            paths::below(project_dir, "htdocs/.docker-control/deployment-scripts"@),
            env_name + ".rhai"@,
        ),
        paths::below(paths::below(project_dir, "deployments/scripts"@), env_name + ".rhai"@),
    ]
}

/// The hook script of a server, where there is one.
pub fn find_hook_file(project_dir: &str, env_name: &str, existing: &Vec<String>) -> (r: Option<
    String,
>)
    ensures
        paths::opt(r) == paths::first_existing(
            hook_files(project_dir@, env_name@),
            text::texts(existing@),
        ),
{
    let all = hook_candidates(project_dir, env_name);
    paths::find_existing(&all, existing)
}

/// The places where the hook script of a server is looked for.
pub fn hook_candidates(project_dir: &str, env_name: &str) -> (r: Vec<String>)
    ensures
        text::texts(r@) == hook_files(project_dir@, env_name@),
{
    let mut file = text::owned(env_name);
    file.append(".rhai");
    let mut all = text::no_texts();
    let htdocs = paths::join(project_dir, "htdocs/.docker-control/deployment-scripts");
    let deployments = paths::join(project_dir, "deployments/scripts");
    text::push_text(&mut all, paths::join(htdocs.as_str(), file.as_str()).as_str());
    text::push_text(&mut all, paths::join(deployments.as_str(), file.as_str()).as_str());
    assert(text::texts(all@) =~= hook_files(project_dir@, env_name@));
    all
}

// ---------------------------------------------------------------- the decisions

/// The server of a name.
pub fn find_environment<'a>(environments: &'a Table<Environment>, name: &str) -> (r: Result<
    &'a Environment,
    String,
>)
    ensures
        environments@.dom().contains(name@) ==> (r matches Ok(e) && *e == environments@[name@]),
        !environments@.dom().contains(name@) ==> (r matches Err(e) && e@ == "Environment '"@ + name@
            + "' not found in config"@),
{
    match environments.get(name) {
        Some(e) => Ok(e),
        None => {
            let mut m = text::owned("Environment '");
            m.append(name);
            m.append("' not found in config");
            Err(m)
        },
    }
}

/// The releases to choose from; there has to be one.
pub fn offer_releases(tags: Vec<String>) -> (r: Result<Vec<String>, String>)
    ensures
        tags@.len() > 0 ==> r == Ok::<Vec<String>, String>(tags),
        tags@.len() == 0 ==> (r matches Err(e) && e@
            == "No tags found in repository. Please create a release first."@),
{
    if tags.len() == 0 {
        Err(text::owned("No tags found in repository. Please create a release first."))
    } else {
        Ok(tags)
    }
}

/// What the user is asked before anything is done.
pub fn confirm_question(release: &str, env_name: &str) -> (r: String)
    ensures
        r@ == "Proceed with deployment of '"@ + release@ + "' to '"@ + env_name@
            + "' environment?"@,
{
    let mut m = text::owned("Proceed with deployment of '");
    m.append(release);
    m.append("' to '");
    m.append(env_name);
    m.append("' environment?");
    m
}

/// Whether a release names a way up: a part of it between slashes is `..`.
pub open spec fn leads_up(release: Seq<char>) -> bool {
    lines::split(release, '/').contains(".."@)
}

/// Refuses a release whose directory would not lie below those of the releases.
pub fn check_release(release: &str) -> (r: Result<(), String>)
    ensures
        r is Err <==> leads_up(release@),
        r matches Err(e) ==> e@ == "Invalid release '"@ + release@
            + "': must not lead out of the releases directory"@,
{
    let parts = lines::split_at_char(release, '/');
    if text::is_listed(&parts, "..") {
        let mut e = text::owned("Invalid release '");
        e.append(release);
        e.append("': must not lead out of the releases directory");
        Err(e)
    } else {
        Ok(())
    }
}

/// No part of the directory of a release that was not refused is `..`, so the directory lies
/// below those of the releases.
pub proof fn a_release_stays_below_the_releases(timestamp: Seq<char>, release: Seq<char>)
    requires
        !timestamp.contains('/'),
        !leads_up(release),
    ensures
        !lines::split(timestamp + "_"@ + release, '/').contains(".."@),
{
    reveal_strlit("_");
    reveal_strlit("..");
    let p = timestamp + "_"@;
    let parts = lines::split(release, '/');
    let all = lines::split(p + release, '/');
    assert forall|i: int| 0 <= i < p.len() implies p[i] != '/' by {
        if i < timestamp.len() {
            assert(p[i] == timestamp[i]);
        }
    }
    lines::split_pieces(release, '/');
    lines::split_behind(p, release, '/');
    if all.contains(".."@) {
        let i = choose|i: int| 0 <= i < all.len() && all[i] == ".."@;
        if i == 0 {
            let k = timestamp.len() as int;
            assert(all[0] == p + parts[0]);
            assert((p + parts[0])[k] == '_');
            assert(".."@[k] == '_');
        } else {
            assert(parts[i] == ".."@);
            assert(parts.contains(".."@));
        }
    }
}

/// The directory of a release on the server: when it was made, and what it is.
pub fn release_dir(timestamp: &str, release: &str) -> (r: String)
    ensures
        r@ == timestamp@ + "_"@ + release@,
{
    let mut r = text::owned(timestamp);
    r.append("_");
    r.append(release);
    r
}

/// The directory of the archives of a project.
pub open spec fn deployments_dir(project_dir: Seq<char>) -> Seq<char> {
    paths::below(project_dir, "deployments"@)
}

/// Where the archive of a release lies.
pub open spec fn archive_of(project_dir: Seq<char>, release_dir: Seq<char>) -> Seq<char> {
    paths::below(deployments_dir(project_dir), release_dir + ".7z"@)
}

/// One thing that the command does.
#[derive(Debug, Clone, PartialEq, Eq)]
pub enum DeployAction {
    Say(String),
    /// Tell the team, by a status and a text.
    Notify { status: String, text: String },
    MakeDir(String),
    /// Make the archive of the release at this path.
    Archive(String),
    /// Roll the archive at this path out.
    Rollout(String),
    RemoveFile(String),
    Succeed(String),
    Fail(String),
}

/// A thing that is done, with its strings as sequences of characters.
pub ghost enum ActionView {
    Say(Seq<char>),
    Notify { status: Seq<char>, text: Seq<char> },
    MakeDir(Seq<char>),
    Archive(Seq<char>),
    Rollout(Seq<char>),
    RemoveFile(Seq<char>),
    Succeed(Seq<char>),
    Fail(Seq<char>),
}

impl View for DeployAction {
    type V = ActionView;

    open spec fn view(&self) -> ActionView {
        match *self {
            DeployAction::Say(t) => ActionView::Say(t@),
            DeployAction::Notify { status, text } => ActionView::Notify {
                status: status@,
                text: text@,
            },
            DeployAction::MakeDir(p) => ActionView::MakeDir(p@),
            DeployAction::Archive(p) => ActionView::Archive(p@),
            DeployAction::Rollout(p) => ActionView::Rollout(p@),
            DeployAction::RemoveFile(p) => ActionView::RemoveFile(p@),
            DeployAction::Succeed(t) => ActionView::Succeed(t@),
            DeployAction::Fail(e) => ActionView::Fail(e@),
        }
    }
}

/// The views of the things that are done.
pub open spec fn done(v: Seq<DeployAction>) -> Seq<ActionView> {
    v.map_values(|a: DeployAction| a@)
}

fn put(out: &mut Vec<DeployAction>, a: DeployAction)
    ensures
        done(final(out)@) == done(old(out)@).push(a@),
{
    let ghost before = done(out@);
    out.push(a);
    assert(done(out@) =~= before.push(a@));
}

/// The team is told where the server has an address for it.
pub open spec fn notice(
    told: bool,
    status: Seq<char>,
    text: Seq<char>,
) -> Seq<ActionView> {
    if told {
        seq![ActionView::Notify { status, text }]
    } else {
        Seq::empty()
    }
}

fn put_notice(out: &mut Vec<DeployAction>, env: &Environment, status: &str, text: &str)
    ensures
        done(final(out)@) == done(old(out)@) + notice(
            env.teams_webhook_url is Some,
            status@,
            text@,
        ),
{
    let ghost before = done(out@);
    if env.teams_webhook_url.is_some() {
        put(
            out,
            DeployAction::Notify { status: text::owned(status), text: text::owned(text) },
        );
    }
    assert(done(out@) =~= before + notice(env.teams_webhook_url is Some, status@, text@));
}

/// What is done once the deployment was confirmed, up to the archive.
pub fn execute(
    project_dir: &str,
    env: &Environment,
    release_dir: &str,
    changelog: &str,
    dir_exists: bool,
) -> (r: Vec<DeployAction>)
    ensures
        done(r@) == notice(env.teams_webhook_url is Some, "started"@, changelog@) + seq![
            ActionView::Say("Deploying to "@ + env.user@ + "@"@ + env.domain@ + "..."@),
        ] + (if dir_exists {
            Seq::empty()
        } else {
            seq![ActionView::MakeDir(deployments_dir(project_dir@))]
        }) + seq![ActionView::Archive(archive_of(project_dir@, release_dir@))],
{
    let mut r: Vec<DeployAction> = Vec::new();
    assert(done(r@) =~= Seq::empty());
    put_notice(&mut r, env, "started", changelog);
    let mut m = text::owned("Deploying to ");
    m.append(env.user.as_str());
    m.append("@");
    m.append(env.domain.as_str());
    m.append("...");
    put(&mut r, DeployAction::Say(m));
    let dir = paths::join(project_dir, "deployments");
    let mut file = text::owned(release_dir);
    file.append(".7z");
    let path = paths::join(dir.as_str(), file.as_str());
    if !dir_exists {
        put(&mut r, DeployAction::MakeDir(dir));
    }
    put(&mut r, DeployAction::Archive(path));
    assert(done(r@) =~= notice(env.teams_webhook_url is Some, "started"@, changelog@) + seq![
        ActionView::Say("Deploying to "@ + env.user@ + "@"@ + env.domain@ + "..."@),
    ] + (if dir_exists {
        Seq::empty()
    } else {
        seq![ActionView::MakeDir(deployments_dir(project_dir@))]
    }) + seq![ActionView::Archive(archive_of(project_dir@, release_dir@))]);
    r
}

/// What follows the archive: the rollout, or the end where there is no archive.
pub fn after_archive(env: &Environment, path: &str, error: Option<&str>) -> (r: Vec<DeployAction>)
    ensures
        done(r@) == (match error {
            None => seq![ActionView::Rollout(path@)],
            Some(e) => notice(
                env.teams_webhook_url is Some,
                "failed"@,
                "Archive creation failed: "@ + e@,
            ) + seq![ActionView::Fail(e@)],
        }),
{
    let mut r: Vec<DeployAction> = Vec::new();
    assert(done(r@) =~= Seq::empty());
    match error {
        None => {
            put(&mut r, DeployAction::Rollout(text::owned(path)));
            assert(done(r@) =~= seq![ActionView::Rollout(path@)]);
        },
        Some(e) => {
            let mut m = text::owned("Archive creation failed: ");
            m.append(e);
            put_notice(&mut r, env, "failed", m.as_str());
            put(&mut r, DeployAction::Fail(text::owned(e)));
            assert(done(r@) =~= notice(
                env.teams_webhook_url is Some,
                "failed"@,
                "Archive creation failed: "@ + e@,
            ) + seq![ActionView::Fail(e@)]);
        },
    }
    r
}

/// What follows the rollout: the archive goes in any case, and the team learns how it went.
pub fn after_rollout(
    env: &Environment,
    path: &str,
    changelog: &str,
    error: Option<&str>,
) -> (r: Vec<DeployAction>)
    ensures
        done(r@) == seq![ActionView::RemoveFile(path@)] + (match error {
            None => notice(env.teams_webhook_url is Some, "success"@, changelog@) + seq![
                ActionView::Succeed("Deployment completed successfully!"@),
            ],
            Some(e) => notice(
                env.teams_webhook_url is Some,
                "failed"@,
                "Deployment failed: "@ + e@,
            ) + seq![ActionView::Fail(e@)],
        }),
{
    let mut r: Vec<DeployAction> = Vec::new();
    assert(done(r@) =~= Seq::empty());
    put(&mut r, DeployAction::RemoveFile(text::owned(path)));
    match error {
        None => {
            put_notice(&mut r, env, "success", changelog);
            put(&mut r, DeployAction::Succeed(text::owned("Deployment completed successfully!")));
            assert(done(r@) =~= seq![ActionView::RemoveFile(path@)] + (notice(
                env.teams_webhook_url is Some,
                "success"@,
                changelog@,
            ) + seq![ActionView::Succeed("Deployment completed successfully!"@)]));
        },
        Some(e) => {
            let mut m = text::owned("Deployment failed: ");
            m.append(e);
            put_notice(&mut r, env, "failed", m.as_str());
            put(&mut r, DeployAction::Fail(text::owned(e)));
            assert(done(r@) =~= seq![ActionView::RemoveFile(path@)] + (notice(
                env.teams_webhook_url is Some,
                "failed"@,
                "Deployment failed: "@ + e@,
            ) + seq![ActionView::Fail(e@)]));
        },
    }
    r
}

} // verus!
