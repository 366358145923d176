//! The calls of `docker`, and what is read of their output.
use vstd::prelude::*;

use crate::json;
use crate::lines;
use crate::paths;
use crate::text;
use crate::text::{push_all, push_text, same};

verus! {

// ---------------------------------------------------------------- compose

/// The arguments of a `docker compose` call for a project.
pub open spec fn compose(project_dir: Seq<char>, args: Seq<Seq<char>>) -> Seq<Seq<char>> {
    seq!["compose"@, "--project-directory"@, project_dir] + args
}

/// The arguments of a `docker compose` call for a project.
pub fn execute_compose(project_dir: &str, args: &Vec<String>) -> (r: Vec<String>)
    ensures
        text::texts(r@) == compose(project_dir@, text::texts(args@)),
{
    let mut r = text::no_texts();
    push_text(&mut r, "compose");
    push_text(&mut r, "--project-directory");
    push_text(&mut r, project_dir);
    push_all(&mut r, args);
    assert(text::texts(r@) =~= compose(project_dir@, text::texts(args@)));
    r
}

/// The arguments of a `docker compose` call for the ingress, given its directory.
pub fn execute_ingress_compose(ingress_dir: &str, args: &Vec<String>) -> (r: Vec<String>)
    ensures
        text::texts(r@) == seq![
            "compose"@,
            "--project-directory"@,
            ingress_dir@,
            "-f"@,
            paths::below(ingress_dir@, "compose.yml"@),
        ] + text::texts(args@),
{
    let mut r = text::no_texts();
    push_text(&mut r, "compose");
    push_text(&mut r, "--project-directory");
    push_text(&mut r, ingress_dir);
    push_text(&mut r, "-f");
    push_text(&mut r, paths::join(ingress_dir, "compose.yml").as_str());
    push_all(&mut r, args);
    assert(text::texts(r@) =~= seq![
        "compose"@,
        "--project-directory"@,
        ingress_dir@,
        "-f"@,
        paths::below(ingress_dir@, "compose.yml"@),
    ] + text::texts(args@));
    r
}

// ---------------------------------------------------------------- the ingress

/// Where Homebrew is installed: what the environment says, or else what `brew` says, or else
/// the usual place.
pub fn resolve_brew_prefix(env: Option<&str>, brew: Option<&str>) -> (r: String)
    ensures
        r@ == (match env {
            Some(e) => e@,
            None => match brew {
                Some(b) => b@,
                None => "/usr/local"@,
            },
        }),
{
    match env {
        Some(e) => text::owned(e),
        None => match brew {
            Some(b) => text::owned(b),
            None => text::owned("/usr/local"),
        },
    }
}

/// The directory of the ingress volumes below a Homebrew directory such as `etc` or `share`.
pub open spec fn volumes_dir(prefix: Seq<char>, part: Seq<char>) -> Seq<char> {
    paths::below(
        paths::below(paths::below(paths::below(prefix, part), "docker-control"@), "ingress"@),
        "volumes"@,
    )
}

fn volumes_below(prefix: &str, part: &str) -> (r: String)
    ensures
        r@ == volumes_dir(prefix@, part@),
{
    let a = paths::join(prefix, part);
    let b = paths::join(a.as_str(), "docker-control");
    let c = paths::join(b.as_str(), "ingress");
    paths::join(c.as_str(), "volumes")
}

/// Host path where the ingress writes its certificate authority and the certificates.
pub fn ingress_tls_dir(brew_prefix: &str) -> (r: String)
    ensures
        r@ == paths::below(volumes_dir(brew_prefix@, "etc"@), "tls"@),
{
    paths::join(volumes_below(brew_prefix, "etc").as_str(), "tls")
}

/// From where and to where the ingress volumes are copied before the ingress starts.
pub fn ensure_ingress_volumes(brew_prefix: &str) -> (r: (String, String))
    ensures
        r.0@ == volumes_dir(brew_prefix@, "share"@),
        r.1@ == volumes_dir(brew_prefix@, "etc"@),
{
    (volumes_below(brew_prefix, "share"), volumes_below(brew_prefix, "etc"))
}

/// Whether a call starts the ingress, so that its volumes have to be brought up to date.
pub fn starts_ingress(args: &Vec<String>) -> (r: bool)
    ensures
        r == text::texts(args@).contains("up"@),
{
    text::is_listed(args, "up")
}

/// The directories where a part of the installation may lie, in the order in which they are
/// tried: one set by the user, the assets of the tool, next to the program, one level up, in
/// the shared files, and in the current directory.
pub open spec fn candidates(
    part: Seq<char>,
    env: Option<Seq<char>>,
    asset_dir: Option<Seq<char>>,
    exe_dir: Option<Seq<char>>,
    exe_parent: Option<Seq<char>>,
) -> Seq<Seq<char>> {
    (match env {
        Some(e) => seq![e],
        None => Seq::empty(),
    }) + (match asset_dir {
        Some(a) => seq![a],
        None => Seq::empty(),
    }) + (match exe_dir {
        Some(d) => seq![paths::below(d, part)] + (match exe_parent {
            Some(p) => seq![
                paths::below(p, part),
                paths::below(paths::below(paths::below(p, "share"@), "docker-control"@), part),
            ],
            None => Seq::empty(),
        }),
        None => Seq::empty(),
    }) + seq![part]
}

/// The view of an optional borrowed string.
pub open spec fn opt_str(s: Option<&str>) -> Option<Seq<char>> {
    match s {
        Some(t) => Some(t@),
        None => None,
    }
}

/// The directories where a part of the installation may lie.
pub fn installation_candidates(
    part: &str,
    env: Option<&str>,
    asset_dir: Option<&str>,
    exe_dir: Option<&str>,
    exe_parent: Option<&str>,
) -> (r: Vec<String>)
    ensures
        text::texts(r@) == candidates(
            part@,
            opt_str(env),
            opt_str(asset_dir),
            opt_str(exe_dir),
            opt_str(exe_parent),
        ),
{
    let mut r = text::no_texts();
    if let Some(e) = env {
        push_text(&mut r, e);
    }
    if let Some(a) = asset_dir {
        push_text(&mut r, a);
    }
    if let Some(d) = exe_dir {
        push_text(&mut r, paths::join(d, part).as_str());
        if let Some(p) = exe_parent {
            push_text(&mut r, paths::join(p, part).as_str());
            let share = paths::join(p, "share");
            let own = paths::join(share.as_str(), "docker-control");
            push_text(&mut r, paths::join(own.as_str(), part).as_str());
        }
    }
    push_text(&mut r, part);
    assert(text::texts(r@) =~= candidates(
        part@,
        opt_str(env),
        opt_str(asset_dir),
        opt_str(exe_dir),
        opt_str(exe_parent),
    ));
    r
}

/// The directory of the ingress: the first of the places where it may lie that exists.
pub fn find_ingress_dir(candidates: &Vec<String>, existing: &Vec<String>) -> (r: Result<
    String,
    String,
>)
    ensures
        match paths::first_existing(text::texts(candidates@), text::texts(existing@)) {
            Some(d) => r matches Ok(s) && s@ == d,
            None => r matches Err(e) && e@ == "Could not find ingress directory"@,
        },
{
    match paths::find_existing(candidates, existing) {
        Some(d) => Ok(d),
        None => Err(text::owned("Could not find ingress directory")),
    }
}

// ---------------------------------------------------------------- images

/// Whether an image of a project is older than the registry's.
#[derive(Debug, Clone, PartialEq, Eq)]
pub struct ImageStatus {
    pub image: String,
    pub outdated: bool,
}

/// What is known of the local copy of an image.
#[derive(Debug, Clone, PartialEq, Eq)]
pub enum LocalDigest {
    /// Image not present locally at all.
    Missing,
    /// Image present with a registry digest.
    Present(String),
    /// Image present but with no registry digest.
    Unknown,
}

/// What is known of the local copy of an image, with its digest as a sequence of characters.
pub ghost enum DigestView {
    Missing,
    Present(Seq<char>),
    Unknown,
}

impl View for LocalDigest {
    type V = DigestView;

    open spec fn view(&self) -> DigestView {
        match *self {
            LocalDigest::Missing => DigestView::Missing,
            LocalDigest::Present(d) => DigestView::Present(d@),
            LocalDigest::Unknown => DigestView::Unknown,
        }
    }
}

/// Whether an image is outdated; `None` where that cannot be told.
pub open spec fn outdated(local: DigestView, remote: Option<Seq<char>>) -> Option<bool> {
    match (local, remote) {
        (DigestView::Missing, Some(_)) => Some(true),
        (DigestView::Present(l), Some(r)) => Some(l != r),
        _ => None,
    }
}

/// Whether an image is outdated, given its two digests.
pub fn check_image_outdated(local: &LocalDigest, remote: Option<&str>) -> (r: Option<bool>)
    ensures
        r == outdated(local@, opt_str(remote)),
{
    match remote {
        Some(d) => match local {
            LocalDigest::Missing => Some(true),
            LocalDigest::Present(l) => Some(!same(l.as_str(), d)),
            LocalDigest::Unknown => None,
        },
        None => None,
    }
}

/// The strings of an array of strings.
pub open spec fn all_texts(list: Seq<Seq<char>>) -> Option<Seq<Seq<char>>>
    decreases list.len(),
{
    if list.len() == 0 {
        Some(Seq::empty())
    } else {
        match (all_texts(list.drop_last()), json::json_text(list.last())) {
            (Some(before), Some(t)) => Some(before.push(t)),
            _ => None,
        }
    }
}

/// The local digest, from the list of digests that were reported: what follows the last `@` of
/// the first one.
pub open spec fn first_digest(digests: Seq<Seq<char>>) -> DigestView {
    if digests.len() == 0 {
        DigestView::Unknown
    } else {
        match text::cut_last(digests[0], '@') {
            Some(p) => DigestView::Present(p.1),
            None => DigestView::Unknown,
        }
    }
}

/// The local digest, from the digests that were reported.
pub fn local_digest_of(digests: &Vec<String>) -> (r: LocalDigest)
    ensures
        r@ == first_digest(text::texts(digests@)),
{
    if digests.len() == 0 {
        return LocalDigest::Unknown;
    }
    assert(text::texts(digests@)[0] == digests@[0]@);
    match text::rsplit_once(digests[0].as_str(), '@') {
        Some((_, d)) => LocalDigest::Present(d),
        None => LocalDigest::Unknown,
    }
}

/// What an inspection of an image tells of its local digest. `stdout` is what it printed, where
/// it succeeded.
pub fn get_local_repo_digest(stdout: Option<&str>) -> (r: LocalDigest)
    ensures
        r@ == (match stdout {
            None => DigestView::Missing,
            Some(s) => match json::json_items(s@) {
                None => DigestView::Unknown,
                Some(list) => match all_texts(list) {
                    Some(digests) => first_digest(digests),
                    None => DigestView::Unknown,
                },
            },
        }),
{
    let s = match stdout {
        Some(s) => s,
        None => {
            return LocalDigest::Missing;
        },
    };
    let list = match json::items(s) {
        Some(l) => l,
        None => {
            return LocalDigest::Unknown;
        },
    };
    let ghost all = text::texts(list@);
    let mut digests = text::no_texts();
    let mut i: usize = 0;
    while i < list.len()
        invariant
            i <= list@.len(),
            all == text::texts(list@),
            stdout == Some(s),
            json::json_items(s@) == Some(all),
            all_texts(all.take(i as int)) == Some(text::texts(digests@)),
        decreases list@.len() - i,
    {
        proof {
            assert(all.take(i + 1).drop_last() =~= all.take(i as int));
            assert(all.take(i + 1).last() == list@[i as int]@);
        }
        match json::as_text(list[i].as_str()) {
            Some(t) => {
                push_text(&mut digests, t.as_str());
            },
            None => {
                proof {
                    lemma_all_texts_fails(all, i + 1);
                }
                return LocalDigest::Unknown;
            },
        }
        i += 1;
    }
    assert(all.take(i as int) =~= all);
    local_digest_of(&digests)
}

proof fn lemma_all_texts_fails(list: Seq<Seq<char>>, i: int)
    requires
        0 <= i <= list.len(),
        all_texts(list.take(i)) is None,
    ensures
        all_texts(list) is None,
    decreases list.len() - i,
{
    if i < list.len() {
        assert(list.take(i + 1).drop_last() =~= list.take(i));
        lemma_all_texts_fails(list, i + 1);
    } else {
        assert(list.take(i) =~= list);
    }
}

/// The first of some lines that begins with a word, without that word and without the white
/// space around what follows.
pub open spec fn labelled(ls: Seq<Seq<char>>, label: Seq<char>) -> Option<Seq<char>>
    decreases ls.len(),
{
    if ls.len() == 0 {
        None
    } else {
        let l = text::trimmed(ls[0]);
        if label.is_prefix_of(l) {
            Some(text::trimmed(l.skip(label.len() as int)))
        } else {
            labelled(ls.drop_first(), label)
        }
    }
}

/// The registry's digest, from what an inspection of the registry printed.
pub fn get_remote_digest(stdout: &str) -> (r: Option<String>)
    ensures
        paths::opt(r) == labelled(lines::lines(stdout@), "Digest:"@),
{
    let ls = lines::lines_of(stdout);
    let ghost all = text::texts(ls@);
    let mut i: usize = 0;
    assert(all.skip(0) =~= all);
    while i < ls.len()
        invariant
            i <= ls@.len(),
            all == text::texts(ls@),
            all == lines::lines(stdout@),
            labelled(all, "Digest:"@) == labelled(all.skip(i as int), "Digest:"@),
        decreases ls@.len() - i,
    {
        let ghost rest = all.skip(i as int);
        assert(rest[0] == ls@[i as int]@);
        let l = text::trim(ls[i].as_str());
        if let Some(d) = text::strip_prefix(l.as_str(), "Digest:") {
            return Some(text::trim(d.as_str()));
        }
        assert(rest.drop_first() =~= all.skip(i + 1));
        i += 1;
    }
    None
}

/// The images that a compose file refers to, from what `docker compose config` printed.
pub fn list_compose_images(stdout: &str) -> (r: Vec<String>)
    ensures
        text::texts(r@) == lines::trimmed_lines(stdout@),
{
    lines::trimmed_lines_of(stdout)
}

/// The views of image states.
pub open spec fn statuses_view(v: Seq<ImageStatus>) -> Seq<(Seq<char>, bool)> {
    v.map_values(|s: ImageStatus| (s.image@, s.outdated))
}

/// The images that could be checked, each with its result.
pub open spec fn known_statuses(images: Seq<Seq<char>>, results: Seq<Option<bool>>) -> Seq<
    (Seq<char>, bool),
>
    decreases images.len(),
{
    if images.len() == 0 {
        Seq::empty()
    } else {
        let before = known_statuses(images.drop_last(), results);
        match results[images.len() - 1] {
            Some(o) => before.push((images.last(), o)),
            None => before,
        }
    }
}

/// The state of each image that could be checked, given the result for each. The second value
/// tells whether the check counts as done: a run that reached the registry for no image must
/// not suppress the next one.
pub fn check_outdated_images(images: &Vec<String>, results: &Vec<Option<bool>>) -> (r: (
    Vec<ImageStatus>,
    bool,
))
    requires
        images@.len() == results@.len(),
    ensures
        statuses_view(r.0@) == known_statuses(text::texts(images@), results@),
        r.1 == (known_statuses(text::texts(images@), results@).len() > 0),
{
    let ghost all = text::texts(images@);
    let mut out: Vec<ImageStatus> = Vec::new();
    let mut i: usize = 0;
    assert(statuses_view(out@) =~= Seq::empty());
    while i < images.len()
        invariant
            i <= images@.len() == results@.len(),
            all == text::texts(images@),
            statuses_view(out@) == known_statuses(all.take(i as int), results@),
        decreases images@.len() - i,
    {
        proof {
            assert(all.take(i + 1).drop_last() =~= all.take(i as int));
            assert(all.take(i + 1).last() == images@[i as int]@);
        }
        let result: Option<bool> = results[i];
        if let Some(o) = result {
            let ghost before = statuses_view(out@);
            let s = ImageStatus { image: images[i].clone(), outdated: o };
            out.push(s);
            assert(statuses_view(out@) =~= before.push((s.image@, s.outdated)));
        }
        i += 1;
    }
    assert(all.take(i as int) =~= all);
    let any = out.len() > 0;
    (out, any)
}

/// Whether a project runs, from the services that were listed as running. `stdout` is what was
/// printed, where the call succeeded.
pub fn is_running(stdout: Option<&str>) -> (r: bool)
    ensures
        r == (stdout matches Some(s) && text::trimmed(s@).len() > 0),
{
    match stdout {
        Some(s) => !text::trim(s).as_str().is_empty(),
        None => false,
    }
}

// ---------------------------------------------------------------- exec

/// The service that a console opens, where none is named.
pub open spec fn console_service(container: Option<Seq<char>>) -> Seq<char> {
    match container {
        Some(c) => c,
        None => "php"@,
    }
}

/// The arguments that open a shell in a service; `None` where the services are to be listed.
pub fn console(project_dir: &str, container: Option<&str>) -> (r: Option<Vec<String>>)
    ensures
        ({
            let service = console_service(opt_str(container));
            &&& r is None <==> service == "help"@
            &&& r matches Some(v) ==> text::texts(v@) == compose(project_dir@, seq!["exec"@]) + (
            if service == "php"@ {
                seq!["-itu"@, "www-data"@]
            } else {
                Seq::empty()
            }) + seq![service, "bash"@]
        }),
{
    let service = match container {
        Some(c) => c,
        None => "php",
    };
    if same(service, "help") {
        return None;
    }
    let mut args = text::no_texts();
    push_text(&mut args, "exec");
    assert(text::texts(args@) =~= seq!["exec"@]);
    let mut r = execute_compose(project_dir, &args);
    let ghost head = text::texts(r@);
    let php = same(service, "php");
    if php {
        push_text(&mut r, "-itu");
        push_text(&mut r, "www-data");
    }
    push_text(&mut r, service);
    push_text(&mut r, "bash");
    assert(text::texts(r@) =~= head + (if php {
        seq!["-itu"@, "www-data"@]
    } else {
        Seq::empty()
    }) + seq![service@, "bash"@]);
    Some(r)
}

/// The flags of a single command in a service. In the application service it runs as the web
/// server's user, in the application's directory, with the Composer home that an interactive
/// shell would have. Without a terminal on both ends none is allocated.
pub open spec fn console_flags(service: Seq<char>, tty: bool) -> Seq<Seq<char>> {
    (if tty {
        Seq::empty()
    } else {
        seq!["-T"@]
    }) + (if service == "php"@ {
        seq![
            "-u"@,
            "www-data"@,
            "-w"@,
            "/var/www/html"@,
            "-e"@,
            "COMPOSER_HOME=/var/www/.composer"@,
        ]
    } else {
        Seq::empty()
    })
}

/// The flags of a single command in a service.
pub fn console_exec_flags(service: &str, tty: bool) -> (r: Vec<String>)
    ensures
        text::texts(r@) == console_flags(service@, tty),
{
    let mut r = text::no_texts();
    if !tty {
        push_text(&mut r, "-T");
    }
    if same(service, "php") {
        push_text(&mut r, "-u");
        push_text(&mut r, "www-data");
        push_text(&mut r, "-w");
        push_text(&mut r, "/var/www/html");
        push_text(&mut r, "-e");
        push_text(&mut r, "COMPOSER_HOME=/var/www/.composer");
    }
    assert(text::texts(r@) =~= console_flags(service@, tty));
    r
}

/// The arguments that run a command in a service instead of opening a shell there. The word
/// that lists the services names none.
pub fn console_exec(
    project_dir: &str,
    container: Option<&str>,
    command: &Vec<String>,
    tty: bool,
) -> (r: Result<Vec<String>, String>)
    ensures
        ({
            let service = console_service(opt_str(container));
            match r {
                Ok(v) => service != "help"@ && text::texts(v@) == compose(
                    project_dir@,
                    seq!["exec"@] + console_flags(service, tty) + seq![service] + text::texts(
                        command@,
                    ),
                ),
                Err(e) => service == "help"@ && e@
                    == "`help` lists the available services rather than naming one — run `docker-control console help` on its own, or pass a real service name"@,
            }
        }),
{
    let service = match container {
        Some(c) => c,
        None => "php",
    };
    if same(service, "help") {
        return Err(
            text::owned(
                "`help` lists the available services rather than naming one — run `docker-control console help` on its own, or pass a real service name",
            ),
        );
    }
    let mut args = text::no_texts();
    push_text(&mut args, "exec");
    push_all(&mut args, &console_exec_flags(service, tty));
    push_text(&mut args, service);
    push_all(&mut args, command);
    assert(text::texts(args@) =~= seq!["exec"@] + console_flags(service@, tty) + seq![service@]
        + text::texts(command@));
    Ok(execute_compose(project_dir, &args))
}

/// The exit code that is passed on: a command that a signal ended counts as interrupted.
pub fn exit_code(code: Option<i32>) -> (r: i32)
    ensures
        r == (match code {
            Some(c) => c,
            None => 130,
        }),
{
    match code {
        Some(c) => c,
        None => 130,
    }
}

/// The flags that set environment variables.
pub open spec fn env_flags(env: Seq<(&str, &str)>) -> Seq<Seq<char>>
    decreases env.len(),
{
    if env.len() == 0 {
        Seq::empty()
    } else {
        env_flags(env.drop_last()).push("-e"@).push(env.last().0@ + "="@ + env.last().1@)
    }
}

/// The flags of a command that runs as a user.
pub open spec fn flags_of(
    user: Seq<char>,
    workdir: Option<Seq<char>>,
    env: Seq<(&str, &str)>,
    tty: bool,
) -> Seq<Seq<char>> {
    (if tty {
        Seq::empty()
    } else {
        seq!["-T"@]
    }) + seq!["-u"@, user] + (match workdir {
        Some(d) => seq!["-w"@, d],
        None => Seq::empty(),
    }) + env_flags(env)
}

/// The flags of a command that runs as a user. Without `tty` no terminal is allocated, so that
/// the output can be piped as it is.
pub fn exec_flags(user: &str, workdir: Option<&str>, env: &[(&str, &str)], tty: bool) -> (r: Vec<
    String,
>)
    ensures
        text::texts(r@) == flags_of(user@, opt_str(workdir), env@, tty),
{
    let mut r = text::no_texts();
    if !tty {
        push_text(&mut r, "-T");
    }
    push_text(&mut r, "-u");
    push_text(&mut r, user);
    if let Some(d) = workdir {
        push_text(&mut r, "-w");
        push_text(&mut r, d);
    }
    let ghost head = text::texts(r@);
    proof {
        assert(head =~= (if tty {
            Seq::empty()
        } else {
            seq!["-T"@]
        }) + seq!["-u"@, user@] + (match opt_str(workdir) {
            Some(d) => seq!["-w"@, d],
            None => Seq::empty(),
        }));
        assert(head =~= head + env_flags(env@.take(0)));
    }
    let mut i: usize = 0;
    while i < env.len()
        invariant
            i <= env@.len(),
            text::texts(r@) == head + env_flags(env@.take(i as int)),
        decreases env@.len() - i,
    {
        let (key, value) = env[i];
        let mut pair = text::owned(key);
        pair.append("=");
        pair.append(value);
        push_text(&mut r, "-e");
        push_text(&mut r, pair.as_str());
        proof {
            assert(env@.take(i + 1).drop_last() =~= env@.take(i as int));
            assert(env@.take(i + 1).last() == env@[i as int]);
            assert(text::texts(r@) =~= head + env_flags(env@.take(i + 1)));
        }
        i += 1;
    }
    assert(env@.take(i as int) =~= env@);
    r
}

/// The arguments of a command that runs in a service as a user.
pub fn exec_as_user(
    project_dir: &str,
    service: &str,
    user: &str,
    workdir: Option<&str>,
    env: &[(&str, &str)],
    args: &Vec<String>,
    tty: bool,
) -> (r: Vec<String>)
    ensures
        text::texts(r@) == compose(
            project_dir@,
            seq!["exec"@] + flags_of(user@, opt_str(workdir), env@, tty) + seq![service@]
                + text::texts(args@),
        ),
{
    let mut all = text::no_texts();
    push_text(&mut all, "exec");
    push_all(&mut all, &exec_flags(user, workdir, env, tty));
    push_text(&mut all, service);
    push_all(&mut all, args);
    assert(text::texts(all@) =~= seq!["exec"@] + flags_of(user@, opt_str(workdir), env@, tty)
        + seq![service@] + text::texts(args@));
    execute_compose(project_dir, &all)
}

/// The arguments of a command that runs in a service as root.
pub fn exec_as_root(project_dir: &str, service: &str, args: &Vec<String>) -> (r: Vec<String>)
    ensures
        text::texts(r@) == compose(
            project_dir@,
            seq!["exec"@, "-T"@, "-u"@, "root"@, service@] + text::texts(args@),
        ),
{
    let env: [(&str, &str); 0] = [];
    let r = exec_as_user(project_dir, service, "root", None, &env, args, false);
    assert(seq!["exec"@] + flags_of("root"@, None, env@, false) + seq![service@] + text::texts(
        args@,
    ) =~= seq!["exec"@, "-T"@, "-u"@, "root"@, service@] + text::texts(args@));
    r
}

} // verus!
