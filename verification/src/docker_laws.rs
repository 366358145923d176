//! What holds of the calls of `docker`, `ssh` and `scp` and of the files of the tool.
use vstd::prelude::*;

use crate::assets::AssetManager;
use crate::docker;
use crate::docker::{DigestView, ImageStatus, LocalDigest};
use crate::lines;
use crate::paths;
use crate::ssh;
use crate::text;

verus! {

/// Whether two arguments stand side by side.
pub open spec fn adjacent(args: Seq<Seq<char>>, a: Seq<char>, b: Seq<char>) -> bool {
    exists|i: int| 0 <= i < args.len() - 1 && #[trigger] args[i] == a && args[i + 1] == b
}

// ---------------------------------------------------------------- calls

/// A call of a project names the project's directory before anything else, and hands every
/// argument on as it is. The ingress has its own file beside that.
pub proof fn a_call_names_its_directory(
    dir: &str,
    args: &Vec<String>,
    r: Vec<String>,
    ingress: Vec<String>,
)
    requires
        call_ensures(docker::execute_compose, (dir, args), r),
        call_ensures(docker::execute_ingress_compose, (dir, args), ingress),
        dir@.len() > 0,
        dir@.last() != '/',
    ensures
        text::texts(r@).len() == 3 + args@.len(),
        text::texts(r@)[0] == "compose"@,
        text::texts(r@)[1] == "--project-directory"@,
        text::texts(r@)[2] == dir@,
        text::texts(r@).skip(3) == text::texts(args@),
        text::texts(ingress@).take(3) == text::texts(r@).take(3),
        text::texts(ingress@)[3] == "-f"@,
        text::texts(ingress@)[4] == dir@ + "/"@ + "compose.yml"@,
        text::texts(ingress@).skip(5) == text::texts(args@),
{
    reveal_strlit("/");
    reveal_strlit("compose.yml");
    assert("/"@ =~= seq!['/']);
    assert("compose.yml"@[0] == 'c');
    assert(text::texts(r@).skip(3) =~= text::texts(args@));
    assert(text::texts(ingress@).skip(5) =~= text::texts(args@));
    assert(text::texts(ingress@).take(3) =~= text::texts(r@).take(3));
}

/// What stands in the arguments of a command in a service: the project, the flags, the service and
/// the command, in this order.
pub open spec fn runs_in(
    all: Seq<Seq<char>>,
    dir: Seq<char>,
    flags: Seq<Seq<char>>,
    service: Seq<char>,
    command: Seq<Seq<char>>,
) -> bool {
    all == seq!["compose"@, "--project-directory"@, dir, "exec"@] + flags + seq![service] + command
}

proof fn lemma_env_flags(env: Seq<(&str, &str)>, i: int)
    requires
        0 <= i < env.len(),
    ensures
        docker::env_flags(env).len() == 2 * env.len(),
        docker::env_flags(env)[2 * i] == "-e"@,
        docker::env_flags(env)[2 * i + 1] == env[i].0@ + "="@ + env[i].1@,
    decreases env.len(),
{
    let w = env.drop_last();
    lemma_env_flags_len(env);
    lemma_env_flags_len(w);
    if i < w.len() {
        lemma_env_flags(w, i);
        assert(w[i] == env[i]);
    }
}

proof fn lemma_env_flags_len(env: Seq<(&str, &str)>)
    ensures
        docker::env_flags(env).len() == 2 * env.len(),
    decreases env.len(),
{
    if env.len() > 0 {
        lemma_env_flags_len(env.drop_last());
    }
}

/// A command runs in its service as its user, in its directory and with each of its variables, and
/// its own arguments follow the service unchanged. A terminal is refused exactly where none is
/// wanted.
pub proof fn a_command_runs_as_its_user(
    dir: &str,
    service: &str,
    user: &str,
    workdir: Option<&str>,
    env: &[(&str, &str)],
    args: &Vec<String>,
    tty: bool,
    flags: Vec<String>,
    r: Vec<String>,
)
    requires
        call_ensures(docker::exec_flags, (user, workdir, env, tty), flags),
        call_ensures(docker::exec_as_user, (dir, service, user, workdir, env, args, tty), r),
    ensures
        runs_in(text::texts(r@), dir@, text::texts(flags@), service@, text::texts(args@)),
        adjacent(text::texts(flags@), "-u"@, user@),
        !tty <==> text::texts(flags@)[0] == "-T"@,
        workdir matches Some(d) ==> adjacent(text::texts(flags@), "-w"@, d@),
        forall|i: int|
            0 <= i < env@.len() ==> adjacent(
                text::texts(flags@),
                "-e"@,
                (#[trigger] env@[i]).0@ + "="@ + env@[i].1@,
            ),
        flags@.len() == (if tty {
            0int
        } else {
            1
        }) + 2 + (if workdir is Some {
            2int
        } else {
            0
        }) + 2 * env@.len(),
{
    let f = text::texts(flags@);
    assert(f.len() == flags@.len());
    reveal_strlit("-T");
    reveal_strlit("-u");
    assert("-T"@[1] == 'T' && "-u"@[1] == 'u');
    let t: int = if tty {
        0
    } else {
        1
    };
    lemma_env_flags_len(env@);
    assert(f[t] == "-u"@ && f[t + 1] == user@);
    let w: int = if workdir is Some {
        2
    } else {
        0
    };
    if let Some(d) = workdir {
        assert(f[t + 2] == "-w"@ && f[t + 2 + 1] == d@);
    }
    assert forall|i: int| 0 <= i < env@.len() implies adjacent(
        f,
        "-e"@,
        (#[trigger] env@[i]).0@ + "="@ + env@[i].1@,
    ) by {
        lemma_env_flags(env@, i);
        let at = t + 2 + w + 2 * i;
        assert(f[at] == docker::env_flags(env@)[2 * i]);
        assert(f[at + 1] == docker::env_flags(env@)[2 * i + 1]);
    }
    assert(text::texts(r@) =~= seq!["compose"@, "--project-directory"@, dir@, "exec"@] + f + seq![
        service@,
    ] + text::texts(args@));
}

/// A command runs as root in its service, without a terminal.
pub proof fn a_command_runs_as_root(
    dir: &str,
    service: &str,
    args: &Vec<String>,
    r: Vec<String>,
)
    requires
        call_ensures(docker::exec_as_root, (dir, service, args), r),
    ensures
        runs_in(
            text::texts(r@),
            dir@,
            seq!["-T"@, "-u"@, "root"@],
            service@,
            text::texts(args@),
        ),
{
    assert(text::texts(r@) =~= seq!["compose"@, "--project-directory"@, dir@, "exec"@] + seq![
        "-T"@,
        "-u"@,
        "root"@,
    ] + seq![service@] + text::texts(args@));
}

/// A console opens in the service that was named, or in the application's where none was. In the
/// application's it belongs to the web server's user, elsewhere to the service's own.
pub proof fn a_console_opens_in_its_service(
    dir: &str,
    service: &str,
    named: Option<Vec<String>>,
    unnamed: Option<Vec<String>>,
)
    requires
        call_ensures(docker::console, (dir, Some(service)), named),
        call_ensures(docker::console, (dir, None::<&str>), unnamed),
    ensures
        unnamed matches Some(v) && runs_in(
            text::texts(v@),
            dir@,
            seq!["-itu"@, "www-data"@],
            "php"@,
            seq!["bash"@],
        ),
        named is None <==> service@ == "help"@,
        named is Some && service@ != "php"@ ==> runs_in(
            text::texts(named->0@),
            dir@,
            Seq::empty(),
            service@,
            seq!["bash"@],
        ),
        service@ == "php"@ ==> text::texts(named->0@) == text::texts(unnamed->0@),
{
    reveal_strlit("help");
    reveal_strlit("php");
    assert("php"@.len() != "help"@.len());
    let u = text::texts(unnamed->0@);
    assert(u =~= seq!["compose"@, "--project-directory"@, dir@, "exec"@] + seq![
        "-itu"@,
        "www-data"@,
    ] + seq!["php"@] + seq!["bash"@]);
    if named is Some && service@ != "php"@ {
        assert(text::texts(named->0@) =~= seq!["compose"@, "--project-directory"@, dir@, "exec"@]
            + Seq::<Seq<char>>::empty() + seq![service@] + seq!["bash"@]);
    }
}

/// A command runs in the service that was named, or in the application's where none was, with its
/// arguments unchanged. In the application's it runs as the web server's user in the application's
/// directory.
pub proof fn a_console_command_runs_in_its_service(
    dir: &str,
    container: Option<&str>,
    command: &Vec<String>,
    tty: bool,
    r: Result<Vec<String>, String>,
)
    requires
        call_ensures(docker::console_exec, (dir, container, command, tty), r),
    ensures
        ({
            let service = if container is Some {
                container->0@
            } else {
                "php"@
            };
            let terminal = if tty {
                Seq::empty()
            } else {
                seq!["-T"@]
            };
            &&& r is Err <==> service == "help"@
            &&& r matches Ok(v) ==> runs_in(
                text::texts(v@),
                dir@,
                terminal + (if service == "php"@ {
                    seq![
                        "-u"@,
                        "www-data"@,
                        "-w"@,
                        "/var/www/html"@,
                        "-e"@,
                        "COMPOSER_HOME=/var/www/.composer"@,
                    ]
                } else {
                    Seq::empty()
                }),
                service,
                text::texts(command@),
            )
        }),
{
    let service = if container is Some {
        container->0@
    } else {
        "php"@
    };
    if let Ok(v) = r {
        let flags = docker::console_flags(service, tty);
        assert(text::texts(v@) =~= seq!["compose"@, "--project-directory"@, dir@, "exec"@] + flags
            + seq![service] + text::texts(command@));
    }
}

/// A command that ended tells its own code; one that a signal ended does not count as a success.
pub proof fn an_interrupted_command_did_not_succeed(code: Option<i32>, r: i32)
    requires
        call_ensures(docker::exit_code, (code,), r),
    ensures
        code matches Some(c) ==> r == c,
        code is None ==> r == 130,
{
}

// ---------------------------------------------------------------- places

/// What the user set comes before everything else, then what the tool brought along, and what lies
/// beside the program before what is shared; the current directory comes last.
pub proof fn what_the_user_set_comes_first(
    part: &str,
    env: &str,
    assets: &str,
    exe: &str,
    up: &str,
    r: Vec<String>,
    none: Vec<String>,
)
    requires
        call_ensures(
            docker::installation_candidates,
            (part, Some(env), Some(assets), Some(exe), Some(up)),
            r,
        ),
        call_ensures(
            docker::installation_candidates,
            (part, None::<&str>, None::<&str>, None::<&str>, None::<&str>),
            none,
        ),
        part@.len() > 0,
        part@[0] != '/',
        exe@.len() > 0,
        exe@.last() != '/',
        up@.len() > 0,
        up@.last() != '/',
    ensures
        text::texts(r@) == seq![
            env@,
            assets@,
            exe@ + "/"@ + part@,
            up@ + "/"@ + part@,
            up@ + "/"@ + "share"@ + "/"@ + "docker-control"@ + "/"@ + part@,
            part@,
        ],
        text::texts(none@) == seq![part@],
{
    reveal_strlit("/");
    reveal_strlit("share");
    reveal_strlit("docker-control");
    assert("/"@ =~= seq!['/']);
    let a = up@ + seq!['/'] + "share"@;
    assert(a.last() == 'e');
    let b = a + seq!['/'] + "docker-control"@;
    assert(b.last() == 'l');
    assert("share"@[0] == 's' && "docker-control"@[0] == 'd');
    assert(b + seq!['/'] + part@ =~= up@ + "/"@ + "share"@ + "/"@ + "docker-control"@ + "/"@
        + part@);
    assert(text::texts(r@) =~= seq![
        env@,
        assets@,
        exe@ + "/"@ + part@,
        up@ + "/"@ + part@,
        up@ + "/"@ + "share"@ + "/"@ + "docker-control"@ + "/"@ + part@,
        part@,
    ]);
    assert(text::texts(none@) =~= seq![part@]);
}

proof fn lemma_first_existing(candidates: Seq<Seq<char>>, existing: Seq<Seq<char>>, k: int)
    requires
        0 <= k <= candidates.len(),
        forall|i: int| 0 <= i < k ==> !existing.contains(#[trigger] candidates[i]),
    ensures
        k == candidates.len() ==> paths::first_existing(candidates, existing) is None,
        k < candidates.len() && existing.contains(candidates[k]) ==> paths::first_existing(
            candidates,
            existing,
        ) == Some(candidates[k]),
    decreases k,
{
    if k > 0 {
        assert(!existing.contains(candidates[0]));
        let w = candidates.drop_first();
        assert forall|i: int| 0 <= i < k - 1 implies !existing.contains(#[trigger] w[i]) by {
            assert(w[i] == candidates[i + 1]);
        }
        lemma_first_existing(w, existing, k - 1);
    }
}

/// The ingress lies in the first of its places that exists; where none does, that is an error.
pub proof fn the_first_place_that_exists_counts(
    candidates: &Vec<String>,
    existing: &Vec<String>,
    r: Result<String, String>,
    k: int,
)
    requires
        call_ensures(docker::find_ingress_dir, (candidates, existing), r),
        0 <= k <= candidates@.len(),
        forall|i: int|
            0 <= i < k ==> !text::texts(existing@).contains(
                #[trigger] text::texts(candidates@)[i],
            ),
    ensures
        k == candidates@.len() ==> r is Err,
        k < candidates@.len() && text::texts(existing@).contains(text::texts(candidates@)[k]) ==> (r
            matches Ok(s) && s@ == text::texts(candidates@)[k]),
{
    lemma_first_existing(text::texts(candidates@), text::texts(existing@), k);
}

/// The volumes of the ingress are copied out of what is shared, into what belongs to the machine;
/// its certificates lie among the latter.
pub proof fn the_volumes_are_copied_to_the_machine(
    prefix: &str,
    r: (String, String),
    tls: String,
)
    requires
        call_ensures(docker::ensure_ingress_volumes, (prefix,), r),
        call_ensures(docker::ingress_tls_dir, (prefix,), tls),
        prefix@.len() > 0,
        prefix@.last() != '/',
    ensures
        r.0@ == prefix@ + "/"@ + "share"@ + "/"@ + "docker-control"@ + "/"@ + "ingress"@ + "/"@
            + "volumes"@,
        r.1@ == prefix@ + "/"@ + "etc"@ + "/"@ + "docker-control"@ + "/"@ + "ingress"@ + "/"@
            + "volumes"@,
        tls@ == r.1@ + "/"@ + "tls"@,
{
    reveal_strlit("/");
    reveal_strlit("share");
    reveal_strlit("etc");
    reveal_strlit("tls");
    reveal_strlit("volumes");
    assert("/"@ =~= seq!['/']);
    assert("share"@[0] == 's' && "share"@.last() == 'e' && "etc"@[0] == 'e' && "etc"@.last() == 'c');
    lemma_volumes(prefix@, "share"@);
    lemma_volumes(prefix@, "etc"@);
    assert("tls"@[0] == 't');
    assert(r.1@.last() == "volumes"@.last());
    assert("volumes"@.last() == 's');
}

proof fn lemma_volumes(prefix: Seq<char>, part: Seq<char>)
    requires
        prefix.len() > 0,
        prefix.last() != '/',
        part.len() > 0,
        part[0] != '/',
        part.last() != '/',
    ensures
        docker::volumes_dir(prefix, part) == prefix + "/"@ + part + "/"@ + "docker-control"@ + "/"@
            + "ingress"@ + "/"@ + "volumes"@,
{
    reveal_strlit("/");
    reveal_strlit("docker-control");
    reveal_strlit("ingress");
    reveal_strlit("volumes");
    assert("/"@ =~= seq!['/']);
    assert("docker-control"@[0] == 'd' && "docker-control"@.last() == 'l');
    assert("ingress"@[0] == 'i' && "ingress"@.last() == 's');
    assert("volumes"@[0] == 'v');
    let a = prefix + seq!['/'] + part;
    assert(a.last() == part.last());
    let b = a + seq!['/'] + "docker-control"@;
    assert(b.last() == 'l');
    let c = b + seq!['/'] + "ingress"@;
    assert(c.last() == 's');
}

/// The place of Homebrew is what the environment says, before what the program itself says.
pub proof fn the_environment_decides_on_homebrew(
    env: Option<&str>,
    brew: Option<&str>,
    r: String,
)
    requires
        call_ensures(docker::resolve_brew_prefix, (env, brew), r),
    ensures
        env matches Some(e) ==> r@ == e@,
        env is None && brew is Some ==> r@ == brew->0@,
        env is None && brew is None ==> r@ == "/usr/local"@,
{
}

/// The volumes are brought up to date exactly where the ingress is started.
pub proof fn starting_brings_up_to_date(args: &Vec<String>, r: bool)
    requires
        call_ensures(docker::starts_ingress, (args,), r),
    ensures
        r <==> exists|i: int| 0 <= i < args@.len() && (#[trigger] args@[i])@ == "up"@,
{
    let t = text::texts(args@);
    assert(t.len() == args@.len());
    if r {
        let i = choose|i: int| 0 <= i < t.len() && t[i] == "up"@;
        assert(args@[i]@ == "up"@);
    }
    if exists|i: int| 0 <= i < args@.len() && (#[trigger] args@[i])@ == "up"@ {
        let i = choose|i: int| 0 <= i < args@.len() && (#[trigger] args@[i])@ == "up"@;
        assert(t[i] == "up"@);
    }
}

// ---------------------------------------------------------------- images

/// An image is outdated where the registry has it and the machine has another one or none; where
/// one of the two is not known, nothing is said.
pub proof fn an_image_is_compared_with_the_registry(
    local: &LocalDigest,
    remote: Option<&str>,
    r: Option<bool>,
)
    requires
        call_ensures(docker::check_image_outdated, (local, remote), r),
    ensures
        remote is None || local@ is Unknown ==> r is None,
        remote is Some && local@ is Missing ==> r == Some(true),
        remote is Some && local@ is Present ==> r == Some(local@->Present_0 != remote->0@),
{
}

/// The digest of a local image is what follows the last at sign of the first one that is reported.
pub proof fn a_digest_follows_the_at_sign(
    digests: &Vec<String>,
    name: Seq<char>,
    digest: Seq<char>,
    r: LocalDigest,
)
    requires
        call_ensures(docker::local_digest_of, (digests,), r),
    ensures
        digests@.len() == 0 ==> r@ is Unknown,
        digests@.len() > 0 && digests@[0]@ == name + seq!['@'] + digest && !digest.contains('@')
            ==> r@ == DigestView::Present(digest),
        digests@.len() > 0 && !digests@[0]@.contains('@') ==> r@ is Unknown,
{
    let t = text::texts(digests@);
    if digests@.len() > 0 {
        assert(t[0] == digests@[0]@);
        if digests@[0]@ == name + seq!['@'] + digest && !digest.contains('@') {
            text::cut_last_of_both(name, '@', digest);
        }
    }
}

/// An image that could not be inspected is not there.
pub proof fn an_image_that_is_not_inspected_is_missing(r: LocalDigest)
    requires
        call_ensures(docker::get_local_repo_digest, (None::<&str>,), r),
    ensures
        r@ is Missing,
{
}

proof fn lemma_labelled(ls: Seq<Seq<char>>, label: Seq<char>, k: int)
    requires
        0 <= k <= ls.len(),
        forall|i: int| 0 <= i < k ==> !label.is_prefix_of(text::trimmed(#[trigger] ls[i])),
    ensures
        k == ls.len() ==> docker::labelled(ls, label) is None,
        k < ls.len() && label.is_prefix_of(text::trimmed(ls[k])) ==> docker::labelled(ls, label)
            == Some(text::trimmed(text::trimmed(ls[k]).skip(label.len() as int))),
    decreases k,
{
    if k > 0 {
        assert(!label.is_prefix_of(text::trimmed(ls[0])));
        let w = ls.drop_first();
        assert forall|i: int| 0 <= i < k - 1 implies !label.is_prefix_of(
            text::trimmed(#[trigger] w[i]),
        ) by {
            assert(w[i] == ls[i + 1]);
        }
        lemma_labelled(w, label, k - 1);
    }
}

/// The digest of the registry stands behind its label, in the first line that has one.
pub proof fn the_registry_labels_its_digest(
    stdout: &str,
    value: Seq<char>,
    k: int,
    r: Option<String>,
)
    requires
        call_ensures(docker::get_remote_digest, (stdout,), r),
        0 <= k <= lines::lines(stdout@).len(),
        forall|i: int|
            0 <= i < k ==> !"Digest:"@.is_prefix_of(
                text::trimmed(#[trigger] lines::lines(stdout@)[i]),
            ),
    ensures
        k == lines::lines(stdout@).len() ==> r is None,
        k < lines::lines(stdout@).len() && text::trimmed(lines::lines(stdout@)[k]) == "Digest:"@
            + value ==> paths::opt(r) == Some(text::trimmed(value)),
{
    lemma_labelled(lines::lines(stdout@), "Digest:"@, k);
    if k < lines::lines(stdout@).len() && text::trimmed(lines::lines(stdout@)[k]) == "Digest:"@
        + value {
        let n = "Digest:"@.len() as int;
        let l = "Digest:"@ + value;
        assert(l.subrange(0, n) =~= "Digest:"@);
        assert(l.skip(n) =~= value);
    }
}

proof fn lemma_filled(pieces: Seq<Seq<char>>, s: Seq<char>)
    ensures
        lines::filled(pieces).contains(s) <==> pieces.contains(s) && s.len() > 0,
    decreases pieces.len(),
{
    if pieces.len() > 0 {
        let w = pieces.drop_last();
        lemma_filled(w, s);
        vstd::seq_lib::lemma_seq_contains_after_push(w, pieces.last(), s);
        assert(w.push(pieces.last()) =~= pieces);
        vstd::seq_lib::lemma_seq_contains_after_push(lines::filled(w), pieces.last(), s);
    }
}

/// The images of a project are the lines that are not blank, without the white space around them.
pub proof fn every_image_is_listed(stdout: &str, r: Vec<String>, s: Seq<char>)
    requires
        call_ensures(docker::list_compose_images, (stdout,), r),
    ensures
        text::texts(r@).contains(s) <==> s.len() > 0 && exists|i: int|
            0 <= i < lines::lines(stdout@).len() && text::trimmed(
                #[trigger] lines::lines(stdout@)[i],
            ) == s,
{
    let all = lines::lines(stdout@);
    let t = all.map_values(|l: Seq<char>| text::trimmed(l));
    lemma_filled(t, s);
    if t.contains(s) {
        let i = choose|i: int| 0 <= i < t.len() && t[i] == s;
        assert(text::trimmed(all[i]) == s);
    }
    if exists|i: int| 0 <= i < all.len() && text::trimmed(#[trigger] all[i]) == s {
        let i = choose|i: int| 0 <= i < all.len() && text::trimmed(#[trigger] all[i]) == s;
        assert(t[i] == s);
    }
}

proof fn lemma_known(images: Seq<Seq<char>>, results: Seq<Option<bool>>, x: (Seq<char>, bool))
    requires
        images.len() <= results.len(),
    ensures
        docker::known_statuses(images, results).contains(x) <==> exists|i: int|
            0 <= i < images.len() && #[trigger] images[i] == x.0 && results[i] == Some(x.1),
    decreases images.len(),
{
    if images.len() > 0 {
        let w = images.drop_last();
        let n = images.len() - 1;
        lemma_known(w, results, x);
        let before = docker::known_statuses(w, results);
        if let Some(o) = results[n] {
            vstd::seq_lib::lemma_seq_contains_after_push(before, (images.last(), o), x);
        }
        if exists|i: int|
            0 <= i < w.len() && #[trigger] w[i] == x.0 && results[i] == Some(x.1) {
            let i = choose|i: int|
                0 <= i < w.len() && #[trigger] w[i] == x.0 && results[i] == Some(x.1);
            assert(images[i] == x.0);
        }
        if exists|i: int|
            0 <= i < images.len() && #[trigger] images[i] == x.0 && results[i] == Some(x.1) {
            let i = choose|i: int|
                0 <= i < images.len() && #[trigger] images[i] == x.0 && results[i] == Some(x.1);
            if i < n {
                assert(w[i] == x.0);
            }
        }
        assert(images[n] == images.last());
    }
}

/// Every image that could be compared is told with its own result, and no other one; the check
/// counts as done where there was one.
pub proof fn every_compared_image_is_told(
    images: &Vec<String>,
    results: &Vec<Option<bool>>,
    r: (Vec<ImageStatus>, bool),
    image: Seq<char>,
    outdated: bool,
)
    requires
        images@.len() == results@.len(),
        call_ensures(docker::check_outdated_images, (images, results), r),
    ensures
        docker::statuses_view(r.0@).contains((image, outdated)) <==> exists|i: int|
            0 <= i < images@.len() && (#[trigger] images@[i])@ == image && results@[i] == Some(
                outdated,
            ),
        r.1 <==> r.0@.len() > 0,
{
    let t = text::texts(images@);
    let x = (image, outdated);
    lemma_known(t, results@, x);
    assert(docker::statuses_view(r.0@).len() == r.0@.len());
    if exists|i: int| 0 <= i < t.len() && #[trigger] t[i] == image && results@[i] == Some(outdated) {
        let i = choose|i: int|
            0 <= i < t.len() && #[trigger] t[i] == image && results@[i] == Some(outdated);
        assert(images@[i]@ == image);
    }
    if exists|i: int|
        0 <= i < images@.len() && (#[trigger] images@[i])@ == image && results@[i] == Some(
            outdated,
        ) {
        let i = choose|i: int|
            0 <= i < images@.len() && (#[trigger] images@[i])@ == image && results@[i] == Some(
                outdated,
            );
        assert(t[i] == image);
    }
}

/// A project runs where a service of it is listed as running.
pub proof fn a_project_runs_where_a_service_does(stdout: Option<&str>, r: bool)
    requires
        call_ensures(docker::is_running, (stdout,), r),
    ensures
        stdout is None ==> !r,
        stdout matches Some(s) ==> (r <==> text::trimmed(s@).len() > 0),
{
}

// ---------------------------------------------------------------- servers

/// A command runs on the server as its user, in one piece; a file goes from here to the server.
pub proof fn a_server_is_reached_as_its_user(
    user: &str,
    domain: &str,
    command: &str,
    src: &str,
    dest: &str,
    ssh_args: Vec<String>,
    scp_args: Vec<String>,
)
    requires
        call_ensures(ssh::exec_ssh, (user, domain, command), ssh_args),
        call_ensures(ssh::copy_ssh, (user, domain, src, dest), scp_args),
    ensures
        ({
            let a = text::texts(ssh_args@);
            let b = text::texts(scp_args@);
            let n = a.len() as int;
            &&& n > 2 && a[n - 3] == user@ + "@"@ + domain@ && a[n - 2] == "--"@ && a[n - 1]
                == command@
            &&& b.len() > 1 && b[b.len() - 2] == src@ && b.last() == user@ + "@"@ + domain@ + ":"@
                + dest@
            &&& adjacent(a, "-o"@, "StrictHostKeyChecking=accept-new"@)
            &&& adjacent(b, "-o"@, "StrictHostKeyChecking=accept-new"@)
            &&& a.contains("-tA"@) && b.contains("-A"@)
        }),
{
    let a = text::texts(ssh_args@);
    let b = text::texts(scp_args@);
    assert(a[2] == "-o"@ && a[3] == "StrictHostKeyChecking=accept-new"@);
    assert(b[0] == "-o"@ && b[1] == "StrictHostKeyChecking=accept-new"@);
    assert(a[4] == "-tA"@);
    assert(b[2] == "-A"@);
}

/// A call to a server that failed is an error, and only such a one.
pub proof fn a_failed_call_is_an_error(
    success: bool,
    status: &str,
    r: Result<(), String>,
    s: Result<(), String>,
)
    requires
        call_ensures(ssh::ssh_result, (success, status), r),
        call_ensures(ssh::copy_result, (success, status), s),
    ensures
        r is Ok <==> success,
        s is Ok <==> success,
{
}

// ---------------------------------------------------------------- files of the tool

/// A part of the tool lies with the installation where it is there, and otherwise in the
/// configuration; no part lies where another one does.
pub proof fn shared_files_come_first(
    assets: &AssetManager,
    existing: &Vec<String>,
    template: String,
    ingress: String,
    manual: String,
)
    requires
        call_ensures(AssetManager::get_template_dir, (assets, existing), template),
        call_ensures(AssetManager::get_ingress_dir, (assets, existing), ingress),
        call_ensures(AssetManager::get_manual_path, (assets, existing), manual),
    ensures
        ({
            let there = text::texts(existing@);
            &&& assets.share_dir matches Some(s) ==> {
                &&& there.contains(paths::below(s@, "template"@)) ==> template@ == paths::below(
                    s@,
                    "template"@,
                )
                &&& there.contains(paths::below(s@, "ingress"@)) ==> ingress@ == paths::below(
                    s@,
                    "ingress"@,
                )
                &&& there.contains(paths::below(s@, "USER-MANUAL.pdf"@)) ==> manual@
                    == paths::below(s@, "USER-MANUAL.pdf"@)
                &&& !there.contains(paths::below(s@, "template"@)) ==> template@ == paths::below(
                    assets.config_dir@,
                    "template"@,
                )
                &&& !there.contains(paths::below(s@, "ingress"@)) ==> ingress@ == paths::below(
                    assets.config_dir@,
                    "ingress"@,
                )
            }
            &&& assets.share_dir is None ==> template@ == paths::below(
                assets.config_dir@,
                "template"@,
            ) && ingress@ == paths::below(assets.config_dir@, "ingress"@) && manual@
                == paths::below(assets.config_dir@, "USER-MANUAL.pdf"@)
        }),
{
}

/// The files are written to the configuration once for each version, and never where an
/// installation shares them.
pub proof fn shared_files_are_not_written(
    assets: &AssetManager,
    version: Option<&str>,
    current: &str,
    r: bool,
)
    requires
        call_ensures(AssetManager::ensure_assets, (assets, version, current), r),
    ensures
        assets.share_dir is Some ==> !r,
        assets.share_dir is None && version is None ==> r,
        assets.share_dir is None && version is Some ==> (r <==> text::trimmed(version->0@)
            != current@),
{
}

/// The directory that an installation shares counts only where it exists.
pub proof fn only_an_existing_directory_is_shared(
    config: &str,
    share: Option<&str>,
    existing: &Vec<String>,
    r: AssetManager,
)
    requires
        call_ensures(AssetManager::new, (config, share, existing), r),
    ensures
        r.config_dir@ == config@,
        r.share_dir matches Some(s) ==> text::texts(existing@).contains(s@) && share is Some
            && share->0@ == s@,
        share is Some && text::texts(existing@).contains(share->0@) ==> r.share_dir is Some,
{
}

/// The files that an installation shares lie beside the directory of its programs.
pub proof fn shared_files_lie_beside_the_programs(
    exe: &str,
    prefix: Seq<char>,
    name: Seq<char>,
    r: Option<String>,
)
    requires
        call_ensures(crate::assets::share_candidate, (exe,), r),
        exe@ == prefix + "/"@ + "bin"@ + "/"@ + name,
        prefix.len() > 0,
        prefix.last() != '/',
        prefix.last() != '.',
        name.len() > 0,
        !name.contains('/'),
        name != "."@,
        name != ".."@,
    ensures
        paths::opt(r) == Some(prefix + "/"@ + "share"@ + "/"@ + "docker-control"@),
{
    reveal_strlit("/");
    reveal_strlit("bin");
    reveal_strlit("share");
    reveal_strlit("docker-control");
    assert("/"@ =~= seq!['/']);
    let bin = prefix + seq!['/'] + "bin"@;
    assert(bin.last() == 'n');
    assert(exe@ =~= bin + seq!['/'] + name);
    lemma_parent(exe@, bin, name);
    reveal_strlit(".");
    reveal_strlit("..");
    assert("bin"@.len() == 3);
    assert(!"bin"@.contains('/')) by {
        assert("bin"@[0] == 'b' && "bin"@[1] == 'i' && "bin"@[2] == 'n');
    }
    lemma_parent(bin, prefix, "bin"@);
    assert("share"@[0] == 's' && "docker-control"@[0] == 'd');
    let a = prefix + seq!['/'] + "share"@;
    assert(a.last() == 'e');
}

proof fn lemma_parent(path: Seq<char>, dir: Seq<char>, name: Seq<char>)
    requires
        path == dir + seq!['/'] + name,
        name.len() > 0,
        !name.contains('/'),
        name != "."@,
        dir.len() > 0,
        dir.last() != '/',
        dir.last() != '.',
    ensures
        paths::parent_of(path) == Some(dir),
{
    reveal_strlit(".");
    assert(path.last() == name.last());
    assert(name[name.len() - 1] != '/');
    if name.last() == '.' {
        if name.len() == 1 {
            assert(name =~= "."@);
        } else {
            assert(path[path.len() - 2] == name[name.len() - 2]);
        }
    }
    reveal_with_fuel(paths::settled, 3);
    assert(paths::settled(path) == path);
    text::cut_last_of_both(dir, '/', name);
    assert(path.len() > 1);
    let d = dir + seq!['/'];
    assert(d.drop_last() =~= dir);
}

/// A manual that an installation shares is used as it is; any other is written where it differs.
pub proof fn a_shared_manual_is_not_written(
    assets: &AssetManager,
    existing: &Vec<String>,
    current: bool,
    manual: String,
    r: (String, bool),
)
    requires
        call_ensures(AssetManager::get_manual_path, (assets, existing), manual),
        call_ensures(AssetManager::ensure_manual, (assets, existing, current), r),
    ensures
        r.0@ == manual@,
        current ==> !r.1,
        assets.share_dir is None ==> (r.1 <==> !current),
{
}

} // verus!
