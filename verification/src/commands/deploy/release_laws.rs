//! What holds of making and announcing a release as a whole.
use vstd::prelude::*;

use crate::commands::deploy;
use crate::commands::deploy::archive;
use crate::commands::deploy::notify;
use crate::commands::deploy::rollout::Environment;
use crate::commands::deploy::{ActionView, DeployAction};
use crate::json;
use crate::lines;
use crate::paths;
use crate::table::Table;
use crate::text;

verus! {

// ---------------------------------------------------------------- the settings

/// Whether a line sets a key: the key stands before its first equals sign.
pub open spec fn sets(line: Seq<char>, key: Seq<char>) -> bool {
    exists|k: Seq<char>, v: Seq<char>|
        line == #[trigger] (k + seq!['='] + v) && !k.contains('=') && text::trimmed(k) == key
}

/// Whether a value has neither white space nor a quote at its ends.
pub open spec fn bare(v: Seq<char>) -> bool {
    v.len() > 0 ==> !text::is_white(v[0]) && !text::is_white(v.last()) && v[0] != '"' && v.last()
        != '"' && v[0] != '\'' && v.last() != '\''
}

proof fn lemma_untrimmed(s: Seq<char>)
    requires
        s.len() > 0 ==> !text::is_white(s[0]) && !text::is_white(s.last()),
    ensures
        text::trimmed(s) == s,
{
    reveal_with_fuel(text::trim_start, 2);
    reveal_with_fuel(text::trim_end, 2);
}

proof fn lemma_bare(v: Seq<char>)
    requires
        bare(v),
    ensures
        deploy::unquoted(v) == v,
        deploy::unquoted(seq!['"'] + v + seq!['"']) == v,
{
    reveal_with_fuel(text::without_ends, 3);
    reveal_with_fuel(text::without_end, 3);
    lemma_untrimmed(v);
    let q = seq!['"'] + v + seq!['"'];
    assert(q[0] == '"' && q.last() == '"');
    lemma_untrimmed(q);
    assert(q.drop_first() =~= v + seq!['"']);
    assert((v + seq!['"']).drop_last() =~= v);
    assert((v + seq!['"']).last() == '"');
    if v.len() > 0 {
        assert((v + seq!['"'])[0] == v[0]);
    } else {
        assert((v + seq!['"']) =~= seq!['"']);
        assert(seq!['"'].drop_first() =~= v);
    }
}

proof fn lemma_first_setting(all: Seq<Seq<char>>, key: Seq<char>, k: int)
    requires
        0 <= k <= all.len(),
        forall|i: int| 0 <= i < k ==> !sets(#[trigger] all[i], key),
    ensures
        k == all.len() ==> deploy::env_value(all, key) is None,
        k < all.len() ==> forall|n: Seq<char>, v: Seq<char>|
            all[k] == #[trigger] (n + seq!['='] + v) && !n.contains('=') && text::trimmed(n) == key
                ==> deploy::env_value(all, key) == Some(deploy::unquoted(v)),
    decreases k,
{
    if k > 0 {
        assert(!sets(all[0], key));
        if let Some((a, b)) = text::cut(all[0], '=') {
            all[0].index_of_first_ensures('=');
            let i = all[0].index_of_first('=')->0;
            assert(all[0] =~= a + seq!['='] + b);
            if a.contains('=') {
                let j = choose|j: int| 0 <= j < a.len() && a[j] == '=';
                assert(all[0][j] == '=');
            }
        }
        let w = all.drop_first();
        assert forall|i: int| 0 <= i < k - 1 implies !sets(#[trigger] w[i], key) by {
            assert(w[i] == all[i + 1]);
        }
        lemma_first_setting(w, key, k - 1);
        if k < all.len() {
            assert(w[k - 1] == all[k]);
        }
    } else if all.len() > 0 {
        assert forall|n: Seq<char>, v: Seq<char>|
            all[k] == #[trigger] (n + seq!['='] + v) && !n.contains('=') && text::trimmed(n)
                == key implies deploy::env_value(all, key) == Some(deploy::unquoted(v)) by {
            text::cut_of_both(n, '=', v);
        }
    }
}

/// The first line that sets a key tells its value, with or without quotes around it, and where
/// no line does there is none.
pub proof fn the_first_line_that_sets_a_key_counts(
    content: &str,
    key: &str,
    value: Seq<char>,
    k: int,
    r: Option<String>,
)
    requires
        call_ensures(deploy::get_env_var, (Some(content), key), r),
        0 <= k <= lines::lines(content@).len(),
        forall|i: int| 0 <= i < k ==> !sets(#[trigger] lines::lines(content@)[i], key@),
        bare(value),
        text::trimmed(key@) == key@,
        !key@.contains('='),
    ensures
        k == lines::lines(content@).len() ==> r is None,
        k < lines::lines(content@).len() && lines::lines(content@)[k] == key@ + seq!['='] + value
            ==> paths::opt(r) == Some(value),
        k < lines::lines(content@).len() && lines::lines(content@)[k] == key@ + seq!['='] + (seq![
            '"',
        ] + value + seq!['"']) ==> paths::opt(r) == Some(value),
{
    lemma_first_setting(lines::lines(content@), key@, k);
    lemma_bare(value);
}

/// Where the environment cannot be read, nothing is set.
pub proof fn an_unread_environment_sets_nothing(key: &str, r: Option<String>)
    requires
        call_ensures(deploy::get_env_var, (None::<&str>, key), r),
    ensures
        r is None,
{
}

/// The settings that a deployment goes by are those of the project's environment, with the usual
/// values where nothing is set; the key agent of the caller comes before that of the project.
pub proof fn a_deployment_goes_by_the_settings(
    content: Option<&str>,
    env: Option<&str>,
    php_set: Option<String>,
    port_set: Option<String>,
    php: String,
    port: String,
)
    requires
        call_ensures(deploy::get_env_var, (content, "PHP_VERSION"), php_set),
        call_ensures(deploy::get_env_var, (content, "SSH_AUTH_PORT"), port_set),
        call_ensures(archive::php_version, (content,), php),
        call_ensures(archive::ssh_auth_port, (env, content), port),
    ensures
        php_set matches Some(v) ==> php@ == v@,
        php_set is None ==> php@ == "8.2"@,
        env matches Some(e) ==> port@ == e@,
        env is None && port_set is Some ==> port@ == port_set->0@,
        env is None && port_set is None ==> port@ == "host.docker.internal:2222"@,
{
}

/// A project is called what its environment says, or else what its directory is called.
pub proof fn a_project_has_a_name(
    content: Option<&str>,
    dir: &str,
    set: Option<String>,
    file: Option<String>,
    r: String,
)
    requires
        call_ensures(deploy::get_env_var, (content, "PROJECTNAME"), set),
        call_ensures(paths::file_name, (dir,), file),
        call_ensures(deploy::get_project_name, (content, dir), r),
    ensures
        set matches Some(n) ==> r@ == n@,
        set is None && file is Some ==> r@ == file->0@,
        set is None && file is None ==> r@ == Seq::<char>::empty(),
{
}

// ---------------------------------------------------------------- the hooks

/// The hook script of a server is one that exists; that of the application comes before that of
/// the deployments, and both are called after the server.
pub proof fn the_hooks_of_the_application_come_first(
    project_dir: &str,
    env_name: &str,
    existing: &Vec<String>,
    places: Vec<String>,
    r: Option<String>,
)
    requires
        call_ensures(deploy::hook_candidates, (project_dir, env_name), places),
        call_ensures(deploy::find_hook_file, (project_dir, env_name, existing), r),
        project_dir@.len() > 0,
        project_dir@.last() != '/',
        env_name@.len() > 0,
        env_name@[0] != '/',
    ensures
        ({
            let own = project_dir@ + "/"@ + "htdocs/.docker-control/deployment-scripts"@ + "/"@
                + env_name@ + ".rhai"@;
            let other = project_dir@ + "/"@ + "deployments/scripts"@ + "/"@ + env_name@ + ".rhai"@;
            let there = text::texts(existing@);
            &&& text::texts(places@) == seq![own, other]
            &&& there.contains(own) ==> paths::opt(r) == Some(own)
            &&& !there.contains(own) && there.contains(other) ==> paths::opt(r) == Some(other)
            &&& !there.contains(own) && !there.contains(other) ==> r is None
        }),
{
    reveal_strlit("/");
    reveal_strlit("htdocs/.docker-control/deployment-scripts");
    reveal_strlit("deployments/scripts");
    assert("/"@ =~= seq!['/']);
    let own = project_dir@ + "/"@ + "htdocs/.docker-control/deployment-scripts"@ + "/"@ + env_name@
        + ".rhai"@;
    let other = project_dir@ + "/"@ + "deployments/scripts"@ + "/"@ + env_name@ + ".rhai"@;
    let file = env_name@ + ".rhai"@;
    assert(file[0] == env_name@[0]);
    let a = project_dir@ + seq!['/'] + "htdocs/.docker-control/deployment-scripts"@;
    assert(a.last() == 's');
    assert(a + seq!['/'] + file =~= own);
    let b = project_dir@ + seq!['/'] + "deployments/scripts"@;
    assert(b.last() == 's');
    assert(b + seq!['/'] + file =~= other);
    let all = deploy::hook_files(project_dir@, env_name@);
    assert(all =~= seq![own, other]);
    reveal_with_fuel(paths::first_existing, 3);
    assert(all.drop_first() =~= seq![other]);
    assert(all.drop_first().drop_first() =~= Seq::<Seq<char>>::empty());
}

// ---------------------------------------------------------------- the archive

/// Whether two arguments stand side by side.
pub open spec fn side_by_side(args: Seq<Seq<char>>, a: Seq<char>, b: Seq<char>) -> bool {
    exists|i: int| 0 <= i < args.len() - 1 && #[trigger] args[i] == a && args[i + 1] == b
}

/// The packages are installed by a container of the project's PHP version that is thrown away, as
/// the calling user, with the files of the release as its application and the project's cache.
pub proof fn the_packages_are_installed_into_the_release(
    project_dir: &str,
    staging: &str,
    user_id: &str,
    php: &str,
    port: &str,
    r: Vec<String>,
)
    requires
        call_ensures(
            archive::create_deployment_archive,
            (project_dir, staging, user_id, php, port),
            r,
        ),
    ensures
        ({
            let a = text::texts(r@);
            &&& a.len() > 4 && a[0] == "run"@ && a.contains("--rm"@)
            &&& side_by_side(a, "-u"@, user_id@)
            &&& side_by_side(a, "-v"@, staging@ + ":/var/www/html"@)
            &&& side_by_side(
                a,
                "-v"@,
                project_dir@ + "/volumes/composer-cache:/var/www/.composer/cache"@,
            )
            &&& side_by_side(a, "-e"@, "SSH_AUTH_PORT="@ + port@)
            &&& a[a.len() - 4] == "fduarte42/docker-php:"@ + php@
            &&& a[a.len() - 3] == "bash"@ && a[a.len() - 2] == "-c"@
            &&& a.last()
                == "git config --global --add safe.directory /var/www/html; /docker-php-init; composer i -o"@
        }),
{
    let a = text::texts(r@);
    assert(a[1] == "--rm"@);
    assert(a[2] == "-u"@ && a[3] == user_id@);
    assert(a[6] == "-e"@ && a[7] == "SSH_AUTH_PORT="@ + port@);
    assert(a[12] == "-v"@ && a[13] == project_dir@
        + "/volumes/composer-cache:/var/www/.composer/cache"@);
    assert(a[14] == "-v"@ && a[15] == staging@ + ":/var/www/html"@);
}

/// What is packed are the files of the release, without the directory that they lie in.
pub proof fn the_files_of_the_release_are_packed(archive_path: &str, staging: &str, r: Vec<String>)
    requires
        call_ensures(archive::pack_args, (archive_path, staging), r),
    ensures
        text::texts(r@).len() == 3,
        text::texts(r@)[0] == "a"@,
        text::texts(r@)[1] == archive_path@,
        text::texts(r@)[2] == staging@ + "/."@,
{
}

/// There is an archive only where its packages were installed and its files were packed.
pub proof fn an_archive_is_whole(installed: bool, packed: bool, r: Result<(), String>)
    requires
        call_ensures(archive::archive_result, (installed, packed), r),
    ensures
        r is Ok <==> installed && packed,
{
}

/// The files of a release are put together beside its archive, apart from those of any other
/// release.
pub proof fn releases_are_put_together_apart(
    project_dir: &str,
    one: &str,
    other: &str,
    r: String,
    s: String,
)
    requires
        call_ensures(archive::staging_dir, (project_dir, one), r),
        call_ensures(archive::staging_dir, (project_dir, other), s),
        project_dir@.len() > 0,
        project_dir@.last() != '/',
    ensures
        r@ == project_dir@ + "/"@ + "deployments"@ + "/"@ + "temp_"@ + one@,
        r@ == s@ <==> one@ == other@,
{
    reveal_strlit("/");
    reveal_strlit("deployments");
    reveal_strlit("temp_");
    assert("/"@ =~= seq!['/']);
    let d = project_dir@ + seq!['/'] + "deployments"@;
    assert(d.last() == 's');
    let a = "temp_"@ + one@;
    let b = "temp_"@ + other@;
    assert(a[0] == 't' && b[0] == 't');
    assert(r@ =~= project_dir@ + "/"@ + "deployments"@ + "/"@ + "temp_"@ + one@);
    if r@ == s@ {
        let n = d.len() as int + 6;
        assert(r@.skip(n) =~= one@);
        assert(s@.skip(n) =~= other@);
    }
}

// ---------------------------------------------------------------- the message

/// Whether a text stands in another one.
pub open spec fn holds(s: Seq<char>, part: Seq<char>) -> bool {
    exists|a: Seq<char>, b: Seq<char>| s == #[trigger] (a + part + b)
}

/// The message to the team says which release of which project went to which server, how it went
/// and what it changes, and shows a failure in another colour than a success.
pub proof fn the_team_learns_everything(
    project: &str,
    env: &str,
    release: &str,
    status: &str,
    changelog: &str,
    color: String,
    r: String,
)
    requires
        call_ensures(notify::color_of, (status,), color),
        call_ensures(notify::send_teams_notification, (project, env, release, status, changelog), r),
    ensures
        holds(
            r@,
            "{\"name\":"@ + json::json_quoted("Project"@) + ",\"value\":"@ + json::json_quoted(project@)
                + "}"@,
        ),
        holds(
            r@,
            "{\"name\":"@ + json::json_quoted("Environment"@) + ",\"value\":"@ + json::json_quoted(env@)
                + "}"@,
        ),
        holds(
            r@,
            "{\"name\":"@ + json::json_quoted("Release"@) + ",\"value\":"@ + json::json_quoted(release@)
                + "}"@,
        ),
        holds(
            r@,
            "{\"name\":"@ + json::json_quoted("Status"@) + ",\"value\":"@ + json::json_quoted(status@)
                + "}"@,
        ),
        holds(r@, "\"text\":"@ + json::json_quoted(changelog@)),
        holds(r@, "\"themeColor\":"@ + json::json_quoted(color@)),
        holds(
            r@,
            ",\"summary\":"@ + json::json_quoted(
                "Deployment "@ + status@ + " - "@ + project@ + " ["@ + env@ + "]"@,
            ),
        ),
        status@ == "success"@ ==> color@ == "00FF00"@,
        status@ == "failed"@ ==> color@ == "FF0000"@,
        status@ == "started"@ ==> color@ == "0078D4"@,
{
    reveal_strlit("success");
    reveal_strlit("failed");
    reveal_strlit("started");
    assert("success"@[1] == 'u' && "started"@[1] == 't');
    let all = notify::body(project@, env@, release@, status@, changelog@);
    let t = json::json_quoted(notify::title(status@, project@, env@));
    let open = "{\"@context\":\"http://schema.org/extensions\",\"@type\":\"MessageCard\",\"sections\":[{\"activityTitle\":"@
        + t + ",\"facts\":["@;
    let f1 = notify::fact("Project"@, project@);
    let f2 = notify::fact("Environment"@, env@);
    let f3 = notify::fact("Release"@, release@);
    let f4 = notify::fact("Status"@, status@);
    let x = json::json_quoted(changelog@);
    let c = json::json_quoted(color@);
    let tail = "],\"text\":"@ + x + "}],\"summary\":"@ + t + ",\"themeColor\":"@ + c + "}"@;
    lemma_parts(all, open, f1, f2, f3, f4, tail);
    lemma_tail(x, t, c);
    let front = open + f1 + ","@ + f2 + ","@ + f3 + ","@ + f4;
    lemma_holds_behind(front, tail, "\"text\":"@ + x);
    lemma_holds_behind(front, tail, ",\"summary\":"@ + t);
    lemma_holds_behind(front, tail, "\"themeColor\":"@ + c);
}

proof fn lemma_holds_behind(front: Seq<char>, tail: Seq<char>, part: Seq<char>)
    requires
        holds(tail, part),
    ensures
        holds(front + tail, part),
{
    let (a, b) = choose|a: Seq<char>, b: Seq<char>| tail == #[trigger] (a + part + b);
    assert(front + tail =~= (front + a) + part + b);
}

proof fn lemma_tail(x: Seq<char>, t: Seq<char>, c: Seq<char>)
    ensures
        ({
            let tail = "],\"text\":"@ + x + "}],\"summary\":"@ + t + ",\"themeColor\":"@ + c + "}"@;
            &&& holds(tail, "\"text\":"@ + x)
            &&& holds(tail, ",\"summary\":"@ + t)
            &&& holds(tail, "\"themeColor\":"@ + c)
        }),
{
    reveal_strlit("],\"text\":");
    reveal_strlit("\"text\":");
    reveal_strlit("}],\"summary\":");
    reveal_strlit(",\"summary\":");
    reveal_strlit(",\"themeColor\":");
    reveal_strlit("\"themeColor\":");
    let tail = "],\"text\":"@ + x + "}],\"summary\":"@ + t + ",\"themeColor\":"@ + c + "}"@;
    assert("],\"text\":"@ =~= seq![']', ','] + "\"text\":"@);
    assert("}],\"summary\":"@ =~= seq!['}', ']'] + ",\"summary\":"@);
    assert(",\"themeColor\":"@ =~= seq![','] + "\"themeColor\":"@);
    let behind = "}],\"summary\":"@ + t + ",\"themeColor\":"@ + c + "}"@;
    assert(tail =~= seq![']', ','] + ("\"text\":"@ + x) + behind);
    let rest = ",\"themeColor\":"@ + c + "}"@;
    assert(tail =~= ("],\"text\":"@ + x + seq!['}', ']']) + (",\"summary\":"@ + t) + rest);
    assert(tail =~= ("],\"text\":"@ + x + "}],\"summary\":"@ + t + seq![',']) + ("\"themeColor\":"@
        + c) + "}"@);
}

proof fn lemma_parts(
    all: Seq<char>,
    open: Seq<char>,
    f1: Seq<char>,
    f2: Seq<char>,
    f3: Seq<char>,
    f4: Seq<char>,
    tail: Seq<char>,
)
    requires
        all =~= open + f1 + ","@ + f2 + ","@ + f3 + ","@ + f4 + tail,
    ensures
        all == (open + f1 + ","@ + f2 + ","@ + f3 + ","@ + f4) + tail,
        holds(all, f1),
        holds(all, f2),
        holds(all, f3),
        holds(all, f4),
{
    assert(all =~= open + f1 + (","@ + f2 + ","@ + f3 + ","@ + f4 + tail));
    assert(all =~= (open + f1 + ","@) + f2 + (","@ + f3 + ","@ + f4 + tail));
    assert(all =~= (open + f1 + ","@ + f2 + ","@) + f3 + (","@ + f4 + tail));
    assert(all =~= (open + f1 + ","@ + f2 + ","@ + f3 + ","@) + f4 + tail);
}

// ---------------------------------------------------------------- the course of a deployment

/// Whether one thing is done before another.
pub open spec fn earlier(s: Seq<ActionView>, a: ActionView, b: ActionView) -> bool {
    exists|i: int, j: int| 0 <= i < j < s.len() && #[trigger] s[i] == a && #[trigger] s[j] == b
}

/// The team hears of a deployment before anything is made, and the archive is made last, in a
/// directory that is there; nothing is rolled out or removed yet.
pub proof fn a_deployment_begins_with_its_archive(
    project_dir: &str,
    env: &Environment,
    release_dir: &str,
    changelog: &str,
    dir_exists: bool,
    r: Vec<DeployAction>,
)
    requires
        call_ensures(deploy::execute, (project_dir, env, release_dir, changelog, dir_exists), r),
        project_dir@.len() > 0,
        project_dir@.last() != '/',
        release_dir@.len() > 0,
        release_dir@[0] != '/',
    ensures
        ({
            let s = deploy::done(r@);
            let dir = project_dir@ + "/"@ + "deployments"@;
            &&& s.len() > 0 && s.last() == ActionView::Archive(
                dir + "/"@ + release_dir@ + ".7z"@,
            )
            &&& env.teams_webhook_url is Some <==> s[0] == (ActionView::Notify {
                status: "started"@,
                text: changelog@,
            })
            &&& !dir_exists <==> s.contains(ActionView::MakeDir(dir))
            &&& !dir_exists ==> earlier(s, ActionView::MakeDir(dir), s.last())
            &&& forall|i: int|
                0 <= i < s.len() ==> !((#[trigger] s[i]) is Rollout) && !(s[i] is RemoveFile)
                    && !(s[i] is Fail) && !(s[i] is Succeed) && (s[i] is Archive ==> i == s.len()
                    - 1)
        }),
{
    reveal_strlit("/");
    reveal_strlit("deployments");
    assert("/"@ =~= seq!['/']);
    let s = deploy::done(r@);
    let dir = project_dir@ + "/"@ + "deployments"@;
    assert(dir.last() == 's');
    let file = release_dir@ + ".7z"@;
    assert(file[0] == release_dir@[0]);
    assert(dir + seq!['/'] + file =~= dir + "/"@ + release_dir@ + ".7z"@);
    assert(deploy::deployments_dir(project_dir@) =~= dir);
    if !dir_exists {
        assert(s[s.len() - 2] == ActionView::MakeDir(dir));
        assert(s[s.len() - 1] == s.last());
    }
}

/// Only an archive that was made is rolled out, and it is that one; otherwise the deployment
/// fails, and the team learns of it where it has an address.
pub proof fn only_a_made_archive_is_rolled_out(
    env: &Environment,
    path: &str,
    error: Option<&str>,
    r: Vec<DeployAction>,
)
    requires
        call_ensures(deploy::after_archive, (env, path, error), r),
    ensures
        ({
            let s = deploy::done(r@);
            &&& error is None ==> s == seq![ActionView::Rollout(path@)]
            &&& error matches Some(e) ==> s.len() > 0 && s.last() == ActionView::Fail(e@)
            &&& error is Some ==> forall|i: int|
                0 <= i < s.len() ==> !((#[trigger] s[i]) is Rollout)
            &&& error is Some && env.teams_webhook_url is Some ==> s[0] == (ActionView::Notify {
                status: "failed"@,
                text: "Archive creation failed: "@ + error->0@,
            })
            &&& env.teams_webhook_url is None ==> forall|i: int|
                0 <= i < s.len() ==> !((#[trigger] s[i]) is Notify)
        }),
{
}

/// The archive does not outlive its deployment, however that went; the deployment ends as its
/// rollout did, and the team hears just that.
pub proof fn a_deployment_ends_as_its_rollout(
    env: &Environment,
    path: &str,
    changelog: &str,
    error: Option<&str>,
    r: Vec<DeployAction>,
)
    requires
        call_ensures(deploy::after_rollout, (env, path, changelog, error), r),
    ensures
        ({
            let s = deploy::done(r@);
            &&& s.len() > 1 && s[0] == ActionView::RemoveFile(path@)
            &&& error is None <==> s.last() is Succeed
            &&& error matches Some(e) ==> s.last() == ActionView::Fail(e@)
            &&& env.teams_webhook_url is Some ==> s.len() == 3 && s[1] == (if error is None {
                ActionView::Notify { status: "success"@, text: changelog@ }
            } else {
                ActionView::Notify {
                    status: "failed"@,
                    text: "Deployment failed: "@ + error->0@,
                }
            })
            &&& env.teams_webhook_url is None ==> forall|i: int|
                0 <= i < s.len() ==> !((#[trigger] s[i]) is Notify)
        }),
{
    let s = deploy::done(r@);
    if env.teams_webhook_url is Some {
        assert(s[1] is Notify);
    }
}

/// A release that names a way up is refused; any other one has a directory that stays below those
/// of the releases and tells both when it was made and what it is.
pub proof fn no_release_leads_out(
    timestamp: &str,
    release: &str,
    r: Result<(), String>,
    dir: String,
)
    requires
        call_ensures(deploy::check_release, (release,), r),
        call_ensures(deploy::release_dir, (timestamp, release), dir),
        !timestamp@.contains('/'),
    ensures
        r is Ok ==> !lines::split(dir@, '/').contains(".."@),
        r is Err <==> lines::split(release@, '/').contains(".."@),
        timestamp@.is_prefix_of(dir@),
        release@.is_suffix_of(dir@),
{
    if r is Ok {
        deploy::a_release_stays_below_the_releases(timestamp@, release@);
    }
    assert(dir@.subrange(0, timestamp@.len() as int) =~= timestamp@);
    assert(dir@.subrange(dir@.len() - release@.len(), dir@.len() as int) =~= release@);
}

/// A server is found by its name, and nothing is released without a tag.
pub proof fn a_server_is_found_by_its_name(
    all: &Table<Environment>,
    name: &str,
    r: Result<&Environment, String>,
    tags: Vec<String>,
    s: Result<Vec<String>, String>,
)
    requires
        call_ensures(deploy::find_environment, (all, name), r),
        call_ensures(deploy::offer_releases, (tags,), s),
    ensures
        r is Ok <==> all@.dom().contains(name@),
        r matches Ok(e) ==> *e == all@[name@],
        s is Ok <==> tags@.len() > 0,
        s matches Ok(v) ==> v@ == tags@,
{
}

} // verus!
