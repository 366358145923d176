//! The archive of a release: what is called to make it.
use vstd::prelude::*;

use crate::commands::deploy::get_env_var;
use crate::paths;
use crate::text;
use crate::text::push_text;

verus! {

/// Where the files of a release are put together.
pub open spec fn staging(project_dir: Seq<char>, release: Seq<char>) -> Seq<char> {
    paths::below(crate::commands::deploy::deployments_dir(project_dir), "temp_"@ + release)
}

/// Where the files of a release are put together.
pub fn staging_dir(project_dir: &str, release: &str) -> (r: String)
    ensures
        r@ == staging(project_dir@, release@),
{
    let dir = paths::join(project_dir, "deployments");
    let mut name = text::owned("temp_");
    name.append(release);
    paths::join(dir.as_str(), name.as_str())
}

/// The PHP version of the project.
pub fn php_version(content: Option<&str>) -> (r: String)
    ensures
        r@ == (match crate::commands::deploy::env_of(
            crate::docker::opt_str(content),
            "PHP_VERSION"@,
        ) {
            Some(v) => v,
            None => "8.2"@,
        }),
{
    match get_env_var(content, "PHP_VERSION") {
        Some(v) => v,
        None => text::owned("8.2"),
    }
}

/// Where the key agent is reached: by the environment, by the project, or by default.
pub fn ssh_auth_port(env: Option<&str>, content: Option<&str>) -> (r: String)
    ensures
        r@ == (match env {
            Some(e) => e@,
            None => match crate::commands::deploy::env_of(
                crate::docker::opt_str(content),
                "SSH_AUTH_PORT"@,
            ) {
                Some(v) => v,
                None => "host.docker.internal:2222"@,
            },
        }),
{
    match env {
        Some(e) => text::owned(e),
        None => match get_env_var(content, "SSH_AUTH_PORT") {
            Some(v) => v,
            None => text::owned("host.docker.internal:2222"),
        },
    }
}

/// The arguments of the container that installs the packages of a release.
pub open spec fn composer_args(
    project_dir: Seq<char>,
    staging: Seq<char>,
    user_id: Seq<char>,
    php: Seq<char>,
    port: Seq<char>,
) -> Seq<Seq<char>> {
    seq![
        "run"@,
        "--rm"@,
        "-u"@,
        user_id,
        "--group-add"@,
        "www-data"@,
        "-e"@,
        "SSH_AUTH_PORT="@ + port,
        "-e"@,
        "SSH_AUTH_SOCK=/tmp/ssh-agent.sock"@,
        "--add-host"@,
        "host.docker.internal:host-gateway"@,
        "-v"@,
        project_dir + "/volumes/composer-cache:/var/www/.composer/cache"@,
        "-v"@,
        staging + ":/var/www/html"@,
        "fduarte42/docker-php:"@ + php,
        "bash"@,
        "-c"@,
        "git config --global --add safe.directory /var/www/html; /docker-php-init; composer i -o"@,
    ]
}

/// The arguments of `docker` that install the packages of a release in a container.
pub fn create_deployment_archive(
    project_dir: &str,
    staging: &str,
    user_id: &str,
    php: &str,
    port: &str,
) -> (r: Vec<String>)
    ensures
        text::texts(r@) == composer_args(project_dir@, staging@, user_id@, php@, port@),
{
    let mut r = text::no_texts();
    push_text(&mut r, "run");
    push_text(&mut r, "--rm");
    push_text(&mut r, "-u");
    push_text(&mut r, user_id);
    push_text(&mut r, "--group-add");
    push_text(&mut r, "www-data");
    push_text(&mut r, "-e");
    let mut agent = text::owned("SSH_AUTH_PORT=");
    agent.append(port);
    push_text(&mut r, agent.as_str());
    push_text(&mut r, "-e");
    push_text(&mut r, "SSH_AUTH_SOCK=/tmp/ssh-agent.sock");
    push_text(&mut r, "--add-host");
    push_text(&mut r, "host.docker.internal:host-gateway");
    push_text(&mut r, "-v");
    let mut cache = text::owned(project_dir);
    cache.append("/volumes/composer-cache:/var/www/.composer/cache");
    push_text(&mut r, cache.as_str());
    push_text(&mut r, "-v");
    let mut html = text::owned(staging);
    html.append(":/var/www/html");
    push_text(&mut r, html.as_str());
    let mut image = text::owned("fduarte42/docker-php:");
    image.append(php);
    push_text(&mut r, image.as_str());
    push_text(&mut r, "bash");
    push_text(&mut r, "-c");
    push_text(
        &mut r,
        "git config --global --add safe.directory /var/www/html; /docker-php-init; composer i -o",
    );
    assert(text::texts(r@) =~= composer_args(project_dir@, staging@, user_id@, php@, port@));
    r
}

/// The arguments of `7z` that pack a release.
pub fn pack_args(archive_path: &str, staging: &str) -> (r: Vec<String>)
    ensures
        text::texts(r@) == seq!["a"@, archive_path@, staging@ + "/."@],
{
    let mut r = text::no_texts();
    push_text(&mut r, "a");
    push_text(&mut r, archive_path);
    let mut all = text::owned(staging);
    all.append("/.");
    push_text(&mut r, all.as_str());
    assert(text::texts(r@) =~= seq!["a"@, archive_path@, staging@ + "/."@]);
    r
}

/// What becomes of the archive once its two calls were made, the second only after the first
/// has succeeded.
pub fn archive_result(installed: bool, packed: bool) -> (r: Result<(), String>)
    ensures
        installed && packed ==> r is Ok,
        !installed ==> (r matches Err(e) && e@ == "Composer install failed"@),
        installed && !packed ==> (r matches Err(e) && e@ == "7z compression failed"@),
{
    if !installed {
        Err(text::owned("Composer install failed"))
    } else if !packed {
        Err(text::owned("7z compression failed"))
    } else {
        Ok(())
    }
}

} // verus!
