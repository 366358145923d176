//! Finding and repairing files that the containers cannot reach.
use vstd::prelude::*;

use crate::docker;
use crate::lines;
use crate::number;
use crate::text;
use crate::text::push_text;
use crate::ui;
use crate::ui::{Level, Message};

verus! {

/// How many paths are listed at most.
pub const MAX_LISTED: usize = 50;

// ---------------------------------------------------------------- the calls

/// The call of `docker` that runs something in the container as a user.
pub open spec fn in_container(
    project_dir: Seq<char>,
    user: Seq<char>,
    args: Seq<Seq<char>>,
) -> Seq<Seq<char>> {
    docker::compose(project_dir, seq!["exec"@, "-T"@, "-u"@, user, "php"@] + args)
}

fn call(project_dir: &str, user: &str, args: &Vec<String>) -> (r: Vec<String>)
    ensures
        text::texts(r@) == in_container(project_dir@, user@, text::texts(args@)),
{
    let mut a = text::no_texts();
    push_text(&mut a, "exec");
    push_text(&mut a, "-T");
    push_text(&mut a, "-u");
    push_text(&mut a, user);
    push_text(&mut a, "php");
    text::push_all(&mut a, args);
    assert(text::texts(a@) =~= seq!["exec"@, "-T"@, "-u"@, user@, "php"@] + text::texts(args@));
    docker::execute_compose(project_dir, &a)
}

/// The search for paths with a problem: those that cannot be read, directories that cannot be
/// written, and other paths that cannot be written and belong to someone else. A link to nothing
/// is no problem.
pub open spec fn search() -> Seq<Seq<char>> {
    seq![
        "find"@,
        "/var/www"@,
        "!"@,
        "-xtype"@,
        "l"@,
        "("@,
        "!"@,
        "-readable"@,
        "-o"@,
        "-type"@,
        "d"@,
        "!"@,
        "-writable"@,
        "-o"@,
        "!"@,
        "-writable"@,
        "!"@,
        "-user"@,
        "www-data"@,
        ")"@,
        "-print"@,
    ]
}

/// The call of `docker` that searches for paths with a problem.
pub fn find_inaccessible_paths(project_dir: &str) -> (r: Vec<String>)
    ensures
        text::texts(r@) == in_container(project_dir@, "www-data"@, search()),
{
    let mut a = text::no_texts();
    push_text(&mut a, "find");
    push_text(&mut a, "/var/www");
    push_text(&mut a, "!");
    push_text(&mut a, "-xtype");
    push_text(&mut a, "l");
    push_text(&mut a, "(");
    push_text(&mut a, "!");
    push_text(&mut a, "-readable");
    push_text(&mut a, "-o");
    push_text(&mut a, "-type");
    push_text(&mut a, "d");
    push_text(&mut a, "!");
    push_text(&mut a, "-writable");
    push_text(&mut a, "-o");
    push_text(&mut a, "!");
    push_text(&mut a, "-writable");
    push_text(&mut a, "!");
    push_text(&mut a, "-user");
    push_text(&mut a, "www-data");
    push_text(&mut a, ")");
    push_text(&mut a, "-print");
    assert(text::texts(a@) =~= search());
    call(project_dir, "www-data", &a)
}

/// The call of `docker` that looks for the program that sets access lists.
pub fn setfacl_probe(project_dir: &str) -> (r: Vec<String>)
    ensures
        text::texts(r@) == in_container(
            project_dir@,
            "root"@,
            seq!["sh"@, "-c"@, "command -v setfacl"@],
        ),
{
    let mut a = text::no_texts();
    push_text(&mut a, "sh");
    push_text(&mut a, "-c");
    push_text(&mut a, "command -v setfacl");
    assert(text::texts(a@) =~= seq!["sh"@, "-c"@, "command -v setfacl"@]);
    call(project_dir, "root", &a)
}

/// Accepts a container in which that program was found.
pub fn ensure_setfacl_available(success: bool, stdout: &str) -> (r: Result<(), String>)
    ensures
        r is Ok <==> success && stdout@.len() > 0,
        r matches Err(e) ==> e@
            == "`setfacl` is not available in the php container; the image is missing the `acl` package. Update the image (`docker control pull`) or install `acl` in it, then retry."@,
{
    if success && !stdout.is_empty() {
        Ok(())
    } else {
        Err(
            text::owned(
                "`setfacl` is not available in the php container; the image is missing the `acl` package. Update the image (`docker control pull`) or install `acl` in it, then retry.",
            ),
        )
    }
}

/// The call of `docker` that makes the home directories of Composer.
pub fn make_homes(project_dir: &str) -> (r: Vec<String>)
    ensures
        text::texts(r@) == in_container(
            project_dir@,
            "root"@,
            seq![
                "mkdir"@,
                "-p"@,
                "/var/www/.composer"@,
                "/var/www/.config"@,
                "/var/www/.cache"@,
                "/var/www/.local"@,
            ],
        ),
{
    let mut a = text::no_texts();
    push_text(&mut a, "mkdir");
    push_text(&mut a, "-p");
    push_text(&mut a, "/var/www/.composer");
    push_text(&mut a, "/var/www/.config");
    push_text(&mut a, "/var/www/.cache");
    push_text(&mut a, "/var/www/.local");
    assert(text::texts(a@) =~= seq![
        "mkdir"@,
        "-p"@,
        "/var/www/.composer"@,
        "/var/www/.config"@,
        "/var/www/.cache"@,
        "/var/www/.local"@,
    ]);
    call(project_dir, "root", &a)
}

// ---------------------------------------------------------------- the verdict

/// The paths in the output of the search.
pub open spec fn paths_in(stdout: Seq<char>) -> Seq<Seq<char>> {
    lines::trimmed_lines(stdout)
}

/// The paths in the output of the search, trimmed and without blank lines.
pub fn parse_inaccessible_paths(stdout: &str) -> (r: Vec<String>)
    ensures
        text::texts(r@) == paths_in(stdout@),
{
    lines::trimmed_lines_of(stdout)
}

/// What is told of paths with a problem: the first of them, and how many more there are.
pub open spec fn listing(bad: Seq<Seq<char>>) -> Seq<(Level, Seq<char>)> {
    let first = if bad.len() > MAX_LISTED {
        bad.take(MAX_LISTED as int)
    } else {
        bad
    };
    seq![
        (
            Level::Warning,
            number::decimal(bad.len())
                + " path(s) under /var/www are not readable/writable by www-data:"@,
        ),
    ] + ui::each(Level::Warning, "  "@, first, ""@) + (if bad.len() > MAX_LISTED {
        seq![
            (
                Level::Warning,
                "  ... and "@ + number::decimal((bad.len() - MAX_LISTED) as nat) + " more"@,
            ),
        ]
    } else {
        Seq::empty()
    })
}

fn list(out: &mut Vec<Message>, bad: &Vec<String>)
    ensures
        ui::said(final(out)@) == ui::said(old(out)@) + listing(text::texts(bad@)),
{
    let ghost before = ui::said(out@);
    let ghost all = text::texts(bad@);
    let n: usize = bad.len();
    let mut m = number::to_decimal(n as u64);
    m.append(" path(s) under /var/www are not readable/writable by www-data:");
    ui::say(out, Level::Warning, m);
    let mut first = text::no_texts();
    let mut i: usize = 0;
    assert(all.take(0) =~= Seq::empty());
    while i < n && i < MAX_LISTED
        invariant
            i <= n == bad@.len(),
            i <= MAX_LISTED,
            all == text::texts(bad@),
            text::texts(first@) == all.take(i as int),
        decreases n - i,
    {
        push_text(&mut first, bad[i].as_str());
        assert(all.take(i + 1) =~= all.take(i as int).push(all[i as int]));
        i += 1;
    }
    assert(n <= MAX_LISTED ==> all.take(i as int) =~= all);
    ui::say_each(out, Level::Warning, "  ", &first, "");
    if n > MAX_LISTED {
        let mut more = text::owned("  ... and ");
        more.append(number::to_decimal((n - MAX_LISTED) as u64).as_str());
        more.append(" more");
        ui::say(out, Level::Warning, more);
    }
    assert(ui::said(out@) =~= before + listing(all));
}

/// What the command finds, by whether the user has access, and the paths that the containers have
/// a problem with.
pub open spec fn findings(host_acl: bool, bad: Seq<Seq<char>>) -> Seq<(Level, Seq<char>)> {
    seq![
        (Level::Info, "Checking host ACL on htdocs..."@),
        if host_acl {
            (Level::Success, "Host ACL on htdocs is applied."@)
        } else {
            (
                Level::Warning,
                "Host ACL on htdocs is NOT applied; the host user may be unable to edit container-created files."@,
            )
        },
        (Level::Info, "Checking /var/www access for www-data..."@),
    ] + (if bad.len() == 0 {
        seq![
            (
                Level::Success,
                "All files under /var/www are readable/writable by www-data."@,
            ),
        ]
    } else {
        listing(bad)
    })
}

/// Tells what was found, and whether all is well. `fixed` tells that a repair was tried before.
pub fn execute(host_acl: bool, stdout: &str, fixed: bool) -> (r: (Vec<Message>, Result<(), String>))
    ensures
        ({
            let bad = paths_in(stdout@);
            let told = findings(host_acl, bad);
            if host_acl && bad.len() == 0 {
                ui::said(r.0@) == told && r.1 is Ok
            } else if fixed {
                ui::said(r.0@) == told && (r.1 matches Err(e) && e@
                    == "permission problems remain after --fix"@)
            } else {
                ui::said(r.0@) == told.push(
                    (Level::Info, "Run `docker control doctor --fix` to repair."@),
                ) && (r.1 matches Err(e) && e@ == "permission problems detected"@)
            }
        }),
{
    let mut out: Vec<Message> = Vec::new();
    assert(ui::said(out@) =~= Seq::empty());
    ui::say(&mut out, Level::Info, text::owned("Checking host ACL on htdocs..."));
    if host_acl {
        ui::say(&mut out, Level::Success, text::owned("Host ACL on htdocs is applied."));
    } else {
        ui::say(
            &mut out,
            Level::Warning,
            text::owned(
                "Host ACL on htdocs is NOT applied; the host user may be unable to edit container-created files.",
            ),
        );
    }
    ui::say(&mut out, Level::Info, text::owned("Checking /var/www access for www-data..."));
    let bad = parse_inaccessible_paths(stdout);
    assert(text::texts(bad@).len() == bad@.len());
    if bad.len() == 0 {
        ui::say(
            &mut out,
            Level::Success,
            text::owned("All files under /var/www are readable/writable by www-data."),
        );
    } else {
        list(&mut out, &bad);
    }
    assert(ui::said(out@) =~= findings(host_acl, paths_in(stdout@)));
    if host_acl && bad.len() == 0 {
        return (out, Ok(()));
    }
    if fixed {
        (out, Err(text::owned("permission problems remain after --fix")))
    } else {
        ui::say(
            &mut out,
            Level::Info,
            text::owned("Run `docker control doctor --fix` to repair."),
        );
        (out, Err(text::owned("permission problems detected")))
    }
}

/// What is told where the containers do not run.
pub fn not_running() -> (r: String)
    ensures
        r@
            == "Project containers are not running. Start the project first with `docker-control start`."@,
{
    text::owned(
        "Project containers are not running. Start the project first with `docker-control start`.",
    )
}

} // verus!
