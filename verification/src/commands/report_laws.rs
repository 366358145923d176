//! What holds of the reports on a project as a whole.
use vstd::prelude::*;

use crate::commands::doctor;
use crate::commands::status;
use crate::commands::status::{Container, DockerCheck, GitState, TemplateCheck};
use crate::lines;
use crate::number;
use crate::text;
use crate::ui;
use crate::ui::{Level, Message};

verus! {

// ---------------------------------------------------------------- containers

/// A container belongs to the project whose directory it names; the label of Docker Compose counts
/// before that of the tool, and one without labels belongs to none.
pub proof fn a_container_names_its_project(c: &Container, dir: &str, r: bool)
    requires
        call_ensures(status::belongs_to, (c, dir), r),
    ensures
        c.compose_dir matches Some(d) && d@ == dir@ ==> r,
        c.compose_dir is None && c.plugin_dir is Some && c.plugin_dir->0@ == dir@ ==> r,
        c.compose_dir is None && c.plugin_dir is None ==> !r,
        c.compose_dir is Some && c.compose_dir->0@.len() > 0 && c.compose_dir->0@.last() != '/'
            && dir@.len() > 0 && dir@.last() != '/' ==> (r <==> c.compose_dir->0@ == dir@),
{
    if c.compose_dir is Some {
        reveal_with_fuel(text::without_end, 2);
    }
}

/// A slash at the end of a directory makes no difference.
pub proof fn a_slash_makes_no_difference(
    c: &Container,
    dir: &str,
    longer: &str,
    r: bool,
    s: bool,
)
    requires
        longer@ == dir@ + "/"@,
        call_ensures(status::belongs_to, (c, dir), r),
        call_ensures(status::belongs_to, (c, longer), s),
    ensures
        r == s,
{
    reveal_strlit("/");
    assert(longer@.last() == '/');
    assert(longer@.drop_last() =~= dir@);
    assert(text::without_end(longer@, '/') == text::without_end(dir@, '/'));
}

/// Containers are counted one by one: one more adds itself where it belongs to the project, and
/// counts as running where it runs.
pub proof fn containers_are_counted_one_by_one(
    v: &Vec<Container>,
    w: &Vec<Container>,
    c: &Container,
    dir: &str,
    mine: bool,
    r: (usize, usize),
    s: (usize, usize),
)
    requires
        w@ == v@.push(*c),
        call_ensures(status::belongs_to, (c, dir), mine),
        call_ensures(status::count_containers, (v, dir), r),
        call_ensures(status::count_containers, (w, dir), s),
    ensures
        s.0 == r.0 + (if mine {
            1int
        } else {
            0
        }),
        s.1 == r.1 + (if mine && c.running {
            1int
        } else {
            0
        }),
        v@.len() == 0 ==> r.0 == 0 && r.1 == 0,
        r.1 <= r.0,
{
    assert(w@.drop_last() =~= v@);
}

// ---------------------------------------------------------------- the status

/// The line on a project tells whether it is managed, then its branch, with a star where it has
/// changes, then its containers.
pub proof fn a_project_is_told_in_one_line(
    managed: bool,
    name: &str,
    dirty: bool,
    git: &GitState,
    v: &Vec<Container>,
    dir: &str,
    counted: (usize, usize),
    r: String,
)
    requires
        git matches GitState::Branch { name: n, dirty: d } && n@ == name@ && *d == dirty,
        call_ensures(status::count_containers, (v, dir), counted),
        call_ensures(status::get_summary, (managed, git, Some(v), dir), r),
    ensures
        r@ == (if managed {
            "✓ Managed"@
        } else {
            "✗ Unmanaged"@
        }) + " | "@ + ("Git: "@ + name@ + (if dirty {
            "*"@
        } else {
            Seq::empty()
        })) + " | "@ + (if counted.0 == 0 {
            "Docker: down"@
        } else {
            "Docker: "@ + number::decimal(counted.1 as nat) + "/"@ + number::decimal(
                counted.0 as nat,
            ) + " up"@
        }),
{
    let m = if managed {
        "✓ Managed"@
    } else {
        "✗ Unmanaged"@
    };
    let parts = seq![m, status::git_summary(*git), status::docker_summary(Some(v@), dir@)];
    lemma_joined_three(parts[0], parts[1], parts[2], " | "@);
}

proof fn lemma_joined_three(a: Seq<char>, b: Seq<char>, c: Seq<char>, sep: Seq<char>)
    ensures
        lines::joined(seq![a, b, c], sep) == a + sep + b + sep + c,
{
    let s = seq![a, b, c];
    assert(s.drop_last() =~= seq![a, b]);
    assert(s.drop_last().drop_last() =~= seq![a]);
    reveal_with_fuel(lines::joined, 4);
}

/// The report holds what is known of each part: a directory that is not managed is told so and is
/// not compared with the template, a missing repository and missing servers are told, and so is
/// whether the containers run.
pub proof fn the_report_tells_every_part(
    dir: &str,
    managed: bool,
    git: &GitState,
    template: &TemplateCheck,
    servers: Option<&Vec<String>>,
    docker: &DockerCheck,
    r: Vec<Message>,
)
    requires
        call_ensures(status::execute, (dir, managed, git, template, servers, docker), r),
    ensures
        ({
            let said = ui::said(r@);
            &&& said.contains((Level::Plain, "  Project Directory: "@ + dir@))
            &&& managed ==> said.contains(
                (Level::Success, "  Plugin Management: ✓ Managed by Docker Control Plugin"@),
            )
            &&& !managed ==> said.contains(
                (Level::Warning, "  Plugin Management: ✗ Not managed by Docker Control Plugin"@),
            )
            &&& git is Missing ==> said.contains(
                (Level::Warning, "  Git Repository: ✗ Not a git repository"@),
            )
            &&& git matches GitState::Branch { name, dirty } ==> said.contains(
                (
                    Level::Success,
                    "  Git Repository: ✓ Initialized ("@ + ("on branch "@ + name@ + (if *dirty {
                        " (uncommitted changes)"@
                    } else {
                        Seq::empty()
                    })) + ")"@,
                ),
            )
            &&& servers is None ==> said.contains(
                (Level::Warning, "  Deployment Config: ✗ Not configured"@),
            )
            &&& servers matches Some(e) ==> e@.len() > 0 ==> said.contains(
                (Level::Plain, "    Environments: "@ + lines::joined(text::texts(e@), ", "@)),
            )
            &&& docker is NoConnection ==> said.contains(
                (Level::Warning, "  Docker Status: ✗ Unable to connect to Docker"@),
            )
            &&& managed ==> (template matches TemplateCheck::Failed(e) ==> said.contains(
                (Level::Warning, "  Project Template: ✗ Could not be checked ("@ + e@ + ")"@),
            ))
        }),
{
    let said = ui::said(r@);
    let a = status::management(dir@, managed);
    let b = status::git_status(*git);
    let c = status::template_status(managed, *template);
    let d = status::deployment_status(status::names(servers));
    let e = status::docker_status(*docker, dir@);
    assert(said[1] == a[1] && said[2] == a[2]);
    assert(said[a.len() as int] == b[0]);
    if let Some(v) = servers {
        assert(text::texts(v@).len() == v@.len());
    }
    if managed && template is Failed {
        assert(said[(a.len() + b.len()) as int] == c[0]);
    }
    let n = (a.len() + b.len() + c.len()) as int;
    assert(said[n] == d[0] && said[n + 1] == d[1]);
    assert(said[n + d.len()] == e[0]);
}

/// The containers that are told to run are those that were counted; a project none of whose
/// containers run is no success.
pub proof fn stopped_containers_are_no_success(
    dir: &str,
    managed: bool,
    git: &GitState,
    template: &TemplateCheck,
    servers: Option<&Vec<String>>,
    docker: &DockerCheck,
    v: &Vec<Container>,
    counted: (usize, usize),
    r: Vec<Message>,
)
    requires
        docker matches DockerCheck::Containers(w) && w@ == v@,
        call_ensures(status::count_containers, (v, dir), counted),
        call_ensures(status::execute, (dir, managed, git, template, servers, docker), r),
    ensures
        counted.1 > 0 ==> r@.len() > 0 && r@.last().level == Level::Success && r@.last().text@
            == "  Docker Status: ✓ "@ + number::decimal(counted.1 as nat) + "/"@ + number::decimal(
            counted.0 as nat,
        ) + " containers running"@,
        counted.1 == 0 ==> r@.len() > 1 && r@.last().level == Level::Plain && r@[r@.len()
            - 2].level == Level::Warning,
{
    let said = ui::said(r@);
    assert(said.len() == r@.len());
    let e = status::docker_status(*docker, dir@);
    let n = said.len() as int;
    assert(said[n - 1] == e.last());
    assert(said[n - 1] == (r@[n - 1].level, r@[n - 1].text@));
    if counted.1 == 0 {
        assert(said[n - 2] == e[0]);
        assert(said[n - 2] == (r@[n - 2].level, r@[n - 2].text@));
    }
}

// ---------------------------------------------------------------- the search for problems

/// All is well exactly where the user has access and the search found nothing. Where something is
/// wrong, the repair is pointed out unless it was tried.
pub proof fn a_problem_is_an_error(
    host: bool,
    stdout: &str,
    fixed: bool,
    bad: Vec<String>,
    r: (Vec<Message>, Result<(), String>),
)
    requires
        call_ensures(doctor::parse_inaccessible_paths, (stdout,), bad),
        call_ensures(doctor::execute, (host, stdout, fixed), r),
    ensures
        r.1 is Ok <==> host && bad@.len() == 0,
        r.1 is Err && !fixed ==> r.0@.len() > 0 && r.0@.last().text@
            == "Run `docker control doctor --fix` to repair."@,
        host ==> ui::said(r.0@).contains((Level::Success, "Host ACL on htdocs is applied."@)),
        !host ==> r.0@.len() > 1 && r.0@[1].level == Level::Warning,
{
    let said = ui::said(r.0@);
    assert(said.len() == r.0@.len());
    assert(text::texts(bad@).len() == bad@.len());
    assert(said[1] == (r.0@[1].level, r.0@[1].text@));
    let n = said.len() as int;
    assert(said[n - 1] == (r.0@[n - 1].level, r.0@[n - 1].text@));
}

/// The paths with a problem are counted, and the first fifty of them are listed each.
pub proof fn the_paths_with_a_problem_are_listed(
    host: bool,
    stdout: &str,
    fixed: bool,
    bad: Vec<String>,
    r: (Vec<Message>, Result<(), String>),
    i: int,
)
    requires
        call_ensures(doctor::parse_inaccessible_paths, (stdout,), bad),
        call_ensures(doctor::execute, (host, stdout, fixed), r),
        0 <= i < bad@.len(),
    ensures
        ui::said(r.0@).contains(
            (
                Level::Warning,
                number::decimal(bad@.len())
                    + " path(s) under /var/www are not readable/writable by www-data:"@,
            ),
        ),
        i < 50 ==> ui::said(r.0@).contains((Level::Warning, "  "@ + bad@[i]@ + ""@)),
        bad@.len() > 50 ==> ui::said(r.0@).contains(
            (Level::Warning, "  ... and "@ + number::decimal((bad@.len() - 50) as nat) + " more"@),
        ),
{
    let said = ui::said(r.0@);
    let t = text::texts(bad@);
    assert(t.len() == bad@.len());
    assert(t[i] == bad@[i]@);
    let told = doctor::findings(host, t);
    assert forall|x: (Level, Seq<char>)| told.contains(x) implies said.contains(x) by {
        let k = choose|k: int| 0 <= k < told.len() && told[k] == x;
        assert(said[k] == x);
    }
    let l = doctor::listing(t);
    assert(told[3] == l[0]);
    if i < 50 {
        assert(l[1 + i] == (Level::Warning, "  "@ + t[i] + ""@));
        assert(told[4 + i] == l[1 + i]);
    }
    if bad@.len() > 50 {
        assert(l[51] == (
            Level::Warning,
            "  ... and "@ + number::decimal((t.len() - 50) as nat) + " more"@,
        ));
        assert(told[54] == l[51]);
    }
}

/// The search sees what the web server's user sees, and only looks; what has to be made is made by
/// root. Both happen in the application's container.
pub proof fn the_search_looks_as_the_web_server(
    dir: &str,
    find: Vec<String>,
    probe: Vec<String>,
    homes: Vec<String>,
)
    requires
        call_ensures(doctor::find_inaccessible_paths, (dir,), find),
        call_ensures(doctor::setfacl_probe, (dir,), probe),
        call_ensures(doctor::make_homes, (dir,), homes),
    ensures
        text::texts(find@).take(10) == seq![
            "compose"@,
            "--project-directory"@,
            dir@,
            "exec"@,
            "-T"@,
            "-u"@,
            "www-data"@,
            "php"@,
            "find"@,
            "/var/www"@,
        ],
        text::texts(find@).last() == "-print"@,
        text::texts(find@).subrange(10, 13) == seq!["!"@, "-xtype"@, "l"@],
        text::texts(find@).subrange(14, 16) == seq!["!"@, "-readable"@],
        text::texts(find@).subrange(17, 21) == seq!["-type"@, "d"@, "!"@, "-writable"@],
        text::texts(find@).subrange(22, 27) == seq![
            "!"@,
            "-writable"@,
            "!"@,
            "-user"@,
            "www-data"@,
        ],
        text::texts(probe@).subrange(5, 8) == seq!["-u"@, "root"@, "php"@],
        text::texts(homes@).subrange(5, 10) == seq!["-u"@, "root"@, "php"@, "mkdir"@, "-p"@],
        text::texts(homes@).contains("/var/www/.composer"@),
        text::texts(homes@).contains("/var/www/.config"@),
        text::texts(homes@).contains("/var/www/.cache"@),
        text::texts(homes@).contains("/var/www/.local"@),
{
    let f = text::texts(find@);
    assert(f.take(10) =~= seq![
        "compose"@,
        "--project-directory"@,
        dir@,
        "exec"@,
        "-T"@,
        "-u"@,
        "www-data"@,
        "php"@,
        "find"@,
        "/var/www"@,
    ]);
    assert(f.subrange(10, 13) =~= seq!["!"@, "-xtype"@, "l"@]);
    assert(f.subrange(14, 16) =~= seq!["!"@, "-readable"@]);
    assert(f.subrange(17, 21) =~= seq!["-type"@, "d"@, "!"@, "-writable"@]);
    assert(f.subrange(22, 27) =~= seq!["!"@, "-writable"@, "!"@, "-user"@, "www-data"@]);
    assert(text::texts(probe@).subrange(5, 8) =~= seq!["-u"@, "root"@, "php"@]);
    let h = text::texts(homes@);
    assert(h.subrange(5, 10) =~= seq!["-u"@, "root"@, "php"@, "mkdir"@, "-p"@]);
    assert(h[10] == "/var/www/.composer"@ && h[11] == "/var/www/.config"@ && h[12]
        == "/var/www/.cache"@ && h[13] == "/var/www/.local"@);
}

/// A container has the program for access lists only where the question for it succeeded and was
/// answered.
pub proof fn the_program_has_to_be_there(success: bool, stdout: &str, r: Result<(), String>)
    requires
        call_ensures(doctor::ensure_setfacl_available, (success, stdout), r),
    ensures
        r is Ok <==> success && stdout@.len() > 0,
{
}

} // verus!
