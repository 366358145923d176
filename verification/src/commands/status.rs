//! What is known of a project.
use vstd::prelude::*;

use crate::lines;
use crate::number;
use crate::template::summary::Summary;
use crate::text;
use crate::text::{push_text, same};
use crate::ui;
use crate::ui::{Level, Message};

verus! {

// ---------------------------------------------------------------- containers

/// What is known of a container.
#[derive(Debug, Clone, PartialEq, Eq)]
pub struct Container {
    /// The directory by the label of the tool.
    pub plugin_dir: Option<String>,
    /// The directory by the label of Docker Compose.
    pub compose_dir: Option<String>,
    pub running: bool,
}

/// Whether two directories are the same, apart from slashes at their ends.
pub open spec fn same_dir(a: Seq<char>, b: Seq<char>) -> bool {
    text::without_end(a, '/') == text::without_end(b, '/')
}

/// Whether a container belongs to a project. The label of Docker Compose counts first.
pub open spec fn belongs(c: Container, project_dir: Seq<char>) -> bool {
    match c.compose_dir {
        Some(d) => same_dir(d@, project_dir),
        None => match c.plugin_dir {
            Some(d) => same_dir(d@, project_dir),
            None => false,
        },
    }
}

/// How many containers belong to a project.
pub open spec fn count(v: Seq<Container>, project_dir: Seq<char>) -> nat
    decreases v.len(),
{
    if v.len() == 0 {
        0
    } else {
        count(v.drop_last(), project_dir) + (if belongs(v.last(), project_dir) {
            1nat
        } else {
            0
        })
    }
}

/// How many containers of a project run.
pub open spec fn running(v: Seq<Container>, project_dir: Seq<char>) -> nat
    decreases v.len(),
{
    if v.len() == 0 {
        0
    } else {
        running(v.drop_last(), project_dir) + (if belongs(v.last(), project_dir)
            && v.last().running {
            1nat
        } else {
            0
        })
    }
}

/// Whether a container belongs to a project.
pub fn belongs_to(c: &Container, project_dir: &str) -> (r: bool)
    ensures
        r == belongs(*c, project_dir@),
{
    let own = text::trim_end_char(project_dir, '/');
    match &c.compose_dir {
        Some(d) => same(text::trim_end_char(d.as_str(), '/').as_str(), own.as_str()),
        None => match &c.plugin_dir {
            Some(d) => same(text::trim_end_char(d.as_str(), '/').as_str(), own.as_str()),
            None => false,
        },
    }
}

/// How many containers a project has, and how many of them run.
pub fn count_containers(v: &Vec<Container>, project_dir: &str) -> (r: (usize, usize))
    ensures
        r.0 == count(v@, project_dir@),
        r.1 == running(v@, project_dir@),
        r.1 <= r.0,
{
    let mut n: usize = 0;
    let mut up: usize = 0;
    let mut i: usize = 0;
    assert(v@.take(0) =~= Seq::empty());
    while i < v.len()
        invariant
            i <= v@.len(),
            up <= n <= i,
            n == count(v@.take(i as int), project_dir@),
            up == running(v@.take(i as int), project_dir@),
        decreases v@.len() - i,
    {
        assert(v@.take(i + 1).drop_last() =~= v@.take(i as int));
        assert(v@.take(i + 1).last() == v@[i as int]);
        if belongs_to(&v[i], project_dir) {
            n += 1;
            if v[i].running {
                up += 1;
            }
        }
        i += 1;
    }
    assert(v@.take(i as int) =~= v@);
    (n, up)
}

// ---------------------------------------------------------------- the repository

/// What is known of the repository of the application.
#[derive(Debug, Clone, PartialEq, Eq)]
pub enum GitState {
    /// There is none.
    Missing,
    /// It is on no branch.
    Unknown,
    Branch { name: String, dirty: bool },
}

// ---------------------------------------------------------------- the summary

/// How the state of a repository reads in one line.
pub open spec fn git_summary(g: GitState) -> Seq<char> {
    match g {
        GitState::Missing => "Git: None"@,
        GitState::Unknown => "Git: Unknown"@,
        GitState::Branch { name, dirty } => "Git: "@ + name@ + (if dirty {
            "*"@
        } else {
            Seq::empty()
        }),
    }
}

/// How the state of the containers reads in one line, where Docker could be asked.
pub open spec fn docker_summary(c: Option<Seq<Container>>, project_dir: Seq<char>) -> Seq<char> {
    match c {
        None => "Docker: error"@,
        Some(v) => if count(v, project_dir) > 0 {
            "Docker: "@ + number::decimal(running(v, project_dir)) + "/"@ + number::decimal(
                count(v, project_dir),
            ) + " up"@
        } else {
            "Docker: down"@
        },
    }
}

/// The view of the containers, where Docker could be asked.
pub open spec fn asked(c: Option<&Vec<Container>>) -> Option<Seq<Container>> {
    match c {
        Some(v) => Some(v@),
        None => None,
    }
}

fn git_line(g: &GitState) -> (r: String)
    ensures
        r@ == git_summary(*g),
{
    match g {
        GitState::Missing => text::owned("Git: None"),
        GitState::Unknown => text::owned("Git: Unknown"),
        GitState::Branch { name, dirty } => {
            let mut r = text::owned("Git: ");
            r.append(name.as_str());
            if *dirty {
                r.append("*");
            } else {
                assert(r@ + Seq::<char>::empty() =~= r@);
            }
            r
        },
    }
}

fn docker_line(containers: Option<&Vec<Container>>, project_dir: &str) -> (r: String)
    ensures
        r@ == docker_summary(asked(containers), project_dir@),
{
    match containers {
        None => text::owned("Docker: error"),
        Some(v) => {
            let (n, up) = count_containers(v, project_dir);
            if n > 0 {
                let mut r = text::owned("Docker: ");
                r.append(number::to_decimal(up as u64).as_str());
                r.append("/");
                r.append(number::to_decimal(n as u64).as_str());
                r.append(" up");
                r
            } else {
                text::owned("Docker: down")
            }
        },
    }
}

/// The state of a project in one line. `containers` are those that Docker lists, where it could
/// be asked.
pub fn get_summary(
    managed: bool,
    git: &GitState,
    containers: Option<&Vec<Container>>,
    project_dir: &str,
) -> (r: String)
    ensures
        r@ == lines::joined(
            seq![
                if managed {
                    "✓ Managed"@
                } else {
                    "✗ Unmanaged"@
                },
                git_summary(*git),
                docker_summary(asked(containers), project_dir@),
            ],
            " | "@,
        ),
{
    let mut parts = text::no_texts();
    if managed {
        push_text(&mut parts, "✓ Managed");
    } else {
        push_text(&mut parts, "✗ Unmanaged");
    }
    push_text(&mut parts, git_line(git).as_str());
    push_text(&mut parts, docker_line(containers, project_dir).as_str());
    assert(text::texts(parts@) =~= seq![
        if managed {
            "✓ Managed"@
        } else {
            "✗ Unmanaged"@
        },
        git_summary(*git),
        docker_summary(asked(containers), project_dir@),
    ]);
    lines::join(&parts, " | ")
}

// ---------------------------------------------------------------- the parts of the status

/// What is told of the directory and of whether the tool manages it.
pub open spec fn management(project_dir: Seq<char>, managed: bool) -> Seq<(Level, Seq<char>)> {
    seq![
        (Level::Info, "Project Status"@),
        (Level::Plain, "  Project Directory: "@ + project_dir),
    ] + (if managed {
        seq![
            (
                Level::Success,
                "  Plugin Management: ✓ Managed by Docker Control Plugin"@,
            ),
        ]
    } else {
        seq![
            (
                Level::Warning,
                "  Plugin Management: ✗ Not managed by Docker Control Plugin"@,
            ),
            (Level::Plain, "    Run 'docker control init' to initialize this directory"@),
        ]
    })
}

fn say_management(out: &mut Vec<Message>, project_dir: &str, managed: bool)
    ensures
        ui::said(final(out)@) == ui::said(old(out)@) + management(project_dir@, managed),
{
    let ghost before = ui::said(out@);
    ui::say(out, Level::Info, text::owned("Project Status"));
    let mut d = text::owned("  Project Directory: ");
    d.append(project_dir);
    ui::say(out, Level::Plain, d);
    if managed {
        ui::say(
            out,
            Level::Success,
            text::owned("  Plugin Management: ✓ Managed by Docker Control Plugin"),
        );
    } else {
        ui::say(
            out,
            Level::Warning,
            text::owned("  Plugin Management: ✗ Not managed by Docker Control Plugin"),
        );
        ui::say(
            out,
            Level::Plain,
            text::owned("    Run 'docker control init' to initialize this directory"),
        );
    }
    assert(ui::said(out@) =~= before + management(project_dir@, managed));
}

/// What is told of the repository.
pub open spec fn git_status(g: GitState) -> Seq<(Level, Seq<char>)> {
    match g {
        GitState::Branch { name, dirty } => seq![
            (
                Level::Success,
                "  Git Repository: ✓ Initialized ("@ + ("on branch "@ + name@ + (if dirty {
                    " (uncommitted changes)"@
                } else {
                    Seq::empty()
                })) + ")"@,
            ),
        ],
        GitState::Unknown => seq![
            (
                Level::Warning,
                "  Git Repository: ✓ Initialized (detached HEAD or unknown state)"@,
            ),
        ],
        GitState::Missing => seq![
            (Level::Warning, "  Git Repository: ✗ Not a git repository"@),
            (Level::Plain, "    Initialize with 'git init' in the htdocs directory"@),
        ],
    }
}

/// Tells of the repository.
pub fn show_git_status(out: &mut Vec<Message>, g: &GitState)
    ensures
        ui::said(final(out)@) == ui::said(old(out)@) + git_status(*g),
{
    let ghost before = ui::said(out@);
    match g {
        GitState::Branch { name, dirty } => {
            let mut s = text::owned("on branch ");
            s.append(name.as_str());
            if *dirty {
                s.append(" (uncommitted changes)");
            } else {
                assert(s@ + Seq::<char>::empty() =~= s@);
            }
            let mut m = text::owned("  Git Repository: ✓ Initialized (");
            m.append(s.as_str());
            m.append(")");
            ui::say(out, Level::Success, m);
        },
        GitState::Unknown => {
            ui::say(
                out,
                Level::Warning,
                text::owned("  Git Repository: ✓ Initialized (detached HEAD or unknown state)"),
            );
        },
        GitState::Missing => {
            ui::say(out, Level::Warning, text::owned("  Git Repository: ✗ Not a git repository"));
            ui::say(
                out,
                Level::Plain,
                text::owned("    Initialize with 'git init' in the htdocs directory"),
            );
        },
    }
    assert(ui::said(out@) =~= before + git_status(*g));
}

/// What was found of the template.
#[derive(Debug, Clone, PartialEq, Eq)]
pub enum TemplateCheck {
    /// The template is not there, so nothing can be said.
    NoTemplate,
    /// The comparison failed.
    Failed(String),
    /// What differs, and the version that the project was brought up to where that is recorded.
    Checked { summary: Summary, synced_at: Option<String> },
}

/// What is told of the template. A directory that the tool does not manage is not compared.
pub open spec fn template_status(managed: bool, c: TemplateCheck) -> Seq<(Level, Seq<char>)> {
    if !managed {
        Seq::empty()
    } else {
        match c {
            TemplateCheck::NoTemplate => Seq::empty(),
            TemplateCheck::Failed(e) => seq![
                (
                    Level::Warning,
                    "  Project Template: ✗ Could not be checked ("@ + e@ + ")"@,
                ),
            ],
            TemplateCheck::Checked { summary, synced_at } => if summary@.is_empty() {
                match synced_at {
                    Some(v) => seq![
                        (
                            Level::Success,
                            "  Project Template: ✓ Up to date (synced at "@ + v@ + ")"@,
                        ),
                    ],
                    None => seq![
                        (
                            Level::Success,
                            "  Project Template: ✓ Matches the current template"@,
                        ),
                    ],
                }
            } else {
                seq![(Level::Warning, "  Project Template: ○ Changes pending"@)] + ui::each(
                    Level::Warning,
                    ""@,
                    summary@.printed(false),
                    ""@,
                ) + seq![
                    (
                        Level::Plain,
                        "    Run 'docker control update' to apply, or 'update --check' for diffs"@,
                    ),
                ]
            },
        }
    }
}

/// Tells of the template.
pub fn show_template_status(out: &mut Vec<Message>, managed: bool, c: &TemplateCheck)
    ensures
        ui::said(final(out)@) == ui::said(old(out)@) + template_status(managed, *c),
{
    let ghost before = ui::said(out@);
    if managed {
        match c {
            TemplateCheck::NoTemplate => {},
            TemplateCheck::Failed(e) => {
                let mut m = text::owned("  Project Template: ✗ Could not be checked (");
                m.append(e.as_str());
                m.append(")");
                ui::say(out, Level::Warning, m);
            },
            TemplateCheck::Checked { summary, synced_at } => {
                if summary.is_empty() {
                    match synced_at {
                        Some(v) => {
                            let mut m = text::owned(
                                "  Project Template: ✓ Up to date (synced at ",
                            );
                            m.append(v.as_str());
                            m.append(")");
                            ui::say(out, Level::Success, m);
                        },
                        None => {
                            ui::say(
                                out,
                                Level::Success,
                                text::owned(
                                    "  Project Template: ✓ Matches the current template",
                                ),
                            );
                        },
                    }
                } else {
                    ui::say(
                        out,
                        Level::Warning,
                        text::owned("  Project Template: ○ Changes pending"),
                    );
                    let printed = summary.print(false);
                    ui::say_each(out, Level::Warning, "", &printed, "");
                    ui::say(
                        out,
                        Level::Plain,
                        text::owned(
                            "    Run 'docker control update' to apply, or 'update --check' for diffs",
                        ),
                    );
                }
            },
        }
    }
    assert(ui::said(out@) =~= before + template_status(managed, *c));
}

/// What is told of the servers, where their configuration could be read.
pub open spec fn deployment_status(environments: Option<Seq<Seq<char>>>) -> Seq<
    (Level, Seq<char>),
> {
    match environments {
        Some(e) => seq![
            (Level::Success, "  Deployment Config: ✓ Configured (JSON)"@),
            if e.len() > 0 {
                (Level::Plain, "    Environments: "@ + lines::joined(e, ", "@))
            } else {
                (Level::Plain, "    No environments configured"@)
            },
        ],
        None => seq![
            (Level::Warning, "  Deployment Config: ✗ Not configured"@),
            (
                Level::Plain,
                "    Run 'docker control add-deploy-config' to add deployment environments"@,
            ),
        ],
    }
}

/// The names of the servers, where their configuration could be read.
pub open spec fn names(e: Option<&Vec<String>>) -> Option<Seq<Seq<char>>> {
    match e {
        Some(v) => Some(text::texts(v@)),
        None => None,
    }
}

/// Tells of the servers.
pub fn show_deployment_status(out: &mut Vec<Message>, environments: Option<&Vec<String>>)
    ensures
        ui::said(final(out)@) == ui::said(old(out)@) + deployment_status(names(environments)),
{
    let ghost before = ui::said(out@);
    match environments {
        Some(e) => {
            ui::say(out, Level::Success, text::owned("  Deployment Config: ✓ Configured (JSON)"));
            assert(text::texts(e@).len() == e@.len());
            if e.len() > 0 {
                let mut m = text::owned("    Environments: ");
                m.append(lines::join(e, ", ").as_str());
                ui::say(out, Level::Plain, m);
            } else {
                ui::say(out, Level::Plain, text::owned("    No environments configured"));
            }
        },
        None => {
            ui::say(out, Level::Warning, text::owned("  Deployment Config: ✗ Not configured"));
            ui::say(
                out,
                Level::Plain,
                text::owned(
                    "    Run 'docker control add-deploy-config' to add deployment environments",
                ),
            );
        },
    }
    assert(ui::said(out@) =~= before + deployment_status(names(environments)));
}

/// What came of asking Docker.
#[derive(Debug, Clone, PartialEq, Eq)]
pub enum DockerCheck {
    NoConnection,
    NoAnswer,
    Containers(Vec<Container>),
}

/// What is told of the containers.
pub open spec fn docker_status(c: DockerCheck, project_dir: Seq<char>) -> Seq<(Level, Seq<char>)> {
    match c {
        DockerCheck::NoConnection => seq![
            (Level::Warning, "  Docker Status: ✗ Unable to connect to Docker"@),
        ],
        DockerCheck::NoAnswer => seq![
            (Level::Warning, "  Docker Status: ✗ Unable to query container status"@),
        ],
        DockerCheck::Containers(v) => {
            let n = count(v@, project_dir);
            let up = running(v@, project_dir);
            if n == 0 {
                seq![
                    (Level::Warning, "  Docker Status: ○ No project containers found"@),
                    (
                        Level::Plain,
                        "    Run 'docker control start' to create and start containers"@,
                    ),
                ]
            } else if up > 0 {
                seq![
                    (
                        Level::Success,
                        "  Docker Status: ✓ "@ + number::decimal(up) + "/"@ + number::decimal(n)
                            + " containers running"@,
                    ),
                ]
            } else {
                seq![
                    (
                        Level::Warning,
                        "  Docker Status: ○ "@ + number::decimal(n) + " containers stopped"@,
                    ),
                    (Level::Plain, "    Run 'docker control start' to start containers"@),
                ]
            }
        },
    }
}

/// Tells of the containers.
pub fn show_docker_status(out: &mut Vec<Message>, c: &DockerCheck, project_dir: &str)
    ensures
        ui::said(final(out)@) == ui::said(old(out)@) + docker_status(*c, project_dir@),
{
    let ghost before = ui::said(out@);
    match c {
        DockerCheck::NoConnection => {
            ui::say(
                out,
                Level::Warning,
                text::owned("  Docker Status: ✗ Unable to connect to Docker"),
            );
        },
        DockerCheck::NoAnswer => {
            ui::say(
                out,
                Level::Warning,
                text::owned("  Docker Status: ✗ Unable to query container status"),
            );
        },
        DockerCheck::Containers(v) => {
            let (n, up) = count_containers(v, project_dir);
            if n == 0 {
                ui::say(
                    out,
                    Level::Warning,
                    text::owned("  Docker Status: ○ No project containers found"),
                );
                ui::say(
                    out,
                    Level::Plain,
                    text::owned("    Run 'docker control start' to create and start containers"),
                );
            } else if up > 0 {
                let mut m = text::owned("  Docker Status: ✓ ");
                m.append(number::to_decimal(up as u64).as_str());
                m.append("/");
                m.append(number::to_decimal(n as u64).as_str());
                m.append(" containers running");
                ui::say(out, Level::Success, m);
            } else {
                let mut m = text::owned("  Docker Status: ○ ");
                m.append(number::to_decimal(n as u64).as_str());
                m.append(" containers stopped");
                ui::say(out, Level::Warning, m);
                ui::say(
                    out,
                    Level::Plain,
                    text::owned("    Run 'docker control start' to start containers"),
                );
            }
        },
    }
    assert(ui::said(out@) =~= before + docker_status(*c, project_dir@));
}

/// Tells all that is known of a project: what manages it, its repository, the template, the
/// servers and the containers.
pub fn execute(
    project_dir: &str,
    managed: bool,
    git: &GitState,
    template: &TemplateCheck,
    environments: Option<&Vec<String>>,
    docker: &DockerCheck,
) -> (r: Vec<Message>)
    ensures
        ui::said(r@) == management(project_dir@, managed) + git_status(*git) + template_status(
            managed,
            *template,
        ) + deployment_status(names(environments)) + docker_status(*docker, project_dir@),
{
    let mut out: Vec<Message> = Vec::new();
    assert(ui::said(out@) =~= Seq::empty());
    say_management(&mut out, project_dir, managed);
    assert(ui::said(out@) =~= management(project_dir@, managed));
    show_git_status(&mut out, git);
    show_template_status(&mut out, managed, template);
    show_deployment_status(&mut out, environments);
    show_docker_status(&mut out, docker, project_dir);
    out
}

} // verus!
