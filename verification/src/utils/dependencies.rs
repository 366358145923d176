//! The programs that the tool calls.
use vstd::prelude::*;

use crate::docker;
use crate::lines;
use crate::number;
use crate::paths;
use crate::text;
use crate::text::{chars_of, is_listed, push_text, same};
use crate::ui;
use crate::ui::{Level, Message};
use crate::utils::platform::Platform;

verus! {

// ---------------------------------------------------------------- the programs

/// A program that is called.
#[derive(Debug, Clone, PartialEq, Eq)]
pub struct Dependency {
    pub name: String,
    pub command: String,
    pub args: Vec<String>,
    pub critical: bool,
    pub description: String,
    /// The Homebrew formula that brings it, where installing that is of use.
    pub brew_formula: Option<String>,
}

/// A program, with its strings as sequences of characters.
pub ghost struct DependencyView {
    pub name: Seq<char>,
    pub command: Seq<char>,
    pub args: Seq<Seq<char>>,
    pub critical: bool,
    pub description: Seq<char>,
    pub brew_formula: Option<Seq<char>>,
}

impl View for Dependency {
    type V = DependencyView;

    open spec fn view(&self) -> DependencyView {
        DependencyView {
            name: self.name@,
            command: self.command@,
            args: text::texts(self.args@),
            critical: self.critical,
            description: self.description@,
            brew_formula: paths::opt(self.brew_formula),
        }
    }
}

/// The views of some programs.
pub open spec fn deps(v: Seq<Dependency>) -> Seq<DependencyView> {
    v.map_values(|d: Dependency| d@)
}

/// A program by its parts.
pub open spec fn dep(
    name: Seq<char>,
    command: Seq<char>,
    args: Seq<Seq<char>>,
    critical: bool,
    description: Seq<char>,
    brew_formula: Option<Seq<char>>,
) -> DependencyView {
    DependencyView { name, command, args, critical, description, brew_formula }
}

/// All programs that the tool calls.
pub open spec fn all_dependencies() -> Seq<DependencyView> {
    seq![
        // Homebrew brings the client alone, not a daemon that works.
        dep(
            "Docker"@,
            "docker"@,
            seq!["--version"@],
            true,
            "Required for all container operations"@,
            None,
        ),
        dep(
            "Docker Compose"@,
            "docker"@,
            seq!["compose"@, "version"@],
            true,
            "Required for managing project services"@,
            None,
        ),
        dep(
            "Git"@,
            "git"@,
            seq!["--version"@],
            true,
            "Required for release and merge workflows"@,
            Some("git"@),
        ),
        // The formula is not linked into the path, so installing it would not help.
        dep(
            "SSH"@,
            "ssh"@,
            seq!["-V"@],
            true,
            "Required for secure remote access"@,
            None,
        ),
        dep(
            "SCP"@,
            "scp"@,
            Seq::empty(),
            true,
            "Required for file transfers during deployment"@,
            None,
        ),
        dep(
            "Bash"@,
            "bash"@,
            seq!["--version"@],
            true,
            "Required for executing scripts"@,
            Some("bash"@),
        ),
        dep(
            "Sudo"@,
            "sudo"@,
            seq!["--version"@],
            false,
            "Required for migration tasks requiring elevated privileges"@,
            None,
        ),
        dep(
            "Rsync"@,
            "rsync"@,
            seq!["--version"@],
            false,
            "Required for migration tasks"@,
            Some("rsync"@),
        ),
        // The binary `7z` is brought by `p7zip`; that of `sevenzip` is called `7zz`.
        dep(
            "7-Zip"@,
            "7z"@,
            Seq::empty(),
            false,
            "Required for creating deployment packages"@,
            Some("p7zip"@),
        ),
        dep(
            "setfacl"@,
            "setfacl"@,
            seq!["--version"@],
            false,
            "Required for granting the host user and the container's www-data user access to htdocs"@,
            Some("acl"@),
        ),
        dep(
            "getfacl"@,
            "getfacl"@,
            Seq::empty(),
            false,
            "Required for detecting existing ACLs on htdocs before re-applying them"@,
            Some("acl"@),
        ),
        dep(
            "certutil"@,
            "certutil"@,
            Seq::empty(),
            false,
            "Used by `trust-ca` to add the ingress CA to the Chrome/Chromium and Firefox trust stores"@,
            Some("nss"@),
        ),
    ]
}

fn put(out: &mut Vec<Dependency>, d: Dependency)
    ensures
        deps(final(out)@) == deps(old(out)@).push(d@),
{
    let ghost before = deps(out@);
    out.push(d);
    assert(deps(out@) =~= before.push(d@));
}

fn one(a: &str) -> (r: Vec<String>)
    ensures
        text::texts(r@) == seq![a@],
{
    let mut r = text::no_texts();
    push_text(&mut r, a);
    assert(text::texts(r@) =~= seq![a@]);
    r
}

fn two(a: &str, b: &str) -> (r: Vec<String>)
    ensures
        text::texts(r@) == seq![a@, b@],
{
    let mut r = text::no_texts();
    push_text(&mut r, a);
    push_text(&mut r, b);
    assert(text::texts(r@) =~= seq![a@, b@]);
    r
}

fn dependency(
    name: &str,
    command: &str,
    args: Vec<String>,
    critical: bool,
    description: &str,
    formula: Option<&str>,
) -> (r: Dependency)
    ensures
        r@ == dep(
            name@,
            command@,
            text::texts(args@),
            critical,
            description@,
            docker::opt_str(formula),
        ),
{
    let brew_formula = match formula {
        Some(f) => Some(text::owned(f)),
        None => None,
    };
    Dependency {
        name: text::owned(name),
        command: text::owned(command),
        args,
        critical,
        description: text::owned(description),
        brew_formula,
    }
}

/// All programs that the tool calls.
pub fn dependencies() -> (r: Vec<Dependency>)
    ensures
        deps(r@) == all_dependencies(),
{
    let mut r: Vec<Dependency> = Vec::new();
    put(
        &mut r,
        dependency(
            "Docker",
            "docker",
            one("--version"),
            true,
            "Required for all container operations",
            None,
        ),
    );
    put(
        &mut r,
        dependency(
            "Docker Compose",
            "docker",
            two("compose", "version"),
            true,
            "Required for managing project services",
            None,
        ),
    );
    put(
        &mut r,
        dependency(
            "Git",
            "git",
            one("--version"),
            true,
            "Required for release and merge workflows",
            Some("git"),
        ),
    );
    put(
        &mut r,
        dependency(
            "SSH",
            "ssh",
            one("-V"),
            true,
            "Required for secure remote access",
            None,
        ),
    );
    put(
        &mut r,
        dependency(
            "SCP",
            "scp",
            text::no_texts(),
            true,
            "Required for file transfers during deployment",
            None,
        ),
    );
    put(
        &mut r,
        dependency(
            "Bash",
            "bash",
            one("--version"),
            true,
            "Required for executing scripts",
            Some("bash"),
        ),
    );
    put(
        &mut r,
        dependency(
            "Sudo",
            "sudo",
            one("--version"),
            false,
            "Required for migration tasks requiring elevated privileges",
            None,
        ),
    );
    put(
        &mut r,
        dependency(
            "Rsync",
            "rsync",
            one("--version"),
            false,
            "Required for migration tasks",
            Some("rsync"),
        ),
    );
    put(
        &mut r,
        dependency(
            "7-Zip",
            "7z",
            text::no_texts(),
            false,
            "Required for creating deployment packages",
            Some("p7zip"),
        ),
    );
    put(
        &mut r,
        dependency(
            "setfacl",
            "setfacl",
            one("--version"),
            false,
            "Required for granting the host user and the container's www-data user access to htdocs",
            Some("acl"),
        ),
    );
    put(
        &mut r,
        dependency(
            "getfacl",
            "getfacl",
            text::no_texts(),
            false,
            "Required for detecting existing ACLs on htdocs before re-applying them",
            Some("acl"),
        ),
    );
    put(
        &mut r,
        dependency(
            "certutil",
            "certutil",
            text::no_texts(),
            false,
            "Used by `trust-ca` to add the ingress CA to the Chrome/Chromium and Firefox trust stores",
            Some("nss"),
        ),
    );
    assert(deps(r@) =~= all_dependencies());
    r
}

// ---------------------------------------------------------------- which are looked for

/// The commands whose own call may fail although they are there.
pub open spec fn checked_via_which(command: Seq<char>) -> bool {
    command == "scp"@ || command == "7z"@ || command == "getfacl"@ || command == "certutil"@
}

/// Whether a command is looked for by `which` instead of being called.
pub fn is_checked_via_which(command: &str) -> (r: bool)
    ensures
        r == checked_via_which(command@),
{
    same(command, "scp") || same(command, "7z") || same(command, "getfacl") || same(
        command,
        "certutil",
    )
}

/// The call that tells whether a program is there: the program, and its arguments.
pub fn dependency_exists(d: &Dependency) -> (r: (String, Vec<String>))
    ensures
        checked_via_which(d.command@) ==> r.0@ == "which"@ && text::texts(r.1@) == seq![
            d.command@,
        ],
        !checked_via_which(d.command@) ==> r.0@ == d.command@ && text::texts(r.1@)
            == text::texts(d.args@),
{
    if is_checked_via_which(d.command.as_str()) {
        (text::owned("which"), one(d.command.as_str()))
    } else {
        (text::owned(d.command.as_str()), text::copy_texts(&d.args))
    }
}

/// Whether a program is of use on a system: those for access lists are not on macOS, where
/// `chmod` does it, and `certutil` is not on Windows.
pub open spec fn applies(d: DependencyView, macos: bool, windows: bool) -> bool {
    &&& !(macos && (d.command == "setfacl"@ || d.command == "getfacl"@))
    &&& !(windows && d.command == "certutil"@)
}

/// The programs that some rule picks.
pub open spec fn picked(v: Seq<DependencyView>, rule: spec_fn(DependencyView) -> bool) -> Seq<
    DependencyView,
>
    decreases v.len(),
{
    if v.len() == 0 {
        Seq::empty()
    } else {
        let rest = picked(v.drop_last(), rule);
        if rule(v.last()) {
            rest.push(v.last())
        } else {
            rest
        }
    }
}

fn copy(d: &Dependency) -> (r: Dependency)
    ensures
        r@ == d@,
{
    let brew_formula = match &d.brew_formula {
        Some(f) => Some(text::owned(f.as_str())),
        None => None,
    };
    Dependency {
        name: text::owned(d.name.as_str()),
        command: text::owned(d.command.as_str()),
        args: text::copy_texts(&d.args),
        critical: d.critical,
        description: text::owned(d.description.as_str()),
        brew_formula,
    }
}

/// Whether a program is looked for at every start: the others are looked for by the commands that
/// need them.
pub open spec fn at_start(macos: bool, windows: bool) -> spec_fn(DependencyView) -> bool {
    |d: DependencyView| applies(d, macos, windows) && d.critical
}

/// The programs that are looked for at every start.
pub fn startup_dependencies(macos: bool, windows: bool) -> (r: Vec<Dependency>)
    ensures
        deps(r@) == picked(all_dependencies(), at_start(macos, windows)),
{
    let all = dependencies();
    let ghost views = all_dependencies();
    let mut r: Vec<Dependency> = Vec::new();
    let mut i: usize = 0;
    assert(views.take(0) =~= Seq::empty());
    assert(deps(r@) =~= Seq::empty());
    while i < all.len()
        invariant
            i <= all@.len(),
            views == deps(all@),
            deps(r@) == picked(views.take(i as int), at_start(macos, windows)),
        decreases all@.len() - i,
    {
        assert(views.take(i + 1).drop_last() =~= views.take(i as int));
        assert(views.take(i + 1).last() == all@[i as int]@);
        if is_applicable(&all[i], macos, windows) && all[i].critical {
            put(&mut r, copy(&all[i]));
        }
        i += 1;
    }
    assert(views.take(i as int) =~= views);
    r
}

/// Whether a program is of use on a system.
pub fn is_applicable(d: &Dependency, macos: bool, windows: bool) -> (r: bool)
    ensures
        r == applies(d@, macos, windows),
{
    !(macos && (same(d.command.as_str(), "setfacl") || same(d.command.as_str(), "getfacl")))
        && !(windows && same(d.command.as_str(), "certutil"))
}

/// The programs that a command needs beyond those that are always looked for.
pub open spec fn needed_by(command: Seq<char>, d: DependencyView) -> bool {
    if command == "deploy"@ {
        d.command == "7z"@
    } else if command == "trust-ca"@ {
        d.command == "certutil"@
    } else if command == "start"@ || command == "restart"@ || command == "setacl"@ || command
        == "doctor"@ {
        d.command == "setfacl"@ || d.command == "getfacl"@
    } else {
        false
    }
}

/// Whether a program is looked for by a command on a system.
pub open spec fn on_demand(command: Seq<char>, macos: bool, windows: bool) -> spec_fn(
    DependencyView,
) -> bool {
    |d: DependencyView| applies(d, macos, windows) && needed_by(command, d)
}

fn is_needed_by(command: &str, d: &Dependency) -> (r: bool)
    ensures
        r == needed_by(command@, d@),
{
    let c = d.command.as_str();
    if same(command, "deploy") {
        same(c, "7z")
    } else if same(command, "trust-ca") {
        same(c, "certutil")
    } else if same(command, "start") || same(command, "restart") || same(command, "setacl") || same(
        command,
        "doctor",
    ) {
        same(c, "setfacl") || same(c, "getfacl")
    } else {
        false
    }
}

/// The programs that a command needs beyond those that are always looked for.
pub fn command_dependencies(command: &str, macos: bool, windows: bool) -> (r: Vec<Dependency>)
    ensures
        deps(r@) == picked(all_dependencies(), on_demand(command@, macos, windows)),
{
    let all = dependencies();
    let ghost views = all_dependencies();
    let mut r: Vec<Dependency> = Vec::new();
    let mut i: usize = 0;
    assert(views.take(0) =~= Seq::empty());
    assert(deps(r@) =~= Seq::empty());
    while i < all.len()
        invariant
            i <= all@.len(),
            views == deps(all@),
            deps(r@) == picked(views.take(i as int), on_demand(command@, macos, windows)),
        decreases all@.len() - i,
    {
        assert(views.take(i + 1).drop_last() =~= views.take(i as int));
        assert(views.take(i + 1).last() == all@[i as int]@);
        if is_applicable(&all[i], macos, windows) && is_needed_by(command, &all[i]) {
            put(&mut r, copy(&all[i]));
        }
        i += 1;
    }
    assert(views.take(i as int) =~= views);
    r
}

// ---------------------------------------------------------------- versions

/// The longest run of digits that a text begins with.
pub open spec fn digits_at_start(s: Seq<char>) -> Seq<char>
    decreases s.len(),
{
    if s.len() == 0 || !text::is_digit(s[0]) {
        Seq::empty()
    } else {
        seq![s[0]] + digits_at_start(s.skip(1))
    }
}

/// The two runs of digits, with a dot between them, that a text begins with.
pub open spec fn pair_at_start(s: Seq<char>) -> Option<(Seq<char>, Seq<char>)> {
    let major = digits_at_start(s);
    let rest = s.skip(major.len() as int);
    let minor = digits_at_start(rest.skip(1));
    if major.len() > 0 && rest.len() > 0 && rest[0] == '.' && minor.len() > 0 {
        Some((major, minor))
    } else {
        None
    }
}

/// The first two runs of digits with a dot between them.
pub open spec fn first_pair(s: Seq<char>) -> Option<(Seq<char>, Seq<char>)>
    decreases s.len(),
{
    if s.len() == 0 {
        None
    } else if pair_at_start(s) is Some {
        pair_at_start(s)
    } else {
        first_pair(s.skip(1))
    }
}

/// The first two numbers in a text with a dot between them. Numbers that no version has are
/// not read.
pub open spec fn version_in(output: Seq<char>) -> Option<(nat, nat)> {
    match first_pair(output) {
        None => None,
        Some((major, minor)) => match (
            number::unsigned_up_to(major, 4294967295),
            number::unsigned_up_to(minor, 4294967295),
        ) {
            (Some(a), Some(b)) => Some((a, b)),
            _ => None,
        },
    }
}

/// Where the run of digits ends that begins at a position.
fn digits_end(v: &Vec<char>, from: usize) -> (r: usize)
    requires
        from <= v@.len(),
    ensures
        from <= r <= v@.len(),
        v@.subrange(from as int, r as int) == digits_at_start(v@.skip(from as int)),
{
    let ghost run = digits_at_start(v@.skip(from as int));
    let mut r: usize = from;
    assert(v@.subrange(from as int, from as int) + run =~= run);
    while r < v.len() && '0' <= v[r] && v[r] <= '9'
        invariant
            from <= r <= v@.len(),
            v@.subrange(from as int, r as int) + digits_at_start(v@.skip(r as int)) == run,
        decreases v@.len() - r,
    {
        assert(v@.skip(r as int).skip(1) =~= v@.skip(r + 1));
        assert(v@.subrange(from as int, r + 1) + digits_at_start(v@.skip(r + 1)) =~= v@.subrange(
            from as int,
            r as int,
        ) + digits_at_start(v@.skip(r as int)));
        r += 1;
    }
    assert(v@.subrange(from as int, r as int) =~= run);
    r
}

/// Reads the first `MAJOR.MINOR` of a text such as `Docker version 24.0.5, build ced0996`.
pub fn parse_version(output: &str) -> (r: Option<(u32, u32)>)
    ensures
        (match r {
            Some(v) => Some((v.0 as nat, v.1 as nat)),
            None => None,
        }) == version_in(output@),
{
    let v = chars_of(output);
    let n: usize = v.len();
    let mut i: usize = 0;
    assert(v@.skip(0) =~= output@);
    while i < n
        invariant
            i <= n == v@.len(),
            first_pair(v@.skip(i as int)) == first_pair(output@),
        decreases n - i,
    {
        let ghost s = v@.skip(i as int);
        let dot = digits_end(&v, i);
        if i < dot && dot < n && v[dot] == '.' {
            let end = digits_end(&v, dot + 1);
            assert(s.skip(dot - i) =~= v@.skip(dot as int));
            assert(v@.skip(dot as int).skip(1) =~= v@.skip(dot + 1));
            if dot + 1 < end {
                assert(pair_at_start(s) == Some(
                    (v@.subrange(i as int, dot as int), v@.subrange(dot + 1, end as int)),
                ));
                let major = text::string_of(&v, i, dot);
                let minor = text::string_of(&v, dot + 1, end);
                return match (
                    number::parse_up_to(major.as_str(), 4294967295),
                    number::parse_up_to(minor.as_str(), 4294967295),
                ) {
                    (Some(a), Some(b)) => Some((a as u32, b as u32)),
                    _ => None,
                };
            }
        }
        assert(pair_at_start(s) is None) by {
            assert(s.skip(dot - i) =~= v@.skip(dot as int));
            if dot < n {
                assert(v@.skip(dot as int).skip(1) =~= v@.skip(dot + 1));
            }
        }
        assert(s.skip(1) =~= v@.skip(i + 1));
        i += 1;
    }
    assert(v@.skip(i as int) =~= Seq::empty());
    None
}

/// Whether a version comes before another.
pub open spec fn older(a: (nat, nat), b: (nat, nat)) -> bool {
    a.0 < b.0 || (a.0 == b.0 && a.1 < b.1)
}

/// How a version that is too old is reported.
pub open spec fn too_old(label: Seq<char>, actual: (nat, nat), min: (nat, nat)) -> Seq<char> {
    label + " "@ + number::decimal(actual.0) + "."@ + number::decimal(actual.1)
        + " is below the minimum required version "@ + number::decimal(min.0) + "."@
        + number::decimal(min.1) + ". Please upgrade."@
}

/// Accepts a version that is not too old.
pub fn check_version(label: &str, actual: (u32, u32), min: (u32, u32)) -> (r: Result<(), String>)
    ensures
        r is Err <==> older((actual.0 as nat, actual.1 as nat), (min.0 as nat, min.1 as nat)),
        r matches Err(e) ==> e@ == too_old(
            label@,
            (actual.0 as nat, actual.1 as nat),
            (min.0 as nat, min.1 as nat),
        ),
{
    if actual.0 < min.0 || (actual.0 == min.0 && actual.1 < min.1) {
        let mut e = text::owned(label);
        e.append(" ");
        e.append(number::to_decimal(actual.0 as u64).as_str());
        e.append(".");
        e.append(number::to_decimal(actual.1 as u64).as_str());
        e.append(" is below the minimum required version ");
        e.append(number::to_decimal(min.0 as u64).as_str());
        e.append(".");
        e.append(number::to_decimal(min.1 as u64).as_str());
        e.append(". Please upgrade.");
        Err(e)
    } else {
        Ok(())
    }
}

// ---------------------------------------------------------------- Homebrew

/// Whether Homebrew is the package manager that one expects on a platform.
pub fn is_brew_eligible(platform: &Platform) -> (r: bool)
    ensures
        r == (platform is Macos || platform is NativeLinux),
{
    match platform {
        Platform::Macos => true,
        Platform::NativeLinux(_) => true,
        _ => false,
    }
}

/// Whether the user can be asked about Homebrew.
pub fn can_prompt_brew(platform: &Platform, terminal: bool) -> (r: bool)
    ensures
        r == ((platform is Macos || platform is NativeLinux) && terminal),
{
    is_brew_eligible(platform) && terminal
}

/// The formulas of some programs, each once, as they come.
pub open spec fn formulas(v: Seq<DependencyView>) -> Seq<Seq<char>>
    decreases v.len(),
{
    if v.len() == 0 {
        Seq::empty()
    } else {
        let rest = formulas(v.drop_last());
        match v.last().brew_formula {
            Some(f) => if rest.contains(f) {
                rest
            } else {
                rest.push(f)
            },
            None => rest,
        }
    }
}

/// The formulas that bring some programs, each once.
pub fn dedup_formulas(v: &Vec<Dependency>) -> (r: Vec<String>)
    ensures
        text::texts(r@) == formulas(deps(v@)),
{
    let ghost views = deps(v@);
    let mut r = text::no_texts();
    let mut i: usize = 0;
    assert(views.take(0) =~= Seq::empty());
    while i < v.len()
        invariant
            i <= v@.len(),
            views == deps(v@),
            text::texts(r@) == formulas(views.take(i as int)),
        decreases v@.len() - i,
    {
        assert(views.take(i + 1).drop_last() =~= views.take(i as int));
        assert(views.take(i + 1).last() == v@[i as int]@);
        if let Some(f) = &v[i].brew_formula {
            if !is_listed(&r, f.as_str()) {
                push_text(&mut r, f.as_str());
            }
        }
        i += 1;
    }
    assert(views.take(i as int) =~= views);
    r
}

/// The arguments of `brew` that install formulas.
pub fn run_brew_install(formulas: &Vec<String>) -> (r: Vec<String>)
    ensures
        text::texts(r@) == seq!["install"@] + text::texts(formulas@),
{
    let mut r = text::no_texts();
    push_text(&mut r, "install");
    text::push_all(&mut r, formulas);
    assert(text::texts(r@) =~= seq!["install"@] + text::texts(formulas@));
    r
}

/// The question whether a formula is to be installed; `None` where it cannot be put or Homebrew
/// is not there.
pub fn offer_brew_install(
    formula: &str,
    platform: &Platform,
    terminal: bool,
    brew_found: bool,
) -> (r: Option<String>)
    ensures
        r is Some <==> (platform is Macos || platform is NativeLinux) && terminal && brew_found,
        r matches Some(q) ==> q@ == "Install `"@ + formula@ + "` via Homebrew now?"@,
{
    if !can_prompt_brew(platform, terminal) || !brew_found {
        return None;
    }
    let mut q = text::owned("Install `");
    q.append(formula);
    q.append("` via Homebrew now?");
    Some(q)
}

/// The programs that have a formula.
pub open spec fn with_formula() -> spec_fn(DependencyView) -> bool {
    |d: DependencyView| d.brew_formula is Some
}

/// The names of some programs.
pub open spec fn names(v: Seq<DependencyView>) -> Seq<Seq<char>> {
    v.map_values(|d: DependencyView| d.name)
}

/// The programs of a list that have a formula.
pub fn installable(v: &Vec<Dependency>) -> (r: Vec<Dependency>)
    ensures
        deps(r@) == picked(deps(v@), with_formula()),
{
    let ghost views = deps(v@);
    let mut r: Vec<Dependency> = Vec::new();
    let mut i: usize = 0;
    assert(views.take(0) =~= Seq::empty());
    assert(deps(r@) =~= Seq::empty());
    while i < v.len()
        invariant
            i <= v@.len(),
            views == deps(v@),
            deps(r@) == picked(views.take(i as int), with_formula()),
        decreases v@.len() - i,
    {
        assert(views.take(i + 1).drop_last() =~= views.take(i as int));
        assert(views.take(i + 1).last() == v@[i as int]@);
        if v[i].brew_formula.is_some() {
            put(&mut r, copy(&v[i]));
        }
        i += 1;
    }
    assert(views.take(i as int) =~= views);
    r
}

/// The names of some programs.
pub fn names_of(v: &Vec<Dependency>) -> (r: Vec<String>)
    ensures
        text::texts(r@) == names(deps(v@)),
{
    let ghost all = names(deps(v@));
    let mut r = text::no_texts();
    let mut i: usize = 0;
    while i < v.len()
        invariant
            i <= v@.len(),
            all == names(deps(v@)),
            text::texts(r@) == all.take(i as int),
        decreases v@.len() - i,
    {
        push_text(&mut r, v[i].name.as_str());
        assert(all.take(i + 1) =~= all.take(i as int).push(all[i as int]));
        i += 1;
    }
    assert(all.take(i as int) =~= all);
    r
}

/// What to do about missing programs.
#[derive(Debug, Clone, PartialEq, Eq)]
pub enum BrewOffer {
    /// Nothing can be offered.
    Nothing,
    /// Homebrew would bring some, but is not there itself.
    Warn(String),
    /// The user is asked; these formulas are installed on a yes.
    Ask { question: String, formulas: Vec<String> },
}

/// What to do about missing programs: those that Homebrew can bring are offered to a user who can
/// be asked.
pub fn maybe_offer_brew_install(
    missing: &Vec<Dependency>,
    platform: &Platform,
    terminal: bool,
    brew_found: bool,
) -> (r: BrewOffer)
    ensures
        ({
            let able = picked(deps(missing@), with_formula());
            if !((platform is Macos || platform is NativeLinux) && terminal) || able.len() == 0 {
                r is Nothing
            } else if !brew_found {
                r matches BrewOffer::Warn(w) && w@
                    == "Homebrew not found; install the missing dependencies manually or install Homebrew first."@
            } else {
                r matches BrewOffer::Ask { question, formulas: f } && question@
                    == "Install missing dependencies ("@ + lines::joined(names(able), ", "@)
                    + ") via Homebrew now?"@ && text::texts(f@) == formulas(able)
            }
        }),
{
    if !can_prompt_brew(platform, terminal) {
        return BrewOffer::Nothing;
    }
    let able = installable(missing);
    assert(deps(able@).len() == able@.len());
    if able.len() == 0 {
        return BrewOffer::Nothing;
    }
    if !brew_found {
        return BrewOffer::Warn(
            text::owned(
                "Homebrew not found; install the missing dependencies manually or install Homebrew first.",
            ),
        );
    }
    let mut question = text::owned("Install missing dependencies (");
    question.append(lines::join(&names_of(&able), ", ").as_str());
    question.append(") via Homebrew now?");
    BrewOffer::Ask { question, formulas: dedup_formulas(&able) }
}

/// Whether a program is still missing after an installation: it had no formula, or it was looked
/// for again in vain.
pub open spec fn still_missing(absent: Seq<Seq<char>>) -> spec_fn(DependencyView) -> bool {
    |d: DependencyView| d.brew_formula is None || absent.contains(d.name)
}

/// The programs of a list that are still missing after an installation, where `absent` names
/// those that were looked for again in vain.
pub fn retain_missing(missing: &Vec<Dependency>, absent: &Vec<String>) -> (r: Vec<Dependency>)
    ensures
        deps(r@) == picked(deps(missing@), still_missing(text::texts(absent@))),
{
    let ghost views = deps(missing@);
    let ghost gone = text::texts(absent@);
    let mut r: Vec<Dependency> = Vec::new();
    let mut i: usize = 0;
    assert(views.take(0) =~= Seq::empty());
    assert(deps(r@) =~= Seq::empty());
    while i < missing.len()
        invariant
            i <= missing@.len(),
            views == deps(missing@),
            gone == text::texts(absent@),
            deps(r@) == picked(views.take(i as int), still_missing(gone)),
        decreases missing@.len() - i,
    {
        assert(views.take(i + 1).drop_last() =~= views.take(i as int));
        assert(views.take(i + 1).last() == missing@[i as int]@);
        if missing[i].brew_formula.is_none() || is_listed(absent, missing[i].name.as_str()) {
            put(&mut r, copy(&missing[i]));
        }
        i += 1;
    }
    assert(views.take(i as int) =~= views);
    r
}

/// The programs that Homebrew brings on a system.
pub open spec fn brought(macos: bool) -> spec_fn(DependencyView) -> bool {
    |d: DependencyView|
        d.brew_formula is Some && !(macos && (d.command == "setfacl"@ || d.command == "getfacl"@))
}

/// The programs that Homebrew is asked to install, critical or not.
pub fn install_brew_dependencies(macos: bool, brew_found: bool) -> (r: Result<
    Vec<Dependency>,
    String,
>)
    ensures
        brew_found ==> (r matches Ok(v) && deps(v@) == picked(all_dependencies(), brought(macos))),
        !brew_found ==> (r matches Err(e) && e@
            == "Homebrew is not installed. Install it from https://brew.sh and try again."@),
{
    if !brew_found {
        return Err(
            text::owned(
                "Homebrew is not installed. Install it from https://brew.sh and try again.",
            ),
        );
    }
    let all = dependencies();
    let ghost views = all_dependencies();
    let mut r: Vec<Dependency> = Vec::new();
    let mut i: usize = 0;
    assert(views.take(0) =~= Seq::empty());
    assert(deps(r@) =~= Seq::empty());
    while i < all.len()
        invariant
            i <= all@.len(),
            views == deps(all@),
            deps(r@) == picked(views.take(i as int), brought(macos)),
        decreases all@.len() - i,
    {
        assert(views.take(i + 1).drop_last() =~= views.take(i as int));
        assert(views.take(i + 1).last() == all@[i as int]@);
        if all[i].brew_formula.is_some() && !(macos && (same(all[i].command.as_str(), "setfacl")
            || same(all[i].command.as_str(), "getfacl"))) {
            put(&mut r, copy(&all[i]));
        }
        i += 1;
    }
    assert(views.take(i as int) =~= views);
    Ok(r)
}

/// What is told before formulas are installed.
pub fn installing(formulas: &Vec<String>) -> (r: String)
    ensures
        r@ == "Installing "@ + number::decimal(formulas@.len()) + " Homebrew formula(s): "@
            + lines::joined(text::texts(formulas@), ", "@),
{
    let mut m = text::owned("Installing ");
    m.append(number::to_decimal(formulas.len() as u64).as_str());
    m.append(" Homebrew formula(s): ");
    m.append(lines::join(formulas, ", ").as_str());
    m
}

/// How an installation went, by its success and the names of what is still not there.
pub fn install_report(formulas: &Vec<String>, success: bool, absent: &Vec<String>) -> (r: Result<
    Message,
    String,
>)
    ensures
        !success ==> (r matches Err(e) && e@ == "`brew install "@ + lines::joined(
            text::texts(formulas@),
            " "@,
        ) + "` failed; see the output above."@),
        success && absent@.len() == 0 ==> (r matches Ok(m) && m.level == Level::Success && m.text@
            == "All Homebrew-installable dependencies are present."@),
        success && absent@.len() > 0 ==> (r matches Ok(m) && m.level == Level::Warning && m.text@
            == "These dependencies are still missing after installation and may need manual setup: "@
            + lines::joined(text::texts(absent@), ", "@)),
{
    if !success {
        let mut e = text::owned("`brew install ");
        e.append(lines::join(formulas, " ").as_str());
        e.append("` failed; see the output above.");
        return Err(e);
    }
    if absent.len() == 0 {
        Ok(
            Message {
                level: Level::Success,
                text: text::owned("All Homebrew-installable dependencies are present."),
            },
        )
    } else {
        let mut m = text::owned(
            "These dependencies are still missing after installation and may need manual setup: ",
        );
        m.append(lines::join(absent, ", ").as_str());
        Ok(Message { level: Level::Warning, text: m })
    }
}

// ---------------------------------------------------------------- the verdict

/// How a missing program is reported.
pub open spec fn complaint(d: DependencyView) -> (Level, Seq<char>) {
    if d.critical {
        (
            Level::Critical,
            "Critical dependency '"@ + d.name + "' ("@ + d.command + ") is missing! "@
                + d.description,
        )
    } else {
        (
            Level::Warning,
            "Optional dependency '"@ + d.name + "' ("@ + d.command + ") is missing. "@
                + d.description,
        )
    }
}

/// The reports on the missing programs of one kind.
pub open spec fn complaints(v: Seq<DependencyView>, critical: bool) -> Seq<(Level, Seq<char>)>
    decreases v.len(),
{
    if v.len() == 0 {
        Seq::empty()
    } else {
        let rest = complaints(v.drop_last(), critical);
        if v.last().critical == critical {
            rest.push(complaint(v.last()))
        } else {
            rest
        }
    }
}

/// How many of some programs are critical.
pub open spec fn criticals(v: Seq<DependencyView>) -> nat
    decreases v.len(),
{
    if v.len() == 0 {
        0
    } else {
        criticals(v.drop_last()) + (if v.last().critical {
            1nat
        } else {
            0
        })
    }
}

fn complain(out: &mut Vec<Message>, v: &Vec<Dependency>, critical: bool) -> (n: usize)
    ensures
        ui::said(final(out)@) == ui::said(old(out)@) + complaints(deps(v@), critical),
        critical ==> n == criticals(deps(v@)),
{
    let ghost views = deps(v@);
    let ghost before = ui::said(out@);
    let mut n: usize = 0;
    let mut i: usize = 0;
    assert(views.take(0) =~= Seq::empty());
    assert(ui::said(out@) =~= before + complaints(views.take(0), critical));
    while i < v.len()
        invariant
            i <= v@.len(),
            n <= i,
            views == deps(v@),
            ui::said(out@) == before + complaints(views.take(i as int), critical),
            critical ==> n == criticals(views.take(i as int)),
        decreases v@.len() - i,
    {
        assert(views.take(i + 1).drop_last() =~= views.take(i as int));
        assert(views.take(i + 1).last() == v@[i as int]@);
        let ghost so_far = ui::said(out@);
        if v[i].critical == critical {
            let (level, mut m) = if critical {
                (Level::Critical, text::owned("Critical dependency '"))
            } else {
                (Level::Warning, text::owned("Optional dependency '"))
            };
            m.append(v[i].name.as_str());
            m.append("' (");
            m.append(v[i].command.as_str());
            m.append(
                if critical {
                    ") is missing! "
                } else {
                    ") is missing. "
                },
            );
            m.append(v[i].description.as_str());
            ui::say(out, level, m);
            n += 1;
        }
        assert(ui::said(out@) =~= before + complaints(views.take(i + 1), critical));
        i += 1;
    }
    assert(views.take(i as int) =~= views);
    n
}

/// What a version that was printed means: what is told, and the error where it is too old.
pub open spec fn version_verdict(
    label: Seq<char>,
    output: Option<Seq<char>>,
    min: (nat, nat),
) -> (Seq<(Level, Seq<char>)>, Option<Seq<char>>) {
    match output {
        None => (Seq::empty(), None),
        Some(o) => match version_in(o) {
            None => (
                seq![
                    (
                        Level::Warning,
                        "Could not parse "@ + label + " version from: "@ + text::trimmed(o),
                    ),
                ],
                None,
            ),
            Some(v) => if older(v, min) {
                (seq![(Level::Critical, too_old(label, v, min))], Some(too_old(label, v, min)))
            } else {
                (Seq::empty(), None)
            },
        },
    }
}

fn check_output(
    out: &mut Vec<Message>,
    label: &str,
    output: Option<&str>,
    min: (u32, u32),
) -> (r: Option<String>)
    ensures
        ({
            let verdict = version_verdict(
                label@,
                docker::opt_str(output),
                (min.0 as nat, min.1 as nat),
            );
            ui::said(final(out)@) == ui::said(old(out)@) + verdict.0 && paths::opt(r) == verdict.1
        }),
{
    let ghost before = ui::said(out@);
    assert(before + Seq::empty() =~= before);
    match output {
        None => None,
        Some(o) => match parse_version(o) {
            None => {
                let mut m = text::owned("Could not parse ");
                m.append(label);
                m.append(" version from: ");
                m.append(text::trim(o).as_str());
                ui::say(out, Level::Warning, m);
                assert(ui::said(out@) =~= before + seq![
                    (
                        Level::Warning,
                        "Could not parse "@ + label@ + " version from: "@ + text::trimmed(o@),
                    ),
                ]);
                None
            },
            Some(v) => match check_version(label, v, min) {
                Ok(()) => None,
                Err(e) => {
                    ui::say(out, Level::Critical, text::owned(e.as_str()));
                    assert(ui::said(out@) =~= before + seq![(Level::Critical, e@)]);
                    Some(e)
                },
            },
        },
    }
}

/// Reports the programs that are missing, and accepts the rest: no critical one may be missing,
/// and Docker and Docker Compose may not be too old for the templates. `docker_out` and
/// `compose_out` are what they printed of their versions.
pub fn check_dependencies(
    missing: &Vec<Dependency>,
    docker_out: Option<&str>,
    compose_out: Option<&str>,
) -> (r: (Vec<Message>, Result<(), String>))
    ensures
        ({
            let m = deps(missing@);
            let told = complaints(m, false) + complaints(m, true);
            let d = version_verdict("Docker"@, docker::opt_str(docker_out), (20, 10));
            let c = version_verdict("Docker Compose"@, docker::opt_str(compose_out), (2, 4));
            if criticals(m) > 0 {
                &&& ui::said(r.0@) == told
                &&& r.1 matches Err(e)
                &&& e@ == "Missing "@ + number::decimal(criticals(m))
                    + " critical dependencies. Please install them and try again."@
            } else if d.1 is Some {
                &&& ui::said(r.0@) == told + d.0
                &&& r.1 matches Err(e)
                &&& Some(e@) == d.1
            } else {
                &&& ui::said(r.0@) == told + d.0 + c.0
                &&& (match r.1 {
                    Ok(_) => c.1 is None,
                    Err(e) => c.1 == Some(e@),
                })
            }
        }),
{
    let mut out: Vec<Message> = Vec::new();
    assert(ui::said(out@) =~= Seq::empty());
    complain(&mut out, missing, false);
    let n = complain(&mut out, missing, true);
    assert(ui::said(out@) =~= complaints(deps(missing@), false) + complaints(deps(missing@), true));
    if n > 0 {
        let mut e = text::owned("Missing ");
        e.append(number::to_decimal(n as u64).as_str());
        e.append(" critical dependencies. Please install them and try again.");
        return (out, Err(e));
    }
    if let Some(e) = check_output(&mut out, "Docker", docker_out, (20, 10)) {
        return (out, Err(e));
    }
    if let Some(e) = check_output(&mut out, "Docker Compose", compose_out, (2, 4)) {
        return (out, Err(e));
    }
    (out, Ok(()))
}

// ---------------------------------------------------------------- laws

/// What is picked keeps to the rule and was there before.
pub proof fn lemma_picked(v: Seq<DependencyView>, rule: spec_fn(DependencyView) -> bool, i: int)
    requires
        0 <= i < picked(v, rule).len(),
    ensures
        rule(picked(v, rule)[i]),
        exists|k: int| 0 <= k < v.len() && v[k] == picked(v, rule)[i],
    decreases v.len(),
{
    let rest = picked(v.drop_last(), rule);
    if i < rest.len() {
        lemma_picked(v.drop_last(), rule, i);
        let k = choose|k: int| 0 <= k < v.drop_last().len() && v.drop_last()[k] == rest[i];
        assert(v[k] == rest[i]);
    } else {
        assert(v[v.len() - 1] == picked(v, rule)[i]);
    }
}

/// At a start only programs that nothing works without are looked for, so nothing is reported as
/// optional and missing then.
pub proof fn a_start_looks_for_critical_programs_only(macos: bool, windows: bool, i: int)
    requires
        0 <= i < picked(all_dependencies(), at_start(macos, windows)).len(),
    ensures
        picked(all_dependencies(), at_start(macos, windows))[i].critical,
{
    lemma_picked(all_dependencies(), at_start(macos, windows), i);
}

proof fn lemma_formulas_distinct(v: Seq<DependencyView>)
    ensures
        formulas(v).no_duplicates(),
    decreases v.len(),
{
    if v.len() > 0 {
        lemma_formulas_distinct(v.drop_last());
    }
}

/// No formula is installed twice, and every program that has one gets its formula.
pub proof fn formulas_cover_each_program_once(v: Seq<DependencyView>)
    ensures
        formulas(v).no_duplicates(),
        forall|i: int|
            0 <= i < v.len() ==> ((#[trigger] v[i]).brew_formula matches Some(f) ==> formulas(
                v,
            ).contains(f)),
    decreases v.len(),
{
    lemma_formulas_distinct(v);
    if v.len() > 0 {
        let t = v.drop_last();
        formulas_cover_each_program_once(t);
        assert forall|i: int| 0 <= i < v.len() implies ((#[trigger] v[i]).brew_formula matches Some(
            f,
        ) ==> formulas(v).contains(f)) by {
            if let Some(f) = v[i].brew_formula {
                if i < v.len() - 1 {
                    assert(t[i] == v[i]);
                    assert(formulas(t).contains(f));
                    let k = choose|k: int| 0 <= k < formulas(t).len() && formulas(t)[k] == f;
                    assert(formulas(v)[k] == f);
                } else if !formulas(t).contains(f) {
                    assert(formulas(v)[formulas(v).len() - 1] == f);
                }
            }
        }
    }
}

} // verus!
