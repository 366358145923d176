//! What holds of the rules that the commands share.
use vstd::prelude::*;

use crate::commands::install_deps;
use crate::json;
use crate::lines;
use crate::number;
use crate::paths;
use crate::text;
use crate::ui;
use crate::ui::{Level, Message};
use crate::utils;
use crate::utils::acl;
use crate::utils::dependencies;
use crate::utils::dependencies::{BrewOffer, Dependency, DependencyView};
use crate::utils::forwarding;
use crate::utils::forwarding::{ContainerDirs, Forwarding};
use crate::utils::platform;
use crate::utils::platform::{Interface, Platform, PlatformInfo};
use crate::utils::sudo;
use crate::utils::sudo::SudoCall;
use crate::utils::throttle_cache;

verus! {

// ---------------------------------------------------------------- access

/// The user's access counts as set where both the files that are there and those to come have it;
/// what could not be read counts as not set.
pub proof fn access_is_set_for_new_files_too(output: Option<&str>, uid: u32, r: bool, i: int, j: int)
    requires
        call_ensures(acl::linux_host_acl_already_set, (output, uid), r),
    ensures
        output is None ==> !r,
        output matches Some(o) ==> {
            let all = lines::lines(o@);
            let entry = "user:"@ + number::decimal(uid as nat) + ":rwx"@;
            0 <= i < all.len() && 0 <= j < all.len() && text::trimmed(all[i]) == entry
                && text::trimmed(all[j]) == "default:"@ + entry ==> r
        },
        r ==> output is Some && (exists|k: int|
            0 <= k < lines::lines(output->0@).len() && text::trimmed(
                #[trigger] lines::lines(output->0@)[k],
            ) == "default:"@ + ("user:"@ + number::decimal(uid as nat) + ":rwx"@)),
{
}

/// On macOS one entry does for both, where it is passed on to files and to directories.
pub proof fn access_is_passed_on(output: Option<&str>, name: &str, r: bool)
    requires
        call_ensures(acl::macos_host_acl_already_set, (output, name), r),
    ensures
        output is None ==> !r,
        output matches Some(o) ==> (r <==> exists|i: int|
            0 <= i < lines::lines(o@).len() && {
                let l = text::trimmed(#[trigger] lines::lines(o@)[i]);
                text::has_text(l, "user:"@ + name@ + " allow"@) && text::has_text(
                    l,
                    "file_inherit"@,
                ) && text::has_text(l, "directory_inherit"@)
            }),
{
    if let Some(o) = output {
        if r {
            let i = choose|i: int|
                0 <= i < lines::lines(o@).len() && acl::grants(
                    #[trigger] lines::lines(o@)[i],
                    name@,
                );
            assert(acl::grants(lines::lines(o@)[i], name@));
        }
        if exists|i: int|
            0 <= i < lines::lines(o@).len() && {
                let l = text::trimmed(#[trigger] lines::lines(o@)[i]);
                text::has_text(l, "user:"@ + name@ + " allow"@) && text::has_text(
                    l,
                    "file_inherit"@,
                ) && text::has_text(l, "directory_inherit"@)
            } {
            let i = choose|i: int|
                0 <= i < lines::lines(o@).len() && {
                    let l = text::trimmed(#[trigger] lines::lines(o@)[i]);
                    text::has_text(l, "user:"@ + name@ + " allow"@) && text::has_text(
                        l,
                        "file_inherit"@,
                    ) && text::has_text(l, "directory_inherit"@)
                };
            assert(acl::grants(lines::lines(o@)[i], name@));
        }
    }
}

/// A user is called what the environment says, or else what the system says, or else by number.
pub proof fn a_user_has_a_name(user: Option<&str>, id: Option<&str>, uid: u32, r: String)
    requires
        call_ensures(acl::current_username, (user, id, uid), r),
    ensures
        user is Some && user->0@.len() > 0 ==> r@ == user->0@,
        !(user is Some && user->0@.len() > 0) && id is Some && text::trimmed(id->0@).len() > 0
            ==> r@ == text::trimmed(id->0@),
        !(user is Some && user->0@.len() > 0) && !(id is Some && text::trimmed(id->0@).len() > 0)
            ==> r@ == number::decimal(uid as nat),
{
}

/// Access is given once, to all files of the application and to those to come, and to the user
/// alone: on macOS by one entry, elsewhere by one for each. Where it is set, nothing is done.
pub proof fn access_is_given_to_new_files_too(
    macos: bool,
    set: bool,
    uid: u32,
    name: &str,
    ace: String,
    r: Vec<Vec<String>>,
)
    requires
        call_ensures(acl::macos_host_ace, (name,), ace),
        call_ensures(acl::apply_host_acl, (macos, set, uid, name), r),
    ensures
        set <==> r@.len() == 0,
        !set && macos ==> acl::calls(r@) == seq![
            seq!["chmod"@, "-R"@, "+a"@, ace@, "htdocs"@],
        ],
        ace@ == "user:"@ + name@ + " allow "@
            + "read,write,execute,file_inherit,directory_inherit"@,
        !set && !macos ==> {
            let entry = "u:"@ + number::decimal(uid as nat) + ":rwX"@;
            acl::calls(r@) == seq![
                seq!["setfacl"@, "-R"@, "-m"@, entry, "htdocs"@],
                seq!["setfacl"@, "-R"@, "-d"@, "-m"@, entry, "htdocs"@],
            ]
        },
{
    let c = acl::calls(r@);
    assert(c.len() == r@.len());
    if !set && !macos {
        let entry = "u:"@ + number::decimal(uid as nat) + ":rwX"@;
        assert(c[0] =~= seq!["setfacl"@, "-R"@, "-m"@, entry, "htdocs"@]);
        assert(c[1] =~= seq!["setfacl"@, "-R"@, "-d"@, "-m"@, entry, "htdocs"@]);
        assert(c =~= seq![
            seq!["setfacl"@, "-R"@, "-m"@, entry, "htdocs"@],
            seq!["setfacl"@, "-R"@, "-d"@, "-m"@, entry, "htdocs"@],
        ]);
    }
}

/// The web server's user gets access in the container, by root, to what is there and to what is to
/// come.
pub proof fn the_web_server_gets_access(dir: &str, r: Vec<Vec<String>>)
    requires
        call_ensures(acl::apply_container_acl, (dir,), r),
    ensures
        acl::calls(r@).len() == 2,
        acl::calls(r@)[0].take(8) == seq![
            "compose"@,
            "--project-directory"@,
            dir@,
            "exec"@,
            "-T"@,
            "-u"@,
            "root"@,
            "php"@,
        ],
        acl::calls(r@)[1].take(8) == acl::calls(r@)[0].take(8),
        acl::calls(r@)[0].skip(8) == seq!["setfacl"@, "-R"@, "-m"@, "u:33:rwX"@, "/var/www"@],
        acl::calls(r@)[1].skip(8) == seq![
            "setfacl"@,
            "-R"@,
            "-d"@,
            "-m"@,
            "u:33:rwX"@,
            "/var/www"@,
        ],
{
    let a = acl::calls(r@)[0];
    let b = acl::calls(r@)[1];
    assert(a.take(8) =~= seq![
        "compose"@,
        "--project-directory"@,
        dir@,
        "exec"@,
        "-T"@,
        "-u"@,
        "root"@,
        "php"@,
    ]);
    assert(b.take(8) =~= a.take(8));
    assert(a.skip(8) =~= seq!["setfacl"@, "-R"@, "-m"@, "u:33:rwX"@, "/var/www"@]);
    assert(b.skip(8) =~= seq!["setfacl"@, "-R"@, "-d"@, "-m"@, "u:33:rwX"@, "/var/www"@]);
}

// ---------------------------------------------------------------- the key agent

/// The forwarding is started once, and only where the user has an agent: on the address of the
/// machine, for the socket of the agent.
pub proof fn the_agent_is_forwarded_once(
    open: bool,
    ip: &str,
    port: u16,
    agent: Option<&str>,
    address: String,
    r: (Forwarding, Vec<Message>),
)
    requires
        call_ensures(forwarding::socket_address, (ip, port), address),
        call_ensures(forwarding::ensure_forwarding, (open, ip, port, agent), r),
    ensures
        address@ == ip@ + ":"@ + number::decimal(port as nat),
        r.0 is Open <==> open,
        r.0 is Start <==> !open && agent is Some,
        r.0 is NoAgent <==> !open && agent is None,
        r.0 matches Forwarding::Start { address: a, socket } ==> a@ == address@ && socket@
            == agent->0@,
        r.0 is NoAgent ==> r.1@.len() == 1 && r.1@[0].level == Level::Warning,
{
    if !open && agent is None {
        let said = ui::said(r.1@);
        assert(said.len() == r.1@.len());
        assert(said[0] == (r.1@[0].level, r.1@[0].text@));
    }
}

proof fn lemma_projects(all: Seq<ContainerDirs>, existing: Seq<Seq<char>>, d: Seq<char>)
    ensures
        forwarding::projects_of(all, existing).contains(d) <==> forwarding::restartable(
            d,
            existing,
        ) && exists|i: int|
            0 <= i < all.len() && forwarding::dir_of(#[trigger] all[i]) == Some(d),
    decreases all.len(),
{
    if all.len() > 0 {
        let w = all.drop_last();
        lemma_projects(w, existing, d);
        let rest = forwarding::projects_of(w, existing);
        if let Some(x) = forwarding::dir_of(all.last()) {
            vstd::seq_lib::lemma_seq_contains_after_push(rest, x, d);
        }
        if exists|i: int| 0 <= i < w.len() && forwarding::dir_of(#[trigger] w[i]) == Some(d) {
            let i = choose|i: int|
                0 <= i < w.len() && forwarding::dir_of(#[trigger] w[i]) == Some(d);
            assert(all[i] == w[i]);
        }
        if exists|i: int| 0 <= i < all.len() && forwarding::dir_of(#[trigger] all[i]) == Some(d) {
            let i = choose|i: int|
                0 <= i < all.len() && forwarding::dir_of(#[trigger] all[i]) == Some(d);
            if i < w.len() {
                assert(all[i] == w[i]);
            }
        }
        assert(all[all.len() - 1] == all.last());
    }
}

/// Every project with containers that can be restarted is restarted, once, and no other; the
/// directory that the tool noted counts before that of Docker Compose.
pub proof fn every_project_is_restarted_once(
    containers: &Vec<ContainerDirs>,
    existing: &Vec<String>,
    r: Vec<String>,
    i: int,
    j: int,
    d: Seq<char>,
)
    requires
        call_ensures(forwarding::restart_php_containers, (containers, existing), r),
    ensures
        0 <= i < containers@.len() && containers@[i].plugin is Some && containers@[i].plugin->0@
            == d && forwarding::restartable(d, text::texts(existing@)) ==> text::texts(
            r@,
        ).contains(d),
        0 <= i < containers@.len() && containers@[i].plugin is None && containers@[i].compose
            is Some && containers@[i].compose->0@ == d && forwarding::restartable(
            d,
            text::texts(existing@),
        ) ==> text::texts(r@).contains(d),
        0 <= i < j < r@.len() ==> r@[i]@ != r@[j]@,
        text::texts(r@).contains(d) ==> d.len() > 0 && text::texts(existing@).contains(d) && (
        text::texts(existing@).contains(paths::below(d, "compose.yml"@)) || text::texts(
            existing@,
        ).contains(paths::below(d, "docker-compose.yml"@))),
{
    let e = text::texts(existing@);
    lemma_projects(containers@, e, d);
    forwarding::projects_are_restarted_once(containers@, e);
    let t = text::texts(r@);
    assert(t.len() == r@.len());
    if 0 <= i < containers@.len() {
        if containers@[i].plugin is Some && containers@[i].plugin->0@ == d {
            assert(forwarding::dir_of(containers@[i]) == Some(d));
        }
        if containers@[i].plugin is None && containers@[i].compose is Some
            && containers@[i].compose->0@ == d {
            assert(forwarding::dir_of(containers@[i]) == Some(d));
        }
    }
    if 0 <= i < j < r@.len() {
        assert(t[i] == r@[i]@ && t[j] == r@[j]@);
    }
}

/// A project goes down before it comes up again.
pub proof fn a_project_goes_down_and_up(project: &str, r: (Vec<String>, Vec<String>))
    requires
        call_ensures(forwarding::restart_calls, (project,), r),
    ensures
        text::texts(r.0@) == seq!["compose"@, "--project-directory"@, project@, "down"@],
        text::texts(r.1@) == seq!["compose"@, "--project-directory"@, project@, "up"@, "-d"@],
{
    assert(text::texts(r.0@) =~= seq!["compose"@, "--project-directory"@, project@, "down"@]);
    assert(text::texts(r.1@) =~= seq!["compose"@, "--project-directory"@, project@, "up"@, "-d"@]);
}

// ---------------------------------------------------------------- the platform

/// The platform is told by the system, then by its kernel, then by Docker; the bridge of Docker
/// counts on a Linux of its own alone, and every other machine is reached as itself.
pub proof fn the_system_decides_on_the_platform(
    os: &str,
    kernel: Option<&str>,
    info: Option<&str>,
    bridge: Option<&str>,
    r: PlatformInfo,
    asks: bool,
)
    requires
        call_ensures(platform::detect_platform, (os, kernel, info, bridge), r),
        call_ensures(platform::needs_docker_info, (os, kernel), asks),
    ensures
        ({
            let wsl = kernel is Some && (text::has_text(
                text::lowercase(kernel->0@),
                "microsoft"@,
            ) || text::has_text(text::lowercase(kernel->0@), "wsl"@));
            let p = r.platform;
            &&& p is Macos <==> os@ == "macos"@
            &&& p is Wsl <==> os@ == "linux"@ && wsl
            &&& p is Windows ==> os@ == "windows"@
            &&& p is Unknown <==> os@ != "macos"@ && os@ != "linux"@ && os@ != "windows"@
            &&& p is NativeLinux ==> os@ == "linux"@ && !wsl
            &&& os@ == "linux"@ && !wsl && info is None ==> p is NativeLinux
            &&& p is NativeLinux && bridge is Some ==> r.bind_ip@ == bridge->0@
            &&& p is NativeLinux && bridge is None ==> r.bind_ip@ == "127.0.0.1"@
            &&& p is Macos || p is Wsl || p is DockerDesktop || p is Windows ==> r.bind_ip@
                == "127.0.0.1"@
            &&& p is DockerDesktop ==> asks
            &&& os@ == "macos"@ ==> !asks
        }),
{
    reveal_strlit("macos");
    reveal_strlit("linux");
    reveal_strlit("windows");
    assert("macos"@[0] == 'm' && "linux"@[0] == 'l' && "windows"@[0] == 'w');
}

proof fn lemma_bridge(all: Seq<Interface>, k: int)
    requires
        0 <= k <= all.len(),
        forall|i: int| 0 <= i < k ==> !platform::is_bridge(#[trigger] all[i]),
    ensures
        k == all.len() ==> platform::bridge_address(all) is None,
        k < all.len() && platform::is_bridge(all[k]) ==> platform::bridge_address(all)
            == paths::opt(all[k].ipv4),
    decreases k,
{
    if k > 0 {
        assert(!platform::is_bridge(all[0]));
        let w = all.drop_first();
        assert forall|i: int| 0 <= i < k - 1 implies !platform::is_bridge(#[trigger] w[i]) by {
            assert(w[i] == all[i + 1]);
        }
        lemma_bridge(w, k - 1);
    }
}

/// The bridge is the first interface of its name that has an address of its own.
pub proof fn the_bridge_goes_by_its_name(all: &Vec<Interface>, r: Option<String>, k: int)
    requires
        call_ensures(platform::get_docker0_ip, (all,), r),
        0 <= k <= all@.len(),
        forall|i: int|
            0 <= i < k ==> (#[trigger] all@[i]).name@ != "docker0"@ || all@[i].ipv4 is None
                || all@[i].ipv4->0@ == "127.0.0.1"@,
    ensures
        k == all@.len() ==> r is None,
        k < all@.len() && all@[k].name@ == "docker0"@ && all@[k].ipv4 is Some && all@[k].ipv4->0@
            != "127.0.0.1"@ ==> paths::opt(r) == Some(all@[k].ipv4->0@),
{
    assert forall|i: int| 0 <= i < k implies !platform::is_bridge(#[trigger] all@[i]) by {}
    lemma_bridge(all@, k);
}

/// Homebrew is where it says it is, if it says anything.
pub proof fn homebrew_says_where_it_is(output: Option<&str>, r: Option<String>)
    requires
        call_ensures(platform::get_brew_prefix, (output,), r),
    ensures
        r is Some <==> output is Some && text::trimmed(output->0@).len() > 0,
        r matches Some(p) ==> p@ == text::trimmed(output->0@),
{
}

// ---------------------------------------------------------------- elevated rights

/// What is run with elevated rights is what was asked for, where it was asked for.
pub proof fn nothing_else_is_elevated(
    dir: Option<&str>,
    args: &Vec<String>,
    a: SudoCall,
    b: SudoCall,
    started: bool,
    success: bool,
    status: &str,
    r: Result<(), String>,
)
    requires
        call_ensures(sudo::run, (args,), a),
        call_ensures(sudo::run_in, (dir, args), b),
        call_ensures(sudo::result, (args, started, success, status), r),
    ensures
        text::texts(a.args@) == text::texts(args@),
        text::texts(b.args@) == text::texts(args@),
        a.current_dir is None,
        dir is None <==> b.current_dir is None,
        dir matches Some(d) ==> b.current_dir->0@ == d@,
        r is Ok <==> started && success,
{
}

// ---------------------------------------------------------------- checks once in a while

/// A check that was never made, or of which nothing can be read, is due. So is one as long ago as
/// the interval or longer; one that is more recent is not.
pub proof fn a_check_is_due_after_its_interval(
    passed: Option<(i64, i32)>,
    interval: i64,
    r: bool,
    secs: i64,
    nanos: u32,
    never: bool,
)
    requires
        call_ensures(throttle_cache::reaches, (passed, interval), r),
        call_ensures(throttle_cache::is_due, (None::<&str>, secs, nanos, interval), never),
    ensures
        never,
        passed is None ==> r,
        passed matches Some(p) ==> {
            &&& p.0 > interval ==> r
            &&& p.0 < interval ==> !r
            &&& p.0 == interval && p.1 == 0 ==> r
        },
{
}

/// What is recorded of a check is its moment.
pub proof fn a_check_is_recorded(now: &str, r: String)
    requires
        call_ensures(throttle_cache::record, (now,), r),
    ensures
        r@ == "{"@ + "\"last_checked\":"@ + json::json_quoted(now@) + "}"@,
{
    reveal_strlit("{\"last_checked\":");
    reveal_strlit("{");
    reveal_strlit("\"last_checked\":");
    assert("{\"last_checked\":"@ =~= "{"@ + "\"last_checked\":"@);
}

// ---------------------------------------------------------------- programs

proof fn lemma_picks(v: Seq<DependencyView>, rule: spec_fn(DependencyView) -> bool, d: DependencyView)
    ensures
        dependencies::picked(v, rule).contains(d) <==> v.contains(d) && rule(d),
    decreases v.len(),
{
    if v.len() > 0 {
        let w = v.drop_last();
        lemma_picks(w, rule, d);
        vstd::seq_lib::lemma_seq_contains_after_push(w, v.last(), d);
        assert(w.push(v.last()) =~= v);
        vstd::seq_lib::lemma_seq_contains_after_push(
            dependencies::picked(w, rule),
            v.last(),
            d,
        );
    }
}

/// At every start exactly the programs are looked for that nothing works without.
pub proof fn a_start_looks_for_what_is_critical(
    macos: bool,
    windows: bool,
    all: Vec<Dependency>,
    r: Vec<Dependency>,
    d: DependencyView,
)
    requires
        call_ensures(dependencies::dependencies, (), all),
        call_ensures(dependencies::startup_dependencies, (macos, windows), r),
        d.command != "setfacl"@,
        d.command != "getfacl"@,
        d.command != "certutil"@,
    ensures
        dependencies::deps(r@).contains(d) <==> dependencies::deps(all@).contains(d) && d.critical,
{
    lemma_picks(dependencies::all_dependencies(), dependencies::at_start(macos, windows), d);
}

/// A command is held to the programs that it calls itself: a deployment packs, trusting a
/// certificate edits the stores of browsers, and access needs the programs for it, but on macOS,
/// which has its own.
pub proof fn a_command_needs_what_it_calls(
    command: &str,
    macos: bool,
    windows: bool,
    all: Vec<Dependency>,
    r: Vec<Dependency>,
    d: DependencyView,
)
    requires
        call_ensures(dependencies::dependencies, (), all),
        call_ensures(dependencies::command_dependencies, (command, macos, windows), r),
        dependencies::deps(all@).contains(d),
    ensures
        command@ == "deploy"@ && d.command == "7z"@ ==> dependencies::deps(r@).contains(d),
        command@ == "trust-ca"@ && d.command == "certutil"@ && !windows ==> dependencies::deps(
            r@,
        ).contains(d),
        (command@ == "start"@ || command@ == "restart"@ || command@ == "setacl"@ || command@
            == "doctor"@) && (d.command == "setfacl"@ || d.command == "getfacl"@) ==> (
        dependencies::deps(r@).contains(d) <==> !macos),
        command@ == "status"@ || command@ == "stop"@ || command@ == "init"@ ==> r@.len() == 0,
{
    reveal_strlit("7z");
    reveal_strlit("certutil");
    reveal_strlit("setfacl");
    reveal_strlit("getfacl");
    reveal_strlit("deploy");
    reveal_strlit("trust-ca");
    reveal_strlit("start");
    reveal_strlit("restart");
    reveal_strlit("setacl");
    reveal_strlit("doctor");
    reveal_strlit("status");
    reveal_strlit("stop");
    reveal_strlit("init");
    assert("7z"@.len() == 2 && "certutil"@.len() == 8 && "setfacl"@.len() == 7 && "getfacl"@.len()
        == 7);
    assert("deploy"@.len() == 6 && "trust-ca"@.len() == 8 && "start"@.len() == 5 && "restart"@.len()
        == 7 && "setacl"@.len() == 6 && "doctor"@.len() == 6 && "status"@.len() == 6
        && "stop"@.len() == 4 && "init"@.len() == 4);
    assert("deploy"@[0] == 'd' && "setacl"@[0] == 's' && "doctor"@[0] == 'd' && "status"@[0] == 's');
    assert("setacl"@[1] == 'e' && "status"@[1] == 't' && "deploy"@[1] == 'e' && "doctor"@[1] == 'o');
    let rule = dependencies::on_demand(command@, macos, windows);
    lemma_picks(dependencies::all_dependencies(), rule, d);
    let v = dependencies::deps(r@);
    assert(v.len() == r@.len());
    if (command@ == "status"@ || command@ == "stop"@ || command@ == "init"@) && v.len() > 0 {
        dependencies::lemma_picked(dependencies::all_dependencies(), rule, 0);
        assert(rule(v[0]));
    }
}

/// A program that fails though it is there is looked for instead of being called; any other is
/// called as it is listed.
pub proof fn a_program_is_looked_for(d: &Dependency, c: &str, which: bool, r: (String, Vec<String>))
    requires
        c@ == d.command@,
        call_ensures(dependencies::is_checked_via_which, (c,), which),
        call_ensures(dependencies::dependency_exists, (d,), r),
    ensures
        which <==> d.command@ == "scp"@ || d.command@ == "7z"@ || d.command@ == "getfacl"@
            || d.command@ == "certutil"@,
        which ==> r.0@ == "which"@ && text::texts(r.1@) == seq![d.command@],
        !which ==> r.0@ == d.command@ && text::texts(r.1@) == text::texts(d.args@),
{
}

// ---------------------------------------------------------------- versions

proof fn lemma_digits(d: Seq<char>, rest: Seq<char>)
    requires
        forall|i: int| 0 <= i < d.len() ==> text::is_digit(#[trigger] d[i]),
        rest.len() > 0 ==> !text::is_digit(rest[0]),
    ensures
        dependencies::digits_at_start(d + rest) == d,
    decreases d.len(),
{
    let s = d + rest;
    if d.len() > 0 {
        assert(s[0] == d[0]);
        assert(s.skip(1) =~= d.skip(1) + rest);
        assert forall|i: int| 0 <= i < d.skip(1).len() implies text::is_digit(
            #[trigger] d.skip(1)[i],
        ) by {
            assert(d.skip(1)[i] == d[i + 1]);
        }
        lemma_digits(d.skip(1), rest);
        assert(seq![d[0]] + d.skip(1) =~= d);
    } else {
        assert(s =~= rest);
        assert(dependencies::digits_at_start(s) =~= d);
    }
}

proof fn lemma_first_pair(before: Seq<char>, s: Seq<char>)
    requires
        forall|i: int| 0 <= i < before.len() ==> !text::is_digit(#[trigger] before[i]),
        dependencies::pair_at_start(s) is Some,
    ensures
        dependencies::first_pair(before + s) == dependencies::pair_at_start(s),
    decreases before.len(),
{
    let all = before + s;
    if before.len() == 0 {
        assert(all =~= s);
        assert(s.len() > 0);
    } else {
        assert(all[0] == before[0]);
        assert(!text::is_digit(before[0]));
        assert(dependencies::digits_at_start(all) =~= Seq::<char>::empty());
        assert(all.skip(1) =~= before.skip(1) + s);
        assert forall|i: int| 0 <= i < before.skip(1).len() implies !text::is_digit(
            #[trigger] before.skip(1)[i],
        ) by {
            assert(before.skip(1)[i] == before[i + 1]);
        }
        lemma_first_pair(before.skip(1), s);
    }
}

/// The version of a program is read where it first prints a number, a dot and another one, whatever
/// stands around them.
pub proof fn a_version_is_read(
    output: &str,
    before: Seq<char>,
    major: u32,
    minor: u32,
    rest: Seq<char>,
    r: Option<(u32, u32)>,
)
    requires
        call_ensures(dependencies::parse_version, (output,), r),
        output@ == before + (number::decimal(major as nat) + (seq!['.'] + (number::decimal(
            minor as nat,
        ) + rest))),
        forall|i: int| 0 <= i < before.len() ==> !text::is_digit(#[trigger] before[i]),
        rest.len() > 0 ==> !text::is_digit(rest[0]),
    ensures
        r == Some((major, minor)),
{
    let a = number::decimal(major as nat);
    let b = number::decimal(minor as nat);
    number::value_of_decimal(major as nat);
    number::value_of_decimal(minor as nat);
    let tail = seq!['.'] + (b + rest);
    let s = a + tail;
    assert(tail[0] == '.');
    lemma_digits(a, tail);
    assert(s.skip(a.len() as int) =~= tail);
    assert(tail.skip(1) =~= b + rest);
    lemma_digits(b, rest);
    assert(dependencies::pair_at_start(s) == Some((a, b)));
    lemma_first_pair(before, s);
}

/// A version is too old where its first number is lower, or where that is the same and its second
/// is lower.
pub proof fn an_old_version_is_refused(
    label: &str,
    actual: (u32, u32),
    min: (u32, u32),
    r: Result<(), String>,
)
    requires
        call_ensures(dependencies::check_version, (label, actual, min), r),
    ensures
        actual.0 > min.0 ==> r is Ok,
        actual.0 < min.0 ==> r is Err,
        actual.0 == min.0 ==> (r is Ok <==> actual.1 >= min.1),
{
}

// ---------------------------------------------------------------- Homebrew

proof fn lemma_formulas(v: Seq<DependencyView>, f: Seq<char>)
    ensures
        dependencies::formulas(v).contains(f) <==> exists|i: int|
            0 <= i < v.len() && (#[trigger] v[i]).brew_formula == Some(f),
    decreases v.len(),
{
    if v.len() > 0 {
        let w = v.drop_last();
        lemma_formulas(w, f);
        let rest = dependencies::formulas(w);
        if let Some(g) = v.last().brew_formula {
            vstd::seq_lib::lemma_seq_contains_after_push(rest, g, f);
        }
        if exists|i: int| 0 <= i < w.len() && (#[trigger] w[i]).brew_formula == Some(f) {
            let i = choose|i: int| 0 <= i < w.len() && (#[trigger] w[i]).brew_formula == Some(f);
            assert(v[i] == w[i]);
        }
        if exists|i: int| 0 <= i < v.len() && (#[trigger] v[i]).brew_formula == Some(f) {
            let i = choose|i: int| 0 <= i < v.len() && (#[trigger] v[i]).brew_formula == Some(f);
            if i < w.len() {
                assert(v[i] == w[i]);
            }
        }
        assert(v[v.len() - 1] == v.last());
    }
}

/// Every program that is missing and that Homebrew can bring is offered, with its formula, once;
/// nothing else is. Nobody is asked who cannot answer.
pub proof fn what_homebrew_brings_is_offered(
    missing: &Vec<Dependency>,
    platform: &Platform,
    terminal: bool,
    brew: bool,
    r: BrewOffer,
    f: Seq<char>,
)
    requires
        call_ensures(
            dependencies::maybe_offer_brew_install,
            (missing, platform, terminal, brew),
            r,
        ),
    ensures
        !terminal || !brew || !(platform is Macos || platform is NativeLinux) ==> !(r is Ask),
        r matches BrewOffer::Ask { formulas, .. } ==> (text::texts(formulas@).contains(f) <==> (
        exists|i: int|
            0 <= i < missing@.len() && paths::opt((#[trigger] missing@[i]).brew_formula) == Some(
                f,
            ))),
        r matches BrewOffer::Ask { formulas, .. } ==> text::texts(formulas@).no_duplicates(),
{
    let m = dependencies::deps(missing@);
    let able = dependencies::picked(m, dependencies::with_formula());
    lemma_formulas(able, f);
    dependencies::formulas_cover_each_program_once(able);
    if let BrewOffer::Ask { formulas, .. } = r {
        if text::texts(formulas@).contains(f) {
            let i = choose|i: int| 0 <= i < able.len() && (#[trigger] able[i]).brew_formula == Some(f);
            lemma_picks(m, dependencies::with_formula(), able[i]);
            assert(able.contains(able[i]));
            let k = choose|k: int| 0 <= k < m.len() && m[k] == able[i];
            assert(m[k] == missing@[k]@);
            assert(paths::opt(missing@[k].brew_formula) == Some(f));
        }
        if exists|i: int|
            0 <= i < missing@.len() && paths::opt((#[trigger] missing@[i]).brew_formula) == Some(
                f,
            ) {
            let i = choose|i: int|
                0 <= i < missing@.len() && paths::opt((#[trigger] missing@[i]).brew_formula)
                    == Some(f);
            assert(m[i] == missing@[i]@);
            assert(m.contains(m[i]));
            lemma_picks(m, dependencies::with_formula(), m[i]);
            let k = choose|k: int| 0 <= k < able.len() && able[k] == m[i];
            assert(able[k].brew_formula == Some(f));
        }
    }
}

/// What Homebrew is told to install are the formulas, after the word for it.
pub proof fn homebrew_installs_the_formulas(formulas: &Vec<String>, r: Vec<String>)
    requires
        call_ensures(dependencies::run_brew_install, (formulas,), r),
    ensures
        text::texts(r@).len() == formulas@.len() + 1,
        text::texts(r@)[0] == "install"@,
        text::texts(r@).skip(1) == text::texts(formulas@),
{
    assert(text::texts(r@).skip(1) =~= text::texts(formulas@));
}

/// Only what was looked for again in vain, or what Homebrew could not bring, is still missing.
pub proof fn what_was_installed_is_not_missing(
    missing: &Vec<Dependency>,
    absent: &Vec<String>,
    r: Vec<Dependency>,
    d: DependencyView,
)
    requires
        call_ensures(dependencies::retain_missing, (missing, absent), r),
    ensures
        dependencies::deps(r@).contains(d) <==> dependencies::deps(missing@).contains(d) && (
        d.brew_formula is None || text::texts(absent@).contains(d.name)),
{
    lemma_picks(
        dependencies::deps(missing@),
        dependencies::still_missing(text::texts(absent@)),
        d,
    );
}

/// Everything that Homebrew can bring is installed, critical or not, but for what the system has
/// of its own; without Homebrew nothing is.
pub proof fn homebrew_brings_what_it_can(
    macos: bool,
    brew: bool,
    all: Vec<Dependency>,
    r: Result<Vec<Dependency>, String>,
    d: DependencyView,
)
    requires
        call_ensures(dependencies::dependencies, (), all),
        call_ensures(install_deps::execute, (macos, brew), r),
    ensures
        r is Ok <==> brew,
        r matches Ok(v) ==> (dependencies::deps(v@).contains(d) <==> dependencies::deps(
            all@,
        ).contains(d) && d.brew_formula is Some && !(macos && (d.command == "setfacl"@
            || d.command == "getfacl"@))),
{
    lemma_picks(dependencies::all_dependencies(), dependencies::brought(macos), d);
}

// ---------------------------------------------------------------- the verdict

proof fn lemma_complaints(v: Seq<DependencyView>, critical: bool, k: int)
    requires
        0 <= k < v.len(),
        v[k].critical == critical,
    ensures
        dependencies::complaints(v, critical).contains(dependencies::complaint(v[k])),
    decreases v.len(),
{
    let w = v.drop_last();
    let rest = dependencies::complaints(w, critical);
    let all = dependencies::complaints(v, critical);
    if k < w.len() {
        assert(w[k] == v[k]);
        lemma_complaints(w, critical, k);
        let i = choose|i: int| 0 <= i < rest.len() && rest[i] == dependencies::complaint(v[k]);
        assert(all[i] == dependencies::complaint(v[k]));
    } else {
        assert(all[all.len() - 1] == dependencies::complaint(v[k]));
    }
}

proof fn lemma_criticals(v: Seq<DependencyView>, k: int)
    requires
        0 <= k < v.len(),
        v[k].critical,
    ensures
        dependencies::criticals(v) > 0,
    decreases v.len(),
{
    let w = v.drop_last();
    if k < w.len() {
        assert(w[k] == v[k]);
        lemma_criticals(w, k);
    }
}

proof fn lemma_no_criticals(v: Seq<DependencyView>)
    requires
        forall|i: int| 0 <= i < v.len() ==> !(#[trigger] v[i]).critical,
    ensures
        dependencies::criticals(v) == 0,
    decreases v.len(),
{
    if v.len() > 0 {
        let w = v.drop_last();
        assert(!v[v.len() - 1].critical);
        assert forall|i: int| 0 <= i < w.len() implies !(#[trigger] w[i]).critical by {
            assert(w[i] == v[i]);
        }
        lemma_no_criticals(w);
    }
}

/// Whether a version is known and comes before another.
pub open spec fn below(version: Option<(u32, u32)>, major: u32, minor: u32) -> bool {
    version matches Some(v) && (v.0 < major || (v.0 == major && v.1 < minor))
}

/// Nothing goes on without a critical program, or with a Docker that is too old; every program
/// that is missing is named, and one that can be done without does not stop anything.
pub proof fn nothing_goes_on_without_critical_programs(
    missing: &Vec<Dependency>,
    docker_out: &str,
    version: Option<(u32, u32)>,
    compose_out: &str,
    compose_version: Option<(u32, u32)>,
    r: (Vec<Message>, Result<(), String>),
    k: int,
)
    requires
        call_ensures(dependencies::parse_version, (docker_out,), version),
        call_ensures(dependencies::parse_version, (compose_out,), compose_version),
        call_ensures(
            dependencies::check_dependencies,
            (missing, Some(docker_out), Some(compose_out)),
            r,
        ),
    ensures
        0 <= k < missing@.len() && missing@[k].critical ==> r.1 is Err,
        0 <= k < missing@.len() ==> ui::said(r.0@).contains(
            dependencies::complaint(missing@[k]@),
        ),
        below(version, 20, 10) || below(compose_version, 2, 4) ==> r.1 is Err,
        (forall|i: int| 0 <= i < missing@.len() ==> !(#[trigger] missing@[i]).critical) && !below(
            version,
            20,
            10,
        ) && !below(compose_version, 2, 4) ==> r.1 is Ok,
{
    let m = dependencies::deps(missing@);
    let said = ui::said(r.0@);
    if 0 <= k < missing@.len() {
        assert(m[k] == missing@[k]@);
        lemma_complaints(m, m[k].critical, k);
        let a = dependencies::complaints(m, false);
        let b = dependencies::complaints(m, true);
        let x = dependencies::complaint(m[k]);
        if m[k].critical {
            lemma_criticals(m, k);
            let i = choose|i: int| 0 <= i < b.len() && b[i] == x;
            assert(said[a.len() + i] == x);
        } else {
            let i = choose|i: int| 0 <= i < a.len() && a[i] == x;
            assert(said[i] == x);
        }
    }
    if forall|i: int| 0 <= i < missing@.len() ==> !(#[trigger] missing@[i]).critical {
        assert forall|i: int| 0 <= i < m.len() implies !(#[trigger] m[i]).critical by {
            assert(m[i] == missing@[i]@);
        }
        lemma_no_criticals(m);
    }
}

/// A program that is missing is told by its name and its command, and as critical where it is; what
/// it is for stands behind.
pub proof fn a_missing_program_is_named(d: DependencyView)
    ensures
        ({
            let (level, told) = dependencies::complaint(d);
            &&& d.critical ==> level == Level::Critical
            &&& !d.critical ==> level == Level::Warning
            &&& d.critical ==> ("Critical dependency '"@ + d.name + "' ("@
                + d.command).is_prefix_of(told)
            &&& !d.critical ==> ("Optional dependency '"@ + d.name + "' ("@
                + d.command).is_prefix_of(told)
            &&& d.description.is_suffix_of(told)
        }),
{
    let told = dependencies::complaint(d).1;
    let a = "Critical dependency '"@ + d.name + "' ("@ + d.command;
    let b = "Optional dependency '"@ + d.name + "' ("@ + d.command;
    if d.critical {
        assert(told.subrange(0, a.len() as int) =~= a);
    } else {
        assert(told.subrange(0, b.len() as int) =~= b);
    }
    assert(told.subrange(told.len() - d.description.len(), told.len() as int) =~= d.description);
}

/// The process that forwards the agent is the one that its file names, without the white space
/// around its number; a file that names none, or that is not there, is an error.
pub proof fn a_process_is_named_by_its_file(
    content: Option<&str>,
    pid: u32,
    r: Result<u32, String>,
)
    requires
        call_ensures(utils::stop_ssh_agent, (content,), r),
    ensures
        content is None ==> r is Err,
        content matches Some(c) ==> text::trimmed(c@) == number::decimal(pid as nat) ==> r == Ok::<
            u32,
            String,
        >(pid),
        content matches Some(c) ==> text::trimmed(c@).len() == 0 ==> r is Err,
{
    number::value_of_decimal(pid as nat);
}

/// Bytes are written with two digits each, and different bytes differently.
pub proof fn bytes_are_told_apart(a: &Vec<u8>, b: &Vec<u8>, r: String, s: String)
    requires
        call_ensures(utils::to_hex, (a,), r),
        call_ensures(utils::to_hex, (b,), s),
    ensures
        r@.len() == 2 * a@.len(),
        r@ == s@ <==> a@ == b@,
{
    if r@ == s@ {
        utils::hex_tells_bytes_apart(a@, b@);
    }
}

/// Homebrew is offered where it is at home, to a user who can be asked, and where it is there.
pub proof fn homebrew_is_offered_where_it_is_at_home(
    formula: &str,
    platform: &Platform,
    terminal: bool,
    brew: bool,
    home: bool,
    ask: bool,
    r: Option<String>,
)
    requires
        call_ensures(dependencies::is_brew_eligible, (platform,), home),
        call_ensures(dependencies::can_prompt_brew, (platform, terminal), ask),
        call_ensures(dependencies::offer_brew_install, (formula, platform, terminal, brew), r),
    ensures
        home <==> platform is Macos || platform is NativeLinux,
        ask <==> home && terminal,
        r is Some <==> ask && brew,
{
}

/// A program is of use unless the system does its work otherwise.
pub proof fn a_program_is_of_use_on_its_system(
    d: &Dependency,
    macos: bool,
    windows: bool,
    r: bool,
)
    requires
        call_ensures(dependencies::is_applicable, (d, macos, windows), r),
    ensures
        !macos && !windows ==> r,
        macos && (d.command@ == "setfacl"@ || d.command@ == "getfacl"@) ==> !r,
        windows && d.command@ == "certutil"@ ==> !r,
        d.command@ == "docker"@ || d.command@ == "git"@ || d.command@ == "ssh"@ ==> r,
{
    reveal_strlit("docker");
    reveal_strlit("git");
    reveal_strlit("ssh");
    reveal_strlit("setfacl");
    reveal_strlit("getfacl");
    reveal_strlit("certutil");
    assert("docker"@.len() == 6 && "git"@.len() == 3 && "ssh"@.len() == 3);
    assert("setfacl"@.len() == 7 && "getfacl"@.len() == 7 && "certutil"@.len() == 8);
}

/// An installation is reported as it went: a failure is an error, and what is still missing is a
/// warning.
pub proof fn an_installation_is_reported_as_it_went(
    formulas: &Vec<String>,
    success: bool,
    absent: &Vec<String>,
    r: Result<Message, String>,
)
    requires
        call_ensures(dependencies::install_report, (formulas, success, absent), r),
    ensures
        r is Ok <==> success,
        r matches Ok(m) ==> (m.level == Level::Success <==> absent@.len() == 0),
        r matches Ok(m) ==> (m.level == Level::Warning <==> absent@.len() > 0),
{
}

} // verus!
