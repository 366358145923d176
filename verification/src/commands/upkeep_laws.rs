//! What holds of cleaning up, of making scripts and of the small commands as a whole.
use vstd::prelude::*;

use crate::commands::cleanup_backups;
use crate::commands::cleanup_backups::{Backup, Cleanup};
use crate::commands::create_script;
use crate::commands::create_script::NewScript;
use crate::commands::custom;
use crate::commands::install_claude;
use crate::commands::install_claude::InstallStep;
use crate::commands::show_running;
use crate::commands::show_running::ProjectLabels;
use crate::commands::upgrade;
use crate::commands::upgrade::InteractiveUpgradePromptProvider;
use crate::commands::user_manual;
use crate::commands::user_manual::Opener;
use crate::number;
use crate::order;
use crate::paths;
use crate::text;
use crate::utils::platform::Platform;

verus! {

// ---------------------------------------------------------------- backups

/// The backups that go, or would go.
pub open spec fn going(r: Cleanup) -> Seq<(Seq<char>, u64)> {
    match r {
        Cleanup::Nothing(_) => Seq::empty(),
        Cleanup::WouldRemove(b) => cleanup_backups::backups(b@),
        Cleanup::Remove { candidates, .. } => cleanup_backups::backups(candidates@),
    }
}

proof fn lemma_found(names: Seq<Seq<char>>, x: (Seq<char>, u64))
    ensures
        cleanup_backups::found(names).contains(x) <==> names.contains(x.0)
            && cleanup_backups::made_at(x.0) is Some && cleanup_backups::made_at(x.0)->0 as u64
            == x.1,
    decreases names.len(),
{
    if names.len() > 0 {
        let w = names.drop_last();
        lemma_found(w, x);
        vstd::seq_lib::lemma_seq_contains_after_push(w, names.last(), x.0);
        assert(w.push(names.last()) =~= names);
        let rest = cleanup_backups::found(w);
        if let Some(t) = cleanup_backups::made_at(names.last()) {
            vstd::seq_lib::lemma_seq_contains_after_push(rest, (names.last(), t as u64), x);
        }
    }
}

proof fn lemma_put(v: Seq<(Seq<char>, u64)>, y: (Seq<char>, u64), x: (Seq<char>, u64))
    ensures
        cleanup_backups::put_by_age(v, y).contains(x) <==> v.contains(x) || x == y,
    decreases v.len(),
{
    if v.len() > 0 && y.1 > v.last().1 {
        let w = v.drop_last();
        lemma_put(w, y, x);
        vstd::seq_lib::lemma_seq_contains_after_push(
            cleanup_backups::put_by_age(w, y),
            v.last(),
            x,
        );
        vstd::seq_lib::lemma_seq_contains_after_push(w, v.last(), x);
        assert(w.push(v.last()) =~= v);
    } else {
        vstd::seq_lib::lemma_seq_contains_after_push(v, y, x);
    }
}

proof fn lemma_ordered(v: Seq<(Seq<char>, u64)>, x: (Seq<char>, u64))
    ensures
        cleanup_backups::newest_first(v).contains(x) <==> v.contains(x),
    decreases v.len(),
{
    if v.len() > 0 {
        let w = v.drop_last();
        lemma_ordered(w, x);
        lemma_put(cleanup_backups::newest_first(w), v.last(), x);
        vstd::seq_lib::lemma_seq_contains_after_push(w, v.last(), x);
        assert(w.push(v.last()) =~= v);
    }
}

proof fn lemma_before(v: Seq<(Seq<char>, u64)>, cutoff: int, x: (Seq<char>, u64))
    ensures
        cleanup_backups::before(v, cutoff).contains(x) <==> v.contains(x) && x.1 < cutoff,
    decreases v.len(),
{
    if v.len() > 0 {
        let w = v.drop_last();
        lemma_before(w, cutoff, x);
        vstd::seq_lib::lemma_seq_contains_after_push(
            cleanup_backups::before(w, cutoff),
            v.last(),
            x,
        );
        vstd::seq_lib::lemma_seq_contains_after_push(w, v.last(), x);
        assert(w.push(v.last()) =~= v);
    }
}

/// Only directories of the project that are named like a backup go, whatever is asked. Nothing
/// is removed in a trial run, and elsewhere not without a question unless the user agreed before.
pub proof fn only_backups_go(
    dirs: &Vec<String>,
    keep: Option<usize>,
    days: Option<u64>,
    all: bool,
    yes: bool,
    dry: bool,
    now: u64,
    r: Cleanup,
    x: (Seq<char>, u64),
)
    requires
        days matches Some(d) ==> d * 86400 <= u64::MAX,
        call_ensures(cleanup_backups::execute, (dirs, keep, days, all, yes, dry, now), r),
    ensures
        going(r).contains(x) ==> text::texts(dirs@).contains(x.0) && "backup_"@.is_prefix_of(x.0),
        dry ==> !(r is Remove),
        !dry ==> !(r is WouldRemove),
        r is Remove ==> r->ask == !yes,
{
    let v = cleanup_backups::found(text::texts(dirs@));
    let o = cleanup_backups::newest_first(v);
    lemma_found(text::texts(dirs@), x);
    lemma_ordered(v, x);
    if let Some(d) = days {
        lemma_before(o, cleanup_backups::days_ago(now, d), x);
    }
    if going(r).contains(x) && !all && days is None {
        let i = choose|i: int| 0 <= i < going(r).len() && going(r)[i] == x;
        assert(o[i + cleanup_backups::kept(keep)] == x);
    }
}

/// Where all backups are to go, every one of them does.
pub proof fn every_backup_goes_on_demand(
    dirs: &Vec<String>,
    keep: Option<usize>,
    days: Option<u64>,
    yes: bool,
    dry: bool,
    now: u64,
    r: Cleanup,
    t: u64,
)
    requires
        days matches Some(d) ==> d * 86400 <= u64::MAX,
        call_ensures(cleanup_backups::execute, (dirs, keep, days, true, yes, dry, now), r),
        text::texts(dirs@).contains("backup_"@ + number::decimal(t as nat)),
    ensures
        going(r).contains(("backup_"@ + number::decimal(t as nat), t)),
{
    let x = ("backup_"@ + number::decimal(t as nat), t);
    let v = cleanup_backups::found(text::texts(dirs@));
    cleanup_backups::a_backup_is_found_again(t);
    lemma_found(text::texts(dirs@), x);
    lemma_ordered(v, x);
}

/// By their age exactly those backups go that are older than the days that were given.
pub proof fn backups_go_by_their_age(
    dirs: &Vec<String>,
    keep: Option<usize>,
    days: u64,
    yes: bool,
    dry: bool,
    now: u64,
    r: Cleanup,
    t: u64,
)
    requires
        days * 86400 <= u64::MAX,
        call_ensures(cleanup_backups::execute, (dirs, keep, Some(days), false, yes, dry, now), r),
        text::texts(dirs@).contains("backup_"@ + number::decimal(t as nat)),
    ensures
        going(r).contains(("backup_"@ + number::decimal(t as nat), t)) <==> t + days * 86400 < now,
{
    let x = ("backup_"@ + number::decimal(t as nat), t);
    let v = cleanup_backups::found(text::texts(dirs@));
    let o = cleanup_backups::newest_first(v);
    cleanup_backups::a_backup_is_found_again(t);
    lemma_found(text::texts(dirs@), x);
    lemma_ordered(v, x);
    lemma_before(o, cleanup_backups::days_ago(now, days), x);
    let c = cleanup_backups::candidates(o, keep, Some(days), false, now);
    assert(c.contains(x) ==> c.len() > 0);
    cleanup_backups::lemma_age_order(v);
    assert(v.contains(x));
    assert(v.len() > 0);
}

/// By their number the newest backups stay: as many as were asked for, or five where nothing was
/// asked, and none that goes is newer than one that stays.
pub proof fn the_newest_backups_stay(
    dirs: &Vec<String>,
    keep: Option<usize>,
    yes: bool,
    dry: bool,
    now: u64,
    found: Vec<Backup>,
    r: Cleanup,
    s: u64,
    t: u64,
)
    requires
        call_ensures(cleanup_backups::find_backups, (dirs,), found),
        call_ensures(
            cleanup_backups::execute,
            (dirs, keep, None::<u64>, false, yes, dry, now),
            r,
        ),
        text::texts(dirs@).contains("backup_"@ + number::decimal(s as nat)),
        text::texts(dirs@).contains("backup_"@ + number::decimal(t as nat)),
    ensures
        ({
            let k: int = if keep is Some {
                keep->0 as int
            } else {
                5
            };
            going(r).len() == (if found@.len() > k {
                found@.len() - k
            } else {
                0
            })
        }),
        going(r).contains(("backup_"@ + number::decimal(s as nat), s)) && !going(r).contains(
            ("backup_"@ + number::decimal(t as nat), t),
        ) ==> s <= t,
{
    let x = ("backup_"@ + number::decimal(s as nat), s);
    let y = ("backup_"@ + number::decimal(t as nat), t);
    let v = cleanup_backups::found(text::texts(dirs@));
    let o = cleanup_backups::newest_first(v);
    assert(cleanup_backups::backups(found@).len() == found@.len());
    cleanup_backups::a_backup_is_found_again(s);
    cleanup_backups::a_backup_is_found_again(t);
    lemma_found(text::texts(dirs@), x);
    lemma_found(text::texts(dirs@), y);
    lemma_ordered(v, x);
    lemma_ordered(v, y);
    cleanup_backups::lemma_age_order(v);
    let k = cleanup_backups::kept(keep);
    let gone = going(r);
    assert(gone =~= cleanup_backups::candidates(o, keep, None, false, now));
    if gone.contains(x) && !gone.contains(y) {
        let j = choose|j: int| 0 <= j < gone.len() && gone[j] == x;
        assert(o[j + k] == x);
        let i = choose|i: int| 0 <= i < o.len() && o[i] == y;
        if i >= k {
            assert(gone[i - k] == y);
        }
        cleanup_backups::the_newest_backups_are_kept(v, keep, now, i, j + k);
    }
}

// ---------------------------------------------------------------- scripts

/// A description stands for itself in a script: a shell reads it back as it was typed.
pub proof fn a_description_is_read_back(s: &str, r: String)
    requires
        call_ensures(create_script::escape_double_quoted, (s,), r),
    ensures
        create_script::read_back(r@) == Some(s@),
{
    create_script::an_escaped_text_is_read_back(s@);
}

/// Whether a text stands in another one.
pub open spec fn holds(s: Seq<char>, part: Seq<char>) -> bool {
    exists|a: Seq<char>, b: Seq<char>| s == #[trigger] (a + part + b)
}

/// A new script is one of the shell that ends at the first failure, tells its description when it
/// is asked for it, and may be asked whether it overrides a command where it is meant to.
pub proof fn a_new_script_describes_itself(
    name: &str,
    description: &str,
    overrides: bool,
    escaped: String,
    r: String,
    content: &str,
    asked: bool,
)
    requires
        call_ensures(create_script::escape_double_quoted, (description,), escaped),
        call_ensures(create_script::script_content, (name, description, overrides), r),
        content@ == r@,
        call_ensures(custom::may_override, (Some(content),), asked),
    ensures
        holds(
            r@,
            "#!/bin/bash\nset -e\n\nif [[ \"$1\" == \"_desc_\" ]]; then\n    # output command description\n    echo \""@
                + escaped@ + "\"\n\n    exit 0\nfi\n"@,
        ),
        "#!/bin/bash"@.is_prefix_of(r@),
        overrides ==> asked,
        overrides ==> holds(
            r@,
            "\nif [[ \"$1\" == \"_override_\" ]]; then\n    echo \"true\"\n    exit 0\nfi\n"@,
        ),
{
    if overrides {
        create_script::an_overriding_script_is_asked(name@, description@);
    }
    let head = "#!/bin/bash\nset -e\n\nif [[ \"$1\" == \"_desc_\" ]]; then\n    # output command description\n    echo \""@;
    let part = head + escaped@ + "\"\n\n    exit 0\nfi\n"@;
    let over = "\nif [[ \"$1\" == \"_override_\" ]]; then\n    echo \"true\"\n    exit 0\nfi\n"@;
    let tail = "\necho \""@ + create_script::escaped(name@)
        + " - WAITING FOR IMPLEMENTATION\"\n\nexit 0\n"@;
    if overrides {
        assert(r@ =~= part + over + tail);
        assert(r@ =~= Seq::<char>::empty() + part + (over + tail));
    } else {
        assert(r@ =~= Seq::<char>::empty() + part + tail);
    }
    reveal_strlit("#!/bin/bash");
    reveal_strlit(
        "#!/bin/bash\nset -e\n\nif [[ \"$1\" == \"_desc_\" ]]; then\n    # output command description\n    echo \"",
    );
    assert(head.subrange(0, 11) =~= "#!/bin/bash"@);
    assert(r@.subrange(0, 11) =~= head.subrange(0, 11));
}

proof fn lemma_only_one(candidates: Seq<Seq<char>>, p: Seq<char>)
    requires
        candidates.contains(p),
    ensures
        paths::first_existing(candidates, seq![p]) == Some(p),
    decreases candidates.len(),
{
    let e = seq![p];
    assert(e[0] == p);
    if !e.contains(candidates[0]) {
        let i = choose|i: int| 0 <= i < candidates.len() && candidates[i] == p;
        assert(candidates.drop_first()[i - 1] == p);
        lemma_only_one(candidates.drop_first(), p);
    }
}

/// A script is made only under a plain name and never over another one. Once it is there, the
/// command of its name runs it and is listed under that name.
pub proof fn a_new_script_can_be_run(
    dir: &str,
    name: &str,
    description: &str,
    location: &str,
    overrides: bool,
    existing: &Vec<String>,
    r: Result<NewScript, String>,
    afterwards: &Vec<String>,
    found: Option<String>,
)
    requires
        call_ensures(
            create_script::execute,
            (dir, name, description, location, overrides, existing),
            r,
        ),
        r matches Ok(s) ==> text::texts(afterwards@) == seq![s.path@],
        call_ensures(custom::find_script_path, (dir, name, afterwards), found),
    ensures
        r matches Ok(s) ==> !text::texts(existing@).contains(s.path@) && !name@.contains('/')
            && name@ != ".."@,
        r matches Ok(s) ==> s.path@ == paths::below(s.dir@, name@ + ".sh"@),
        r is Ok && !".sh"@.is_suffix_of(name@) ==> found is Some && found->0@ == r->Ok_0.path@,
{
    if let Ok(s) = r {
        if !".sh"@.is_suffix_of(name@) {
            create_script::a_new_script_is_found(dir@, name@, location@);
            lemma_only_one(custom::script_paths(dir@, name@), s.path@);
        }
    }
}

/// A script goes where the user chose: with the application, or beside it.
pub proof fn a_new_script_goes_where_it_was_wanted(
    dir: &str,
    name: &str,
    description: &str,
    overrides: bool,
    existing: &Vec<String>,
    places: Vec<String>,
    first: &str,
    second: &str,
    a: Result<NewScript, String>,
    b: Result<NewScript, String>,
)
    requires
        call_ensures(create_script::locations, (), places),
        places@.len() == 2 ==> first@ == places@[0]@ && second@ == places@[1]@,
        call_ensures(
            create_script::execute,
            (dir, name, description, first, overrides, existing),
            a,
        ),
        call_ensures(
            create_script::execute,
            (dir, name, description, second, overrides, existing),
            b,
        ),
    ensures
        places@.len() == 2,
        a matches Ok(s) ==> s.dir@ == paths::below(
            dir@,
            "htdocs/.docker-control/control-scripts"@,
        ),
        b matches Ok(s) ==> s.dir@ == paths::below(dir@, "control-scripts"@),
{
    let t = text::texts(places@);
    assert(t.len() == places@.len());
    assert(t[0] == places@[0]@ && t[1] == places@[1]@);
    reveal_strlit("Inside htdocs (htdocs/.docker-control/control-scripts)");
    reveal_strlit("Outside htdocs (control-scripts)");
    assert(create_script::HTDOCS_LOCATION@.len() != create_script::ROOT_LOCATION@.len());
}

// ---------------------------------------------------------------- projects

/// Every project that has a container is shown, once, and no other one; the directory that the
/// tool itself noted counts before that of Docker Compose.
pub proof fn every_running_project_is_shown(
    containers: &Vec<ProjectLabels>,
    r: Vec<String>,
    i: int,
    j: int,
)
    requires
        call_ensures(show_running::execute, (containers,), r),
    ensures
        0 <= i < containers@.len() && containers@[i].project is Some
            && containers@[i].plugin_dir is Some ==> text::texts(r@).contains(
            containers@[i].project->0@ + " "@ + containers@[i].plugin_dir->0@,
        ),
        0 <= i < containers@.len() && containers@[i].project is Some
            && containers@[i].plugin_dir is None && containers@[i].compose_dir is Some
            ==> text::texts(r@).contains(
            containers@[i].project->0@ + " "@ + containers@[i].compose_dir->0@,
        ),
        0 <= i < j < r@.len() ==> r@[i]@ != r@[j]@,
        0 <= i < r@.len() ==> exists|k: int|
            0 <= k < containers@.len() && show_running::row(#[trigger] containers@[k]) == r@[i]@,
{
    let rows = show_running::rows(containers@);
    order::in_order_sorts(rows);
    order::dedup_of_sorted(order::in_order(rows));
    let t = text::texts(r@);
    assert(t.len() == r@.len());
    if 0 <= i < containers@.len() {
        assert(rows[i] == show_running::row(containers@[i]));
        assert(rows.contains(rows[i]));
        assert(order::in_order(rows).contains(rows[i]));
    }
    if 0 <= i < j < r@.len() {
        assert(t[i] == r@[i]@ && t[j] == r@[j]@);
        order::before_irreflexive(t[i]);
        assert(order::before(t[i], t[j]));
    }
    if 0 <= i < r@.len() {
        assert(t[i] == r@[i]@);
        assert(t.contains(t[i]));
        assert(order::in_order(rows).contains(t[i]));
        assert(rows.contains(t[i]));
        let k = choose|k: int| 0 <= k < rows.len() && rows[k] == t[i];
        assert(show_running::row(containers@[k]) == r@[i]@);
    }
}

// ---------------------------------------------------------------- the tool itself

/// The tool upgrades itself and nothing else, and asks for a newer version of just that.
pub proof fn the_tool_upgrades_itself(run: Vec<String>, ask: Vec<String>)
    requires
        call_ensures(upgrade::execute, (), run),
        call_ensures(upgrade::outdated_args, (), ask),
    ensures
        text::texts(run@) == seq![
            "upgrade"@,
            "INTERLIGENT-kommunzieren-GmbH/tap/docker-control"@,
        ],
        text::texts(ask@)[0] == "outdated"@,
        text::texts(ask@).last() == text::texts(run@).last(),
{
}

/// Nobody is asked about an upgrade who forbade it or was asked lately, nor where Homebrew is not
/// at home; a prompt that was left upgrades nothing.
pub proof fn upgrades_are_not_forced(
    skipped: bool,
    due: bool,
    platform: &Platform,
    asks: bool,
    prompt: &InteractiveUpgradePromptProvider,
    reply: Option<bool>,
    answer: bool,
)
    requires
        call_ensures(upgrade::asks_for_updates, (skipped, due, platform), asks),
        call_ensures(InteractiveUpgradePromptProvider::answer, (prompt, reply), answer),
    ensures
        asks <==> !skipped && due && (platform is Macos || platform is NativeLinux),
        answer <==> reply is Some && reply->0,
{
}

/// The manual is what is opened, on every system.
pub proof fn the_manual_is_opened(
    os: &str,
    version: Option<&str>,
    path: &str,
    wsl: bool,
    r: Opener,
)
    requires
        call_ensures(user_manual::is_wsl, (os, version), wsl),
        call_ensures(user_manual::execute, (os, version, path), r),
    ensures
        wsl ==> r is Wsl && os@ == "linux"@,
        r is Wsl ==> wsl,
        r matches Opener::Program { program, args } ==> args@.len() > 0 && args@.last()@ == path@
            && (args@.len() == 1 || program@ == "cmd"@) && (program@ == "open"@ <==> os@
            == "macos"@),
{
    reveal_strlit("linux");
    reveal_strlit("macos");
    reveal_strlit("windows");
    reveal_strlit("open");
    reveal_strlit("cmd");
    reveal_strlit("xdg-open");
    assert("linux"@[0] == 'l' && "macos"@[0] == 'm' && "windows"@[0] == 'w');
    assert("open"@.len() == 4 && "cmd"@.len() == 3 && "xdg-open"@.len() == 8);
    if let Opener::Program { program, args } = r {
        let t = text::texts(args@);
        assert(t.len() == args@.len());
        assert(t[t.len() - 1] == args@[args@.len() - 1]@);
    }
}

/// A path that Windows does not know is an error; otherwise it is what Windows says, and that is
/// what is opened.
pub proof fn windows_opens_its_own_path(
    path: &str,
    output: Option<&str>,
    r: Result<String, String>,
    win: &str,
    args: Vec<String>,
)
    requires
        call_ensures(user_manual::windows_path, (path, output), r),
        call_ensures(user_manual::windows_opener, (win,), args),
    ensures
        output is None ==> r is Err,
        output matches Some(o) ==> (r is Ok <==> text::trimmed(o@).len() > 0),
        r matches Ok(p) ==> p@ == text::trimmed(output->0@),
        text::texts(args@).last() == win@,
{
}

/// A program that did not start or that failed is an error, and only such a one.
pub proof fn a_failed_opener_is_an_error(
    program: &str,
    path: &str,
    started: bool,
    success: bool,
    status: &str,
    r: Result<(), String>,
)
    requires
        call_ensures(user_manual::opener_result, (program, path, started, success, status), r),
    ensures
        r is Ok <==> started && success,
{
}

/// The assistant is installed before its index, and the index is set up once it is there; each
/// installer is fetched from its own address.
pub proof fn the_assistant_is_installed_first(name: &str, url: &str, r: Vec<InstallStep>)
    requires
        call_ensures(install_claude::execute, (name, url), r),
    ensures
        r@.len() == 3,
        r@[0]@.args == seq!["-c"@, "curl -fsSL "@ + url@ + " | bash"@],
        r@[0]@.program == "bash"@,
        r@[1]@.program == "bash"@,
        r@[1]@.args[1] == "curl -fsSL "@
            + "https://raw.githubusercontent.com/DeusData/codebase-memory-mcp/main/install.sh"@
            + " | bash"@,
        r@[2]@.program == "codebase-memory-mcp"@,
        r@[2]@.args == seq!["config"@, "set"@, "auto_index"@, "true"@],
{
}

/// A step that failed is an error that names its status, and only such a one.
pub proof fn a_failed_step_is_an_error(
    step: &InstallStep,
    success: bool,
    status: &str,
    r: Result<String, String>,
)
    requires
        call_ensures(install_claude::step_result, (step, success, status), r),
    ensures
        r is Ok <==> success,
        r matches Ok(m) ==> m@ == step.success@,
        r matches Err(e) ==> holds(e@, status@),
{
    if let Err(e) = r {
        assert(e@ == step.failure@ + status@ + step.failure_end@);
    }
}

} // verus!
