//! What holds of a deployment as a whole.
use vstd::prelude::*;

use crate::commands::deploy::rollout;
use crate::commands::deploy::rollout::{
    Event, EventView, ModeChoice, Planned, Rollout, RolloutView, Stage, StepView,
};
use crate::paths;
use crate::shell;
use crate::text;

verus! {

/// Steps with their stages.
pub type Plan = Seq<(Stage, StepView)>;

/// Whether these are all steps of a rollout: those before the maintenance mode is chosen, and
/// those behind.
pub open spec fn is_plan(r: &Rollout, mode: &str, q: Plan) -> bool {
    exists|p: Vec<Planned>, e: Vec<Planned>|
        #![trigger rollout::planned(p@), rollout::planned(e@)]
        call_ensures(rollout::prepare, (r,), p) && call_ensures(
            rollout::perform_deployment,
            (r, mode),
            e,
        ) && q == rollout::planned(p@) + rollout::planned(e@)
}

proof fn lemma_plan(r: &Rollout, mode: &str, q: Plan)
    requires
        is_plan(r, mode, q),
    ensures
        q == whole(r@, mode@),
{
}

spec fn whole(c: RolloutView, mode: Seq<char>) -> Plan {
    rollout::preparation(c) + rollout::execution(c, mode)
}

/// Whether a step stands at a position.
pub open spec fn at(q: Plan, i: int, s: StepView) -> bool {
    0 <= i < q.len() && q[i].1 == s
}

/// Whether one step stands before another.
pub open spec fn precedes(q: Plan, a: StepView, b: StepView) -> bool {
    exists|i: int, j: int| i < j && #[trigger] at(q, i, a) && #[trigger] at(q, j, b)
}

/// The directory of the server that holds the releases, as it is configured.
pub open spec fn root_of(c: Rollout) -> Seq<char> {
    match c.env.service_root {
        Some(s) => s@,
        None => "/var/www/html"@,
    }
}

/// A rollout goes by what is configured for its server, and by defaults where nothing is.
pub proof fn a_rollout_follows_its_configuration(c: Rollout)
    ensures
        c@.user == c.env.user@,
        c@.domain == c.env.domain@,
        c@.server_root == root_of(c),
        c.env.console_command is None ==> c@.console_command == "bin/console"@,
        c.env.console_command matches Some(s) ==> c@.console_command == s@,
        c.env.shared_directories is None ==> c@.shared_directories.len() == 0,
        c.env.shared_directories matches Some(v) ==> c@.shared_directories == text::texts(v@),
        c.env.shared_files is None ==> c@.shared_files.len() == 0,
        c.env.shared_files matches Some(v) ==> c@.shared_files == text::texts(v@),
        c@.cops <==> c.env.cops_integration == Some(true),
        c@.archive_path == c.archive_path@,
        c@.release_dir == c.release_dir@,
        c@.yes == c.yes,
        c@.releases() == root_of(c) + "/releases"@,
        c@.release_path() == root_of(c) + "/releases"@ + "/"@ + c.release_dir@,
        paths::last_name(c.archive_path@) matches Some(n) ==> c@.remote_archive() == root_of(c)
            + "/releases"@ + "/"@ + n,
{
}

/// The two consoles belong to the release that is live and to the one that is rolled out, and
/// both run the same script with PHP.
pub proof fn the_consoles_belong_to_their_releases(c: RolloutView)
    requires
        c.server_root.len() > 0,
        c.server_root.last() != '/',
        c.release_dir.len() > 0,
        c.release_dir.last() != '/',
    ensures
        c.console_current() == "php "@ + c.server_root + "/current/"@ + c.console_script(),
        c.console_new() == "php "@ + (c.server_root + "/releases"@ + "/"@ + c.release_dir) + "/"@
            + c.console_script(),
{
    assert(c.release_path().last() == c.release_dir.last());
}

/// The console script is the configured one, relative to the release: neither PHP before it nor
/// slashes at its beginning count.
pub proof fn the_console_script_is_relative(c: RolloutView, script: Seq<char>)
    requires
        script.len() == 0 || script[0] != '/',
        !"php "@.is_prefix_of(script),
    ensures
        c.console_command == script ==> c.console_script() == script,
        c.console_command == "/"@ + script ==> c.console_script() == script,
        c.console_command == "php "@ + script ==> c.console_script() == script,
        c.console_command == "php "@ + ("/"@ + script) ==> c.console_script() == script,
{
    reveal_strlit("/");
    reveal_strlit("php ");
    reveal_with_fuel(text::without_prefixes, 3);
    let slashed = "/"@ + script;
    assert(slashed.skip(1) =~= script);
    assert(slashed[0] == '/');
    assert("/"@.is_prefix_of(slashed));
    assert(!"/"@.is_prefix_of(script)) by {
        if "/"@.is_prefix_of(script) {
            assert(script.subrange(0, 1)[0] == "/"@[0]);
        }
    }
    assert(!"php "@.is_prefix_of(slashed)) by {
        if "php "@.is_prefix_of(slashed) {
            assert(slashed.subrange(0, 4)[0] == "php "@[0]);
        }
    }
    assert(text::without_prefixes(script, "/"@) == script);
    assert(text::without_prefixes(slashed, "/"@) == script);
    assert(("php "@ + script).skip(4) =~= script);
    assert(("php "@ + slashed).skip(4) =~= slashed);
    assert("php "@.is_prefix_of("php "@ + script)) by {
        assert(("php "@ + script).subrange(0, 4) =~= "php "@);
    }
    assert("php "@.is_prefix_of("php "@ + slashed)) by {
        assert(("php "@ + slashed).subrange(0, 4) =~= "php "@);
    }
}

proof fn lemma_lengths(c: RolloutView, mode: Seq<char>) -> (n: int)
    ensures
        n == 9 + rollout::share_dirs(c, c.shared_directories).len() + rollout::share_files(
            c,
            c.shared_files,
        ).len(),
        rollout::preparation(c).len() == n + 3,
        forall|i: int|
            0 <= i < rollout::execution(c, mode).len() ==> #[trigger] whole(c, mode)[n + 3 + i]
                == rollout::execution(c, mode)[i],
        whole(c, mode).len() == n + 3 + rollout::execution(c, mode).len(),
{
    9 + rollout::share_dirs(c, c.shared_directories).len() + rollout::share_files(
        c,
        c.shared_files,
    ).len() as int
}

/// The archive is copied to where the releases lie, unpacked from there into the directory of the
/// release, and then removed there. Each directory is made before anything is put into it.
pub proof fn the_archive_is_unpacked_into_the_release(
    r: &Rollout,
    chosen: &str,
    q: Plan,
)
    requires
        is_plan(r, chosen, q),
    ensures
        ({
            let c = r@;
            let there = c.remote_archive();
            let copy = StepView::Copy { from: c.archive_path, to: there };
            let make = StepView::Run("mkdir -p "@ + shell::quoted(c.release_path()));
            let unpack = StepView::Run(
                "7z x -o"@ + shell::quoted(c.release_path()) + " "@ + shell::quoted(there),
            );
            let remove = StepView::Run("rm -f "@ + shell::quoted(there));
            &&& precedes(q, StepView::Run("mkdir -p "@ + shell::quoted(c.releases())), copy)
            &&& precedes(q, copy, unpack)
            &&& precedes(q, make, unpack)
            &&& precedes(q, unpack, remove)
        }),
{
    let c = r@;
    let mode = chosen@;
    lemma_plan(r, chosen, q);
    let there = c.remote_archive();
    let copy = StepView::Copy { from: c.archive_path, to: there };
    let make = StepView::Run("mkdir -p "@ + shell::quoted(c.release_path()));
    let unpack = StepView::Run(
        "7z x -o"@ + shell::quoted(c.release_path()) + " "@ + shell::quoted(there),
    );
    let n = lemma_lengths(c, mode);
    assert(at(q, 0, StepView::Run("mkdir -p "@ + shell::quoted(c.releases()))));
    assert(at(q, 2, copy));
    assert(at(q, 4, make));
    assert(at(q, 5, unpack));
    assert(at(q, 6, StepView::Run("rm -f "@ + shell::quoted(there))));
}

proof fn lemma_shared_dir(c: RolloutView, dirs: Seq<Seq<char>>, k: int)
    requires
        0 <= k < dirs.len(),
    ensures
        rollout::share_dirs(c, dirs).len() == 2 * dirs.len(),
        rollout::share_dirs(c, dirs)[2 * k] == rollout::share_dir(c, dirs[k])[0],
        rollout::share_dirs(c, dirs)[2 * k + 1] == rollout::share_dir(c, dirs[k])[1],
    decreases dirs.len(),
{
    let w = dirs.drop_last();
    reveal_with_fuel(rollout::share_dirs, 2);
    if w.len() > 0 {
        if k < w.len() {
            lemma_shared_dir(c, w, k);
            assert(w[k] == dirs[k]);
        } else {
            lemma_shared_dir(c, w, 0);
        }
    }
}

proof fn lemma_shared_file(c: RolloutView, files: Seq<Seq<char>>, k: int)
    requires
        0 <= k < files.len(),
    ensures
        rollout::share_files(c, files).len() == 3 * files.len(),
        rollout::share_files(c, files)[3 * k] == rollout::share_file(c, files[k])[0],
        rollout::share_files(c, files)[3 * k + 1] == rollout::share_file(c, files[k])[1],
        rollout::share_files(c, files)[3 * k + 2] == rollout::share_file(c, files[k])[2],
    decreases files.len(),
{
    let w = files.drop_last();
    reveal_with_fuel(rollout::share_files, 2);
    if w.len() > 0 {
        if k < w.len() {
            lemma_shared_file(c, w, k);
            assert(w[k] == files[k]);
        } else {
            lemma_shared_file(c, w, 0);
        }
    }
}

/// Every shared directory lies beside the releases, where it outlives them: it is made there
/// before a link to it takes the place of what the release brought, and that happens only once
/// the release is unpacked.
pub proof fn every_shared_directory_is_linked(
    r: &Rollout,
    chosen: &str,
    q: Plan,
    k: int,
)
    requires
        is_plan(r, chosen, q),
        0 <= k < r@.shared_directories.len(),
    ensures
        ({
            let c = r@;
            let dir = c.shared_directories[k];
            let shared = c.server_root + "/shared/"@ + dir;
            let brought = c.release_path() + "/"@ + dir;
            let link = StepView::Run(
                "rm -rf "@ + shell::quoted(brought) + " && ln -sf "@ + shell::quoted(shared) + " "@
                    + shell::quoted(brought),
            );
            &&& precedes(q, StepView::Run("mkdir -p "@ + shell::quoted(shared)), link)
            &&& precedes(
                q,
                StepView::Run(
                    "7z x -o"@ + shell::quoted(c.release_path()) + " "@ + shell::quoted(
                        c.remote_archive(),
                    ),
                ),
                link,
            )
        }),
{
    let c = r@;
    let mode = chosen@;
    lemma_plan(r, chosen, q);
    let dir = c.shared_directories[k];
    let shared = c.server_root + "/shared/"@ + dir;
    let brought = c.release_path() + "/"@ + dir;
    let link = StepView::Run(
        "rm -rf "@ + shell::quoted(brought) + " && ln -sf "@ + shell::quoted(shared) + " "@
            + shell::quoted(brought),
    );
    let unpack = StepView::Run(
        "7z x -o"@ + shell::quoted(c.release_path()) + " "@ + shell::quoted(c.remote_archive()),
    );
    let n = lemma_lengths(c, mode);
    let all = rollout::share_dirs(c, c.shared_directories);
    lemma_shared_dir(c, c.shared_directories, k);
    let i = 9 + 2 * k;
    assert(rollout::preparation(c)[i].1 == all[2 * k]);
    assert(rollout::preparation(c)[i + 1].1 == all[2 * k + 1]);
    assert(at(q, 5, unpack));
    assert(at(q, i, StepView::Run("mkdir -p "@ + shell::quoted(shared))));
    assert(at(q, i + 1, link));
}

/// Every shared file lies beside the releases: it is made there, with the directory that it lies
/// in, before a link to it takes the place of what the release brought, and that happens only once
/// the release is unpacked.
pub proof fn every_shared_file_is_linked(
    r: &Rollout,
    chosen: &str,
    q: Plan,
    k: int,
)
    requires
        is_plan(r, chosen, q),
        0 <= k < r@.shared_files.len(),
    ensures
        ({
            let c = r@;
            let file = c.shared_files[k];
            let shared = c.server_root + "/shared/"@ + file;
            let brought = c.release_path() + "/"@ + file;
            let touch = StepView::Run("touch "@ + shell::quoted(shared));
            let link = StepView::Run(
                "rm -f "@ + shell::quoted(brought) + " && ln -sf "@ + shell::quoted(shared) + " "@
                    + shell::quoted(brought),
            );
            &&& paths::parent_of(shared) is Some
            &&& precedes(
                q,
                StepView::Run("mkdir -p "@ + shell::quoted(paths::parent_of(shared)->0)),
                touch,
            )
            &&& precedes(q, touch, link)
            &&& precedes(
                q,
                StepView::Run(
                    "7z x -o"@ + shell::quoted(c.release_path()) + " "@ + shell::quoted(
                        c.remote_archive(),
                    ),
                ),
                link,
            )
        }),
{
    let c = r@;
    let mode = chosen@;
    lemma_plan(r, chosen, q);
    let file = c.shared_files[k];
    let shared = c.server_root + "/shared/"@ + file;
    let brought = c.release_path() + "/"@ + file;
    let touch = StepView::Run("touch "@ + shell::quoted(shared));
    let link = StepView::Run(
        "rm -f "@ + shell::quoted(brought) + " && ln -sf "@ + shell::quoted(shared) + " "@
            + shell::quoted(brought),
    );
    let unpack = StepView::Run(
        "7z x -o"@ + shell::quoted(c.release_path()) + " "@ + shell::quoted(c.remote_archive()),
    );
    reveal_strlit("/shared/");
    assert(shared[(c.server_root.len() + 1) as int] == 's');
    paths::a_named_path_has_a_parent(shared, (c.server_root.len() + 1) as int);
    let n = lemma_lengths(c, mode);
    let all = rollout::share_files(c, c.shared_files);
    lemma_shared_file(c, c.shared_files, k);
    let i = 9 + rollout::share_dirs(c, c.shared_directories).len() + 3 * k;
    assert(rollout::preparation(c)[i].1 == all[3 * k]);
    assert(rollout::preparation(c)[i + 1].1 == all[3 * k + 1]);
    assert(rollout::preparation(c)[i + 2].1 == all[3 * k + 2]);
    assert(at(q, 5, unpack));
    assert(at(q, i, StepView::Run("mkdir -p "@ + shell::quoted(paths::parent_of(shared)->0))));
    assert(at(q, i + 1, touch));
    assert(at(q, i + 2, link));
}

/// The step that makes the release the live one.
pub open spec fn switch_of(c: RolloutView) -> StepView {
    StepView::Run(
        "rm -f "@ + shell::quoted(c.server_root + "/current"@) + " && ln -s "@ + shell::quoted(
            "releases/"@ + c.release_dir,
        ) + " "@ + shell::quoted(c.server_root + "/current"@),
    )
}

proof fn lemma_execution(c: RolloutView, mode: Seq<char>) -> (r: (int, int, int))
    ensures
        ({
            let e = rollout::execution(c, mode);
            let (checks, post, switch) = r;
            &&& checks == 11
            &&& post == (if c.cops {
                14int
            } else {
                11int
            })
            &&& switch == post + (if c.yes {
                3int
            } else {
                5int
            })
            &&& e.len() == switch + 6
            &&& e[1].1 == StepView::Attempt(
                c.console_current() + " "@ + ("shared:maintenance "@ + mode),
            )
            &&& e[2].1 == StepView::Attempt(c.console_new() + " "@ + ("shared:maintenance "@ + mode))
            &&& e[3].1 == StepView::Hook("pre_deploy"@)
            &&& e[5].1 == StepView::Run(c.console_new() + " "@ + "shared:clear-opcc"@)
            &&& e[6].1 == StepView::Run(c.console_new() + " "@ + "orm:clear-cache:metadata"@)
            &&& e[7].1 == StepView::Run(c.console_new() + " "@ + "orm:clear-cache:query"@)
            &&& e[post].1 == StepView::Hook("post_deploy"@)
            &&& e[switch].1 == switch_of(c)
            &&& e[switch + 2].1 == StepView::Run(c.console_new() + " "@ + "shared:maintenance off"@)
            &&& e[switch + 4].1 == StepView::Run(c.console_new() + " "@ + "shared:clear-opcc"@)
            &&& e[switch + 5].1 == StepView::Hook("done_deploy"@)
        }),
{
    let post: int = if c.cops {
        14
    } else {
        11
    };
    let switch: int = post + (if c.yes {
        3int
    } else {
        5int
    });
    (11, post, switch)
}

/// A rollout whose steps all succeed ends maintenance on the release that is live by then, and
/// clears its byte code cache.
pub proof fn a_rollout_ends_maintenance(
    r: &Rollout,
    chosen: &str,
    q: Plan,
)
    requires
        is_plan(r, chosen, q),
    ensures
        ({
            let c = r@;
            let off = StepView::Run(c.console_new() + " "@ + "shared:maintenance off"@);
            let clear = StepView::Run(c.console_new() + " "@ + "shared:clear-opcc"@);
            &&& precedes(q, switch_of(c), off)
            &&& precedes(q, switch_of(c), clear)
        }),
{
    let c = r@;
    let mode = chosen@;
    lemma_plan(r, chosen, q);
    let off = StepView::Run(c.console_new() + " "@ + "shared:maintenance off"@);
    let clear = StepView::Run(c.console_new() + " "@ + "shared:clear-opcc"@);
    let n = lemma_lengths(c, mode);
    let (checks, post, switch) = lemma_execution(c, mode);
    assert(at(q, n + 3 + switch, switch_of(c)));
    assert(at(q, n + 3 + (switch + 2), off));
    assert(at(q, n + 3 + (switch + 4), clear));
}

/// Both releases are put into the chosen maintenance mode before any task is run on the new one.
pub proof fn maintenance_begins_before_the_tasks(
    r: &Rollout,
    chosen: &str,
    q: Plan,
)
    requires
        is_plan(r, chosen, q),
    ensures
        ({
            let c = r@;
            let mode = chosen@;
            let first = StepView::Attempt(
                c.console_current() + " "@ + ("shared:maintenance "@ + mode),
            );
            let second = StepView::Attempt(
                c.console_new() + " "@ + ("shared:maintenance "@ + mode),
            );
            &&& precedes(q, first, second)
            &&& precedes(q, second, StepView::Hook("pre_deploy"@))
            &&& precedes(
                q,
                StepView::Hook("pre_deploy"@),
                StepView::Run(c.console_new() + " "@ + "orm:clear-cache:metadata"@),
            )
            &&& forall|i: int|
                0 <= i < q.len() && ((#[trigger] q[i]).1 is Offer || q[i].1 is Check)
                    ==> exists|j: int| j < i && #[trigger] at(q, j, second)
        }),
{
    let c = r@;
    let mode = chosen@;
    lemma_plan(r, chosen, q);
    let first = StepView::Attempt(c.console_current() + " "@ + ("shared:maintenance "@ + mode));
    let second = StepView::Attempt(c.console_new() + " "@ + ("shared:maintenance "@ + mode));
    let n = lemma_lengths(c, mode);
    let (checks, post, switch) = lemma_execution(c, mode);
    assert(at(q, n + 3 + 1, first));
    assert(at(q, n + 3 + 2, second));
    assert(at(q, n + 3 + 3, StepView::Hook("pre_deploy"@)));
    assert(at(q, n + 3 + 6, StepView::Run(c.console_new() + " "@ + "orm:clear-cache:metadata"@)));
    assert forall|i: int|
        0 <= i < q.len() && ((#[trigger] q[i]).1 is Offer || q[i].1 is Check) implies exists|j: int|
        j < i && #[trigger] at(q, j, second) by {
        if i <= n + 3 + 2 {
            lemma_no_question_before(c, mode, i);
        }
        assert(at(q, n + 3 + 2, second));
    }
}

proof fn lemma_shared_runs(c: RolloutView, dirs: Seq<Seq<char>>, files: Seq<Seq<char>>)
    ensures
        forall|i: int|
            0 <= i < rollout::share_dirs(c, dirs).len() ==> (#[trigger] rollout::share_dirs(
                c,
                dirs,
            )[i]) is Run,
        forall|i: int|
            0 <= i < rollout::share_files(c, files).len() ==> (#[trigger] rollout::share_files(
                c,
                files,
            )[i]) is Run,
    decreases dirs.len() + files.len(),
{
    if dirs.len() > 0 {
        lemma_shared_runs(c, dirs.drop_last(), files);
    } else if files.len() > 0 {
        lemma_shared_runs(c, dirs, files.drop_last());
    }
}

proof fn lemma_no_question_before(c: RolloutView, mode: Seq<char>, i: int)
    requires
        0 <= i < whole(c, mode).len(),
        i <= rollout::preparation(c).len() + 2,
    ensures
        !(whole(c, mode)[i].1 is Offer),
        !(whole(c, mode)[i].1 is Check),
{
    let q = whole(c, mode);
    let n = lemma_lengths(c, mode);
    let d = rollout::share_dirs(c, c.shared_directories).len();
    let (checks, post, switch) = lemma_execution(c, mode);
    lemma_shared_runs(c, c.shared_directories, c.shared_files);
    if 9 <= i < 9 + d {
        assert(q[i].1 == rollout::share_dirs(c, c.shared_directories)[i - 9]);
    } else if 9 + d <= i < n {
        assert(q[i].1 == rollout::share_files(c, c.shared_files)[i - 9 - d]);
    } else if i >= n + 3 {
        assert(q[i] == rollout::execution(c, mode)[i - n - 3]);
    }
}

/// The hooks are called once each and in their order, by the compiled script: before the tasks,
/// behind them and before the release is live, and at the very end.
pub proof fn the_hooks_are_called_in_order(
    r: &Rollout,
    chosen: &str,
    q: Plan,
)
    requires
        is_plan(r, chosen, q),
    ensures
        ({
            let c = r@;
            &&& precedes(q, StepView::LoadHooks, StepView::Hook("pre_deploy"@))
            &&& precedes(q, StepView::Hook("pre_deploy"@), StepView::Hook("post_deploy"@))
            &&& precedes(q, StepView::Hook("post_deploy"@), switch_of(c))
            &&& q.last().1 == StepView::Hook("done_deploy"@)
            &&& forall|i: int|
                0 <= i < q.len() && (#[trigger] q[i]).1 is Check ==> exists|j: int|
                    i < j && #[trigger] at(q, j, StepView::Hook("post_deploy"@))
        }),
{
    let c = r@;
    let mode = chosen@;
    lemma_plan(r, chosen, q);
    let n = lemma_lengths(c, mode);
    let (checks, post, switch) = lemma_execution(c, mode);
    assert(at(q, n, StepView::LoadHooks));
    assert(at(q, n + 3 + 3, StepView::Hook("pre_deploy"@)));
    assert(at(q, n + 3 + post, StepView::Hook("post_deploy"@)));
    assert(at(q, n + 3 + switch, switch_of(c)));
    assert(q[n + 3 + (switch + 5)] == rollout::execution(c, mode)[switch + 5]);
    assert forall|i: int| 0 <= i < q.len() && (#[trigger] q[i]).1 is Check implies exists|j: int|
        i < j && #[trigger] at(q, j, StepView::Hook("post_deploy"@)) by {
        if i >= n + 3 + post {
            assert(q[i] == rollout::execution(c, mode)[i - n - 3]);
        }
        assert(at(q, n + 3 + post, StepView::Hook("post_deploy"@)));
    }
}

/// The database is migrated on the new release while both releases are in maintenance: without
/// asking in an unattended rollout, and where the user agrees in another.
pub proof fn migrations_run_before_the_switch(
    r: &Rollout,
    chosen: &str,
    q: Plan,
)
    requires
        is_plan(r, chosen, q),
    ensures
        ({
            let c = r@;
            let command = c.console_new() + " "@ + "migrations:migrate --no-interaction"@;
            let step = if c.yes {
                StepView::Run(command)
            } else {
                StepView::Offer { question: "Execute migrations?"@, preset: true, command }
            };
            precedes(q, step, switch_of(c))
        }),
{
    let c = r@;
    let mode = chosen@;
    lemma_plan(r, chosen, q);
    let command = c.console_new() + " "@ + "migrations:migrate --no-interaction"@;
    let step = if c.yes {
        StepView::Run(command)
    } else {
        StepView::Offer { question: "Execute migrations?"@, preset: true, command }
    };
    let n = lemma_lengths(c, mode);
    let (checks, post, switch) = lemma_execution(c, mode);
    assert(rollout::execution(c, mode)[9].1 == step);
    assert(at(q, n + 3 + 9, step));
    assert(at(q, n + 3 + switch, switch_of(c)));
}

/// The integration is checked exactly where it is configured: both checks come before the release
/// is live, and there are no others.
pub proof fn the_integration_is_checked_where_configured(
    r: &Rollout,
    chosen: &str,
    q: Plan,
)
    requires
        is_plan(r, chosen, q),
    ensures
        ({
            let c = r@;
            let outdated = StepView::Check {
                label: "outdated"@,
                command: c.console_new() + " "@ + "cops:outdated"@,
            };
            let permissions = StepView::Check {
                label: "permissions"@,
                command: c.console_new() + " "@ + "cops:permissions"@,
            };
            &&& c.cops ==> precedes(q, outdated, switch_of(c)) && precedes(
                q,
                permissions,
                switch_of(c),
            )
            &&& forall|i: int|
                0 <= i < q.len() && (#[trigger] q[i]).1 is Check ==> c.cops && (q[i].1 == outdated
                    || q[i].1 == permissions)
        }),
{
    let c = r@;
    let mode = chosen@;
    lemma_plan(r, chosen, q);
    let outdated = StepView::Check {
        label: "outdated"@,
        command: c.console_new() + " "@ + "cops:outdated"@,
    };
    let permissions = StepView::Check {
        label: "permissions"@,
        command: c.console_new() + " "@ + "cops:permissions"@,
    };
    let n = lemma_lengths(c, mode);
    let (checks, post, switch) = lemma_execution(c, mode);
    assert(at(q, n + 3 + switch, switch_of(c)));
    if c.cops {
        assert(rollout::execution(c, mode)[12].1 == outdated);
        assert(rollout::execution(c, mode)[13].1 == permissions);
        assert(at(q, n + 3 + 12, outdated));
        assert(at(q, n + 3 + 13, permissions));
    }
    assert forall|i: int| 0 <= i < q.len() && (#[trigger] q[i]).1 is Check implies c.cops && (
    q[i].1 == outdated || q[i].1 == permissions) by {
        if i <= n + 5 {
            lemma_no_question_before(c, mode, i);
        } else {
            assert(q[i] == rollout::execution(c, mode)[i - n - 3]);
        }
    }
}

/// The user has a last word before the release becomes the live one, unless nothing is asked.
pub proof fn the_switch_waits_for_the_user(
    r: &Rollout,
    chosen: &str,
    q: Plan,
)
    requires
        is_plan(r, chosen, q),
    ensures
        !r.yes ==> precedes(q, StepView::Pause, switch_of(r@)),
{
    let c = r@;
    let mode = chosen@;
    lemma_plan(r, chosen, q);
    let n = lemma_lengths(c, mode);
    let (checks, post, switch) = lemma_execution(c, mode);
    if !c.yes {
        assert(rollout::execution(c, mode)[switch - 2].1 == StepView::Pause);
        assert(at(q, n + 3 + (switch - 2), StepView::Pause));
        assert(at(q, n + 3 + switch, switch_of(c)));
    }
}

/// A step that succeeded, and one that may fail, leads on to the rest of the plan and to nothing
/// else. What was offered is run where the user agreed, before the rest, and left out where the
/// user did not. A hook that the script does not have is passed over.
pub proof fn the_plan_goes_on(c: &Rollout, queue: Vec<Planned>, event: &Event, r: Vec<Planned>)
    requires
        call_ensures(rollout::advance, (c, queue, event), r),
        queue@.len() > 0,
        !(queue@[0].step@ is Stop),
    ensures
        ({
            let first = queue@[0].step@;
            let rest = rollout::planned(queue@).drop_first();
            let next = rollout::planned(r@);
            &&& event@ is Done ==> next == rest
            &&& first is Attempt || first is Say || first is Warn ==> next == rest
            &&& first is Offer && event@ == EventView::Answered(false) ==> next == rest
            &&& first is Offer && event@ == EventView::Answered(true) ==> next == seq![
                (queue@[0].stage, StepView::Run(first->Offer_command)),
            ] + rest
            &&& first is Insist && event@ == EventView::Answered(true) ==> next == rest
            &&& first is Hook && event@ is Missing && event@->Missing_function == first->Hook_0
                ==> next == rest
        }),
{
    let q = rollout::planned(queue@);
    let first = queue@[0].step@;
    assert(q[0] == (queue@[0].stage, first));
    let f = rollout::follow_up(c@, first, event@);
    if let StepView::Hook(n) = first {
        assert(n.is_prefix_of(n)) by {
            assert(n.subrange(0, n.len() as int) =~= n);
        }
    }
    assert(f.len() == 0 ==> rollout::in_stage(q[0].0, f) + q.drop_first() =~= q.drop_first());
    if first is Offer && event@ == EventView::Answered(true) {
        assert(rollout::planned(r@) =~= seq![(q[0].0, StepView::Run(first->Offer_command))]
            + q.drop_first());
    }
}

/// What fails is not passed over: a command that has to succeed, a hook and a question that cannot
/// be put end the rollout, with the error told. A failed check is put to the user where one can
/// be asked; otherwise maintenance ends on both releases before the rollout is given up. A rollout
/// that was given up stays so.
pub proof fn what_fails_is_not_passed_over(
    c: &Rollout,
    queue: Vec<Planned>,
    event: &Event,
    r: Vec<Planned>,
)
    requires
        call_ensures(rollout::advance, (c, queue, event), r),
        queue@.len() > 0,
    ensures
        ({
            let first = queue@[0].step@;
            let next = rollout::planned(r@);
            let off = |console: Seq<char>|
                StepView::Attempt(console + " "@ + "shared:maintenance off"@);
            &&& first is Stop ==> next == rollout::planned(queue@)
            &&& event@ matches EventView::Failed(e) ==> {
                &&& first is Run || first is Copy || first is Pause || first is Offer || first
                    is Insist ==> next.len() > 0 && next[0].1 == StepView::Stop(e)
                &&& first is Hook || first is LoadHooks ==> next.len() > 0 && next[0].1 is Stop
                &&& first is Check && !c.yes ==> next.len() > 1 && next[0].1 is Warn && next[1].1
                    is Insist
            }
            &&& (first is Check && event@ is Failed && c.yes) || (first is Insist && event@
                == EventView::Answered(false)) ==> {
                &&& next.len() > 2
                &&& next[0].1 == off(c@.console_current())
                &&& next[1].1 == off(c@.console_new())
                &&& next[2].1 is Stop
            }
            &&& first is Hook && event@ is Missing && !(first->Hook_0.is_prefix_of(
                event@->Missing_function,
            )) ==> next.len() > 0 && next[0].1 is Stop
        }),
{
    let q = rollout::planned(queue@);
    assert(q[0] == (queue@[0].stage, queue@[0].step@));
}

/// The console of a release is told by the text that the rollout hands out for it.
pub proof fn the_consoles_are_handed_out(c: &Rollout, current: String, new: String)
    requires
        call_ensures(Rollout::console_current, (c,), current),
        call_ensures(Rollout::console_new, (c,), new),
        root_of(*c).len() > 0,
        root_of(*c).last() != '/',
        c.release_dir@.len() > 0,
        c.release_dir@.last() != '/',
    ensures
        current@ == "php "@ + root_of(*c) + "/current/"@ + c@.console_script(),
        new@ == "php "@ + (root_of(*c) + "/releases"@ + "/"@ + c.release_dir@) + "/"@
            + c@.console_script(),
{
    the_consoles_belong_to_their_releases(c@);
}

/// A step that succeeded leads to nothing of its own; a command that failed leads to the end, in
/// the stage that it belongs to. A command that was offered runs on a yes only.
pub proof fn a_step_leads_on_by_what_became_of_it(
    c: &Rollout,
    p: &Planned,
    event: &Event,
    r: Vec<Planned>,
)
    requires
        call_ensures(rollout::settle, (c, p, event), r),
    ensures
        ({
            let next = rollout::planned(r@);
            let s = p.step@;
            &&& s is Run && event@ is Failed ==> next.len() == 1 && next[0] == (
                p.stage,
                StepView::Stop(event@->Failed_0),
            )
            &&& s is Run && !(event@ is Failed) ==> next.len() == 0
            &&& s is Attempt ==> next.len() == 0
            &&& s is Offer && event@ == EventView::Answered(false) ==> next.len() == 0
            &&& s is Offer && event@ == EventView::Answered(true) ==> next.len() == 1 && next[0] == (
                p.stage,
                StepView::Run(s->Offer_command),
            )
        }),
{
    let n = rollout::planned(r@);
    let f = rollout::follow_up(c@, p.step@, event@);
    assert(n.len() == f.len());
}

/// The mode of maintenance is asked for unless everything was agreed to before; then it is the one
/// that is set.
pub proof fn the_mode_is_asked_for(c: &Rollout, r: ModeChoice)
    requires
        call_ensures(rollout::maintenance_choice, (c,), r),
    ensures
        r is Given <==> c.yes,
        r matches ModeChoice::Given(m) ==> m@ == c.maintenance_mode@,
        r matches ModeChoice::Ask { soft_first } ==> (soft_first <==> c.maintenance_mode@
            == "soft"@),
{
}

/// Every cache of the new release is cleared before the release is live: the byte code, the metadata
/// and the queries in any case, the results where the user agrees. The schema is only shown.
pub proof fn caches_are_cleared_before_the_switch(r: &Rollout, chosen: &str, q: Plan)
    requires
        is_plan(r, chosen, q),
    ensures
        ({
            let c = r@;
            let run = |what: Seq<char>| StepView::Run(c.console_new() + " "@ + what);
            let offer = |question: Seq<char>, what: Seq<char>|
                if c.yes {
                    StepView::Run(c.console_new() + " "@ + what)
                } else {
                    StepView::Offer {
                        question,
                        preset: false,
                        command: c.console_new() + " "@ + what,
                    }
                };
            let schema = offer("Execute schema-tool?"@, "orm:schema-tool:update --dump-sql"@);
            &&& precedes(q, run("shared:clear-opcc"@), switch_of(c))
            &&& precedes(q, run("orm:clear-cache:metadata"@), switch_of(c))
            &&& precedes(q, run("orm:clear-cache:query"@), switch_of(c))
            &&& precedes(q, offer("Clear result cache?"@, "orm:clear-cache:result"@), switch_of(c))
            &&& precedes(q, schema, switch_of(c))
        }),
{
    let c = r@;
    let mode = chosen@;
    lemma_plan(r, chosen, q);
    let n = lemma_lengths(c, mode);
    let (checks, post, switch) = lemma_execution(c, mode);
    let e = rollout::execution(c, mode);
    assert(at(q, n + 3 + 5, e[5].1));
    assert(at(q, n + 3 + 6, e[6].1));
    assert(at(q, n + 3 + 7, e[7].1));
    assert(at(q, n + 3 + 8, e[8].1));
    assert(at(q, n + 3 + 10, e[10].1));
    assert(at(q, n + 3 + switch, switch_of(c)));
}

/// Once a release was unpacked the old ones go: all but the five newest, never the one that is
/// live, and nothing that is not called like a release. A failure of it does not matter.
pub proof fn old_releases_go_and_the_live_one_stays(r: &Rollout, chosen: &str, q: Plan)
    requires
        is_plan(r, chosen, q),
    ensures
        ({
            let c = r@;
            let root = c.server_root;
            let all = root + "/releases"@;
            let script = "ls -d1t "@ + shell::quoted(all)
                + "/* 2>/dev/null | grep -v $(readlink -f "@ + shell::quoted(root + "/current"@)
                + " 2>/dev/null || echo \"none\") | grep -E "@ + shell::quoted(
                all + "/[0-9]{14}_.+$"@,
            ) + " | tail -n +6 | xargs rm -rf 2>/dev/null || true"@;
            precedes(
                q,
                StepView::Run("mkdir -p "@ + shell::quoted(all + "/"@ + c.release_dir)),
                StepView::Attempt("bash -c "@ + shell::quoted(script)),
            )
        }),
{
    let c = r@;
    let mode = chosen@;
    lemma_plan(r, chosen, q);
    let n = lemma_lengths(c, mode);
    assert(at(q, 4, StepView::Run("mkdir -p "@ + shell::quoted(c.release_path()))));
    assert(at(q, 7, StepView::Attempt(c.cleanup())));
}

/// The archive lies among the releases while it is unpacked, under its own name, and PHP is
/// reloaded once the shared paths are in place, before the hooks of the release are called.
pub proof fn the_archive_keeps_its_name(
    r: &Rollout,
    chosen: &str,
    q: Plan,
    path: &str,
    name: Option<String>,
)
    requires
        is_plan(r, chosen, q),
        path@ == r@.archive_path,
        call_ensures(paths::file_name, (path,), name),
        name is Some,
    ensures
        ({
            let c = r@;
            let there = c.server_root + "/releases"@ + "/"@ + name->0@;
            let reload = StepView::Attempt("sudo php-fpm-reload.sh"@);
            &&& exists|i: int| #[trigger] at(q, i, StepView::Copy { from: path@, to: there })
            &&& exists|i: int| #[trigger] at(q, i, StepView::Run("rm -f "@ + shell::quoted(there)))
            &&& precedes(q, StepView::Run("rm -f "@ + shell::quoted(there)), reload)
            &&& precedes(q, reload, StepView::Hook("pre_deploy"@))
        }),
{
    let c = r@;
    let mode = chosen@;
    lemma_plan(r, chosen, q);
    let n = lemma_lengths(c, mode);
    let (checks, post, switch) = lemma_execution(c, mode);
    let there = c.server_root + "/releases"@ + "/"@ + name->0@;
    assert(there == c.remote_archive());
    assert(at(q, 2, StepView::Copy { from: path@, to: there }));
    assert(at(q, 6, StepView::Run("rm -f "@ + shell::quoted(there))));
    assert(at(q, n + 2, StepView::Attempt("sudo php-fpm-reload.sh"@)));
    assert(at(q, n + 3 + 3, StepView::Hook("pre_deploy"@)));
}

} // verus!
