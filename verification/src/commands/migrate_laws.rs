//! What holds of a migration as a whole.
use vstd::prelude::*;

use crate::commands::migrate;
use crate::commands::migrate::{BackupItem, Call, MigrateStep, StepView};
use crate::edit;
use crate::lines;
use crate::paths;
use crate::text;
use crate::text_laws;

verus! {

/// The step that brings an item back: from below the backup to its own name in the project.
pub open spec fn restores(s: StepView, backup: Seq<char>, item: BackupItem) -> bool {
    s is Attempt && s->Attempt_program == "sudo"@ && s->Attempt_args == (if item.is_dir {
        seq!["rsync"@, "-a"@, backup + "/"@ + item.name@ + "/"@, item.name@ + "/"@]
    } else {
        seq!["rsync"@, "-a"@, backup + "/"@ + item.name@, item.name@]
    })
}

proof fn lemma_restoring(backup: Seq<char>, items: Seq<BackupItem>)
    ensures
        migrate::restoring_all(backup, items).len() == 2 * items.len(),
        forall|k: int|
            #![trigger items[k]]
            0 <= k < items.len() ==> restores(
                migrate::restoring_all(backup, items)[2 * k + 1],
                backup,
                items[k],
            ) && migrate::restoring_all(backup, items)[2 * k] is Say,
    decreases items.len(),
{
    if items.len() > 0 {
        let w = items.drop_last();
        lemma_restoring(backup, w);
        assert forall|k: int| #![trigger items[k]] 0 <= k < items.len() implies restores(
            migrate::restoring_all(backup, items)[2 * k + 1],
            backup,
            items[k],
        ) && migrate::restoring_all(backup, items)[2 * k] is Say by {
            if k < w.len() {
                assert(w[k] == items[k]);
            }
        }
    }
}

/// The template is applied first; then every item that is to be restored comes back from the
/// backup to its own place in the project, over what the template brought.
pub proof fn every_item_is_restored_from_the_backup(
    backup: &str,
    template_dir: &str,
    items: &Vec<BackupItem>,
    r: Vec<MigrateStep>,
    k: int,
) -> (i: int)
    requires
        call_ensures(migrate::rebuild, (backup, template_dir, items), r),
        0 <= k < items@.len(),
    ensures
        1 < i < r@.len(),
        restores(migrate::steps(r@)[i], backup@, items@[k]),
        migrate::steps(r@)[1] is Run,
        migrate::steps(r@)[1]->Run_program == "rsync"@,
        migrate::steps(r@)[1]->Run_args == seq!["-a"@, template_dir@ + "/"@, "./"@],
{
    let s = migrate::steps(r@);
    assert(s.len() == r@.len());
    lemma_restoring(backup@, items@);
    let i = 2 + (2 * k + 1);
    assert(s[i] == migrate::restoring_all(backup@, items@)[2 * k + 1]);
    assert(restores(s[i], backup@, items@[k]));
    i
}

/// Nothing that rebuilds the project writes into the backup: the template goes into the project,
/// the items go to their own names and the database to its volume. All that `sudo` copies comes
/// from below the backup.
pub proof fn the_backup_is_only_read(
    backup: &str,
    template_dir: &str,
    items: &Vec<BackupItem>,
    r: Vec<MigrateStep>,
    i: int,
)
    requires
        call_ensures(migrate::rebuild, (backup, template_dir, items), r),
        0 <= i < r@.len(),
    ensures
        ({
            let s = migrate::steps(r@)[i];
            &&& s is Run ==> s->Run_args.last() == "./"@ && s->Run_program == "rsync"@
            &&& s is Attempt ==> s->Attempt_program == "sudo"@ && s->Attempt_args.len() == 4
                && s->Attempt_args[0] == "rsync"@ && (backup@ + "/"@).is_prefix_of(
                s->Attempt_args[2],
            ) && (s->Attempt_args[3] == "volumes/db/"@ || exists|k: int|
                0 <= k < items@.len() && (s->Attempt_args[3] == (#[trigger] items@[k]).name@
                    || s->Attempt_args[3] == items@[k].name@ + "/"@))
            &&& !(s is Empty) && !(s is MakeBackup)
        }),
{
    let all = migrate::steps(r@);
    assert(all.len() == r@.len());
    let s = all[i];
    let n = 2 * items@.len();
    lemma_restoring(backup@, items@);
    if 2 <= i < 2 + n {
        let k = (i - 2) / 2;
        assert(s == migrate::restoring_all(backup@, items@)[i - 2]);
        assert(items@[k].name@ == items@[k].name@);
        if s is Attempt {
            assert(i - 2 == 2 * k + 1);
            assert(restores(s, backup@, items@[k]));
            let from = s->Attempt_args[2];
            let p = backup@ + "/"@;
            assert(from.subrange(0, p.len() as int) =~= p);
        }
    } else if s is Attempt {
        let p = backup@ + "/"@;
        reveal_strlit("/");
        reveal_strlit("/container/mariadb/");
        let from = backup@ + "/container/mariadb/"@;
        assert(from.subrange(0, p.len() as int) =~= p);
        assert(s->Attempt_args[2] == from);
    }
}

/// A migration is finished only at the end: once the items are back the deployment, the database,
/// the control script and the environment are taken over, then the template is recorded, and then
/// it is a success.
pub proof fn a_migration_is_recorded_last(
    backup: &str,
    template_dir: &str,
    items: &Vec<BackupItem>,
    r: Vec<MigrateStep>,
)
    requires
        call_ensures(migrate::rebuild, (backup, template_dir, items), r),
    ensures
        ({
            let s = migrate::steps(r@);
            let n = s.len();
            &&& n > 11
            &&& s[n - 2] is Succeed
            &&& s[n - 3] is RecordTemplate
            &&& s[n - 4] is RestoreEnv
            &&& s[n - 6] is CapScript
            &&& s[n - 8] is Attempt && s[n - 8]->Attempt_args == seq![
                "rsync"@,
                "-a"@,
                backup@ + "/container/mariadb/"@,
                "volumes/db/"@,
            ]
            &&& s[n - 10] is Capistrano
            &&& forall|i: int| 0 <= i < n - 11 ==> !((#[trigger] s[i]) is RestoreEnv) && !(s[i]
                is RecordTemplate) && !(s[i] is Succeed)
        }),
{
    lemma_restoring(backup@, items@);
    let s = migrate::steps(r@);
    let n = s.len();
    let all = migrate::restoring_all(backup@, items@);
    assert forall|i: int| 0 <= i < n - 11 implies !((#[trigger] s[i]) is RestoreEnv) && !(s[i]
        is RecordTemplate) && !(s[i] is Succeed) by {
        if i >= 2 {
            let k = (i - 2) / 2;
            assert(s[i] == all[i - 2]);
            assert(items@[k].name@ == items@[k].name@);
            assert(i - 2 == 2 * k || i - 2 == 2 * k + 1);
        }
    }
}

/// A project is emptied only as the last step of securing it: it is stopped first, then all of it
/// is copied into the backup, and a failure of either ends the migration. Only an old project is
/// migrated at all.
pub proof fn a_project_is_saved_before_it_is_emptied(
    old_project: bool,
    backup: &str,
    r: Result<Vec<MigrateStep>, String>,
)
    requires
        call_ensures(migrate::execute, (old_project, backup), r),
    ensures
        r is Err <==> !old_project,
        r matches Ok(v) ==> {
            let s = migrate::steps(v@);
            &&& s.len() > 4
            &&& s.last() is Empty
            &&& forall|i: int| 0 <= i < s.len() - 1 ==> !((#[trigger] s[i]) is Empty)
            &&& exists|a: int, b: int, c: int|
                0 <= a < b < c < s.len() - 1 && (#[trigger] s[a]) is Run && s[a]->Run_args == seq![
                    "./control.cmd"@,
                    "stop"@,
                ] && (#[trigger] s[b]) == StepView::MakeBackup(backup@) && (#[trigger] s[c]) is Run
                    && s[c]->Run_program == "sudo"@ && s[c]->Run_args == seq![
                    "rsync"@,
                    "-a"@,
                    "--exclude"@,
                    backup@,
                    "./"@,
                    backup@ + "/"@,
                ]
        },
{
    if let Ok(v) = r {
        let s = migrate::steps(v@);
        assert(s[1] is Run && s[3] == StepView::MakeBackup(backup@) && s[4] is Run);
    }
}

proof fn lemma_without(entries: Seq<Seq<char>>, backup: Seq<char>, e: Seq<char>)
    ensures
        migrate::without(entries, backup).contains(e) <==> entries.contains(e) && e != backup,
    decreases entries.len(),
{
    if entries.len() > 0 {
        let w = entries.drop_last();
        lemma_without(w, backup, e);
        vstd::seq_lib::lemma_seq_contains_after_push(w, entries.last(), e);
        assert(w.push(entries.last()) =~= entries);
        vstd::seq_lib::lemma_seq_contains_after_push(
            migrate::without(w, backup),
            entries.last(),
            e,
        );
    }
}

/// Emptying a project takes everything but the backup.
pub proof fn the_backup_outlives_the_emptying(
    entries: &Vec<String>,
    backup: &str,
    r: Vec<String>,
    e: Seq<char>,
)
    requires
        call_ensures(migrate::entries_to_remove, (entries, backup), r),
    ensures
        text::texts(r@).contains(e) <==> text::texts(entries@).contains(e) && e != backup@,
{
    lemma_without(text::texts(entries@), backup@, e);
}

/// Whether a line sets a key.
pub open spec fn sets(line: Seq<char>, key: Seq<char>) -> bool {
    match migrate::setting(line) {
        Some((k, _)) => k == key,
        None => false,
    }
}

/// Whether a line is the last of some that set a key, and to what.
pub open spec fn sets_last(all: Seq<Seq<char>>, j: int, key: Seq<char>, value: Seq<char>) -> bool {
    &&& 0 <= j < all.len()
    &&& migrate::setting(all[j]) == Some((key, value))
    &&& forall|i: int|
        j < i < all.len() ==> !sets(#[trigger] all[i], key)
}

/// Whether some lines leave a key unset.
pub open spec fn leaves_unset(all: Seq<Seq<char>>, key: Seq<char>) -> bool {
    forall|i: int|
        0 <= i < all.len() ==> !sets(#[trigger] all[i], key)
}

proof fn lemma_last_setting(all: Seq<Seq<char>>, key: Seq<char>)
    ensures
        leaves_unset(all, key) <==> migrate::last_setting(all, key) is None,
        forall|j: int, v: Seq<char>| #[trigger]
            sets_last(all, j, key, v) ==> migrate::last_setting(all, key) == Some(v),
    decreases all.len(),
{
    if all.len() > 0 {
        let w = all.drop_last();
        lemma_last_setting(w, key);
        assert(all[all.len() - 1] == all.last());
        let here = sets(all.last(), key);
        if !here {
            if leaves_unset(w, key) {
                assert forall|i: int| 0 <= i < all.len() implies !sets(#[trigger] all[i], key) by {
                    if i < w.len() {
                        assert(w[i] == all[i]);
                    }
                }
            }
            if leaves_unset(all, key) {
                assert forall|i: int| 0 <= i < w.len() implies !sets(#[trigger] w[i], key) by {
                    assert(all[i] == w[i]);
                }
            }
        }
        assert forall|j: int, v: Seq<char>| #[trigger] sets_last(
            all,
            j,
            key,
            v,
        ) implies migrate::last_setting(all, key) == Some(v) by {
            if !here {
                assert(j < w.len());
                assert(w[j] == all[j]);
                assert forall|i: int| j < i < w.len() implies !sets(#[trigger] w[i], key) by {
                    assert(all[i] == w[i]);
                }
                assert(sets_last(w, j, key, v));
            } else if j < w.len() {
                assert(sets(all[all.len() - 1], key));
            }
        }
    }
}

/// Whether a line of the new environment keeps what the old one had: a setting keeps its old value,
/// the last one where there are several, and any other line stays as the template has it, comments
/// among them. The port of the database also comes from the name that it had before.
pub open spec fn keeps_old(line: Seq<char>, before: Seq<Seq<char>>, out: Seq<char>) -> bool {
    let t = text::trimmed(line);
    if t.len() > 0 && t[0] == '#' {
        out == line
    } else {
        match text::cut(t, '=') {
            None => out == line,
            Some((key, _)) => {
                let k = text::trimmed(key);
                &&& forall|j: int, v: Seq<char>| #[trigger]
                    sets_last(before, j, k, v) ==> out == k + "="@ + v
                &&& leaves_unset(before, k) && k != "DB_HOST_PORT"@ ==> out == line
                &&& leaves_unset(before, k) && k == "DB_HOST_PORT"@ ==> forall|
                    j: int,
                    v: Seq<char>,
                | #[trigger]
                    sets_last(before, j, "MARIADB_PORT"@, v) ==> out == k + "="@ + v
            },
        }
    }
}

/// The new environment has the lines of the template in their order, each with the old value where
/// there is one.
pub proof fn the_old_values_are_kept(
    dist: &str,
    old_env: &str,
    r: String,
) -> (all: Seq<Seq<char>>)
    requires
        call_ensures(migrate::restore_env, (dist, old_env), r),
    ensures
        r@ == lines::ended(all),
        all.len() == lines::lines(dist@).len(),
        forall|i: int|
            0 <= i < all.len() ==> keeps_old(
                lines::lines(dist@)[i],
                lines::lines(old_env@),
                #[trigger] all[i],
            ),
{
    let d = lines::lines(dist@);
    let before = lines::lines(old_env@);
    let all = migrate::restored_lines(d, before);
    assert forall|i: int| 0 <= i < all.len() implies keeps_old(d[i], before, #[trigger] all[i]) by {
        let t = text::trimmed(d[i]);
        assert(all[i] == migrate::restored_line(d[i], before));
        if let Some((key, rest)) = text::cut(t, '=') {
            lemma_last_setting(before, text::trimmed(key));
            lemma_last_setting(before, "MARIADB_PORT"@);
        }
    }
    all
}

/// A line that sets a key gives its value without the white space around it; a comment sets
/// nothing.
pub proof fn a_setting_is_read(key: Seq<char>, value: Seq<char>)
    requires
        text::trimmed(key) == key,
        text::trimmed(key + "="@ + value) == key + "="@ + value,
        !key.contains('='),
    ensures
        key.len() > 0 && key[0] != '#' ==> migrate::setting(key + "="@ + value) == Some(
            (key, text::trimmed(value)),
        ),
        key.len() > 0 && key[0] == '#' ==> migrate::setting(key + "="@ + value) is None,
{
    reveal_strlit("=");
    text::cut_of_both(key, '=', value);
    assert(key + "="@ + value =~= key + seq!['='] + value);
    if key.len() > 0 {
        assert((key + "="@ + value)[0] == key[0]);
    }
}

proof fn lemma_no_capistrano(all: Seq<Seq<char>>)
    requires
        forall|i: int| 0 <= i < all.len() ==> text::trimmed(#[trigger] all[i]) != "capistrano:"@,
    ensures
        migrate::capistrano_lines(all, false).len() == 0,
    decreases all.len(),
{
    if all.len() > 0 {
        let w = all.drop_first();
        assert(text::trimmed(all[0]) != "capistrano:"@);
        assert forall|i: int| 0 <= i < w.len() implies text::trimmed(#[trigger] w[i])
            != "capistrano:"@ by {
            assert(w[i] == all[i + 1]);
        }
        lemma_no_capistrano(w);
    }
}

proof fn lemma_first_capistrano(all: Seq<Seq<char>>, k: int)
    requires
        0 <= k < all.len(),
        text::trimmed(all[k]) == "capistrano:"@,
        forall|i: int| 0 <= i < k ==> text::trimmed(#[trigger] all[i]) != "capistrano:"@,
    ensures
        migrate::capistrano_lines(all, false).len() > 0,
        migrate::capistrano_lines(all, false)[0] == all[k],
    decreases all.len(),
{
    if k > 0 {
        let w = all.drop_first();
        assert(text::trimmed(all[0]) != "capistrano:"@);
        assert forall|i: int| 0 <= i < k - 1 implies text::trimmed(#[trigger] w[i])
            != "capistrano:"@ by {
            assert(w[i] == all[i + 1]);
        }
        lemma_first_capistrano(w, k - 1);
    }
}

/// The service of the old deployment is taken over exactly where the old file has one, and nothing
/// that stands before it.
pub proof fn only_the_deployment_service_is_taken_over(content: &str, r: Option<String>)
    requires
        call_ensures(migrate::migrate_capistrano, (content,), r),
    ensures
        r is Some <==> exists|k: int|
            0 <= k < lines::lines(content@).len() && text::trimmed(
                #[trigger] lines::lines(content@)[k],
            ) == "capistrano:"@,
        forall|k: int|
            #![trigger lines::lines(content@)[k]]
            0 <= k < lines::lines(content@).len() && text::trimmed(lines::lines(content@)[k])
                == "capistrano:"@ && (forall|i: int|
                0 <= i < k ==> text::trimmed(#[trigger] lines::lines(content@)[i])
                    != "capistrano:"@) ==> r is Some && ("services:\n"@ + lines::lines(content@)[k]
                + "\n"@).is_prefix_of(r->0@),
{
    let all = lines::lines(content@);
    let block = migrate::capistrano_lines(all, false);
    if forall|i: int| 0 <= i < all.len() ==> text::trimmed(#[trigger] all[i]) != "capistrano:"@ {
        lemma_no_capistrano(all);
    } else {
        let k = lemma_first(all);
        lemma_first_capistrano(all, k);
        lemma_ended_begins(block);
        let begin = "services:\n"@ + all[k] + "\n"@;
        let whole = "services:\n"@ + lines::ended(block);
        assert(whole.subrange(0, begin.len() as int) =~= begin) by {
            let e = block[0] + "\n"@;
            assert(lines::ended(block).subrange(0, e.len() as int) == e);
            assert forall|i: int| 0 <= i < begin.len() implies whole[i] == begin[i] by {
                let n = "services:\n"@.len();
                if i >= n {
                    assert(lines::ended(block).subrange(0, e.len() as int)[i - n] == e[i - n]);
                }
            }
        }
        assert forall|m: int|
            #![trigger all[m]]
            0 <= m < all.len() && text::trimmed(all[m]) == "capistrano:"@ && (forall|i: int|
                0 <= i < m ==> text::trimmed(#[trigger] all[i]) != "capistrano:"@) implies m
            == k by {
            if k < m {
                assert(text::trimmed(all[k]) != "capistrano:"@);
            }
        }
    }
}

proof fn lemma_first(all: Seq<Seq<char>>) -> (k: int)
    requires
        !(forall|i: int|
            0 <= i < all.len() ==> text::trimmed(#[trigger] all[i]) != "capistrano:"@),
    ensures
        0 <= k < all.len(),
        text::trimmed(all[k]) == "capistrano:"@,
        forall|i: int| 0 <= i < k ==> text::trimmed(#[trigger] all[i]) != "capistrano:"@,
    decreases all.len(),
{
    let w = all.drop_last();
    if forall|i: int| 0 <= i < w.len() ==> text::trimmed(#[trigger] w[i]) != "capistrano:"@ {
        assert forall|i: int| 0 <= i < all.len() - 1 implies text::trimmed(#[trigger] all[i])
            != "capistrano:"@ by {
            assert(w[i] == all[i]);
        }
        all.len() - 1
    } else {
        let k = lemma_first(w);
        assert(w[k] == all[k]);
        assert forall|i: int| 0 <= i < k implies text::trimmed(#[trigger] all[i])
            != "capistrano:"@ by {
            assert(w[i] == all[i]);
        }
        k
    }
}

proof fn lemma_ended_begins(all: Seq<Seq<char>>)
    requires
        all.len() > 0,
    ensures
        lines::ended(all).len() >= (all[0] + "\n"@).len(),
        lines::ended(all).subrange(0, (all[0] + "\n"@).len() as int) == all[0] + "\n"@,
    decreases all.len(),
{
    let e = all[0] + "\n"@;
    if all.len() == 1 {
        assert(lines::ended(all.drop_last()) =~= Seq::<char>::empty());
        assert(lines::ended(all) =~= e);
        assert(lines::ended(all).subrange(0, e.len() as int) =~= e);
    } else {
        let w = all.drop_last();
        assert(w[0] == all[0]);
        lemma_ended_begins(w);
        assert(lines::ended(all).subrange(0, e.len() as int) =~= lines::ended(w).subrange(
            0,
            e.len() as int,
        ));
    }
}

/// The files of the old deployment are copied from below the backup to where the new service looks
/// for them.
pub proof fn the_deployment_is_copied_from_the_backup(backup: &str, r: (Call, Call))
    requires
        call_ensures(migrate::capistrano_copies, (backup,), r),
    ensures
        text::texts(r.0.args@) == seq![
            "rsync"@,
            "-a"@,
            backup@ + "/docker-compose/build/capistrano/"@,
            "build/capistrano/"@,
        ],
        text::texts(r.1.args@) == seq![
            "rsync"@,
            "-a"@,
            backup@ + "/container/capistrano/"@,
            "volumes/capistrano/"@,
        ],
        r.0.program@ == "sudo"@ && r.1.program@ == "sudo"@,
{
}

/// The build file of the deployment is written only into a project that has one, and only where it
/// differs.
pub proof fn the_build_file_is_refreshed_where_it_differs(
    there: bool,
    content: Option<&str>,
    r: bool,
)
    requires
        call_ensures(migrate::write_capistrano_dockerfile, (there, content), r),
    ensures
        !there ==> !r,
        there && content is None ==> r,
        content matches Some(c) ==> (r <==> there && c@ != migrate::CAPISTRANO_DOCKERFILE@),
{
}

/// The application and the settings of the editors are what a migration brings back.
pub proof fn the_application_is_restored(assistant_dir: &str, r: Vec<String>)
    requires
        call_ensures(migrate::restored_items, (assistant_dir,), r),
    ensures
        text::texts(r@).contains("htdocs"@),
        text::texts(r@).contains(".idea"@),
        text::texts(r@).contains(assistant_dir@),
        r@.len() == 3,
{
    let t = text::texts(r@);
    assert(t.len() == r@.len());
    assert(t[0] == "htdocs"@ && t[1] == ".idea"@ && t[2] == assistant_dir@);
}

/// Inside the service of the deployment, what it mounts is mounted from where its files are moved
/// to, and it is built where its build file is moved to.
pub proof fn the_deployment_follows_its_files(
    content: &str,
    head: Seq<char>,
    line: Seq<char>,
    a: Seq<char>,
    b: Seq<char>,
    r: Option<String>,
)
    requires
        call_ensures(migrate::migrate_capistrano, (content,), r),
        lines::lines(content@) == seq![head, line],
        text::trimmed(head) == "capistrano:"@,
        text::trimmed(line) != "capistrano:"@,
        "    "@.is_prefix_of(line),
        "  "@.is_prefix_of(line),
    ensures
        ({
            let mounted = "./container/capistrano/"@;
            let built = "docker-compose/build/capistrano"@;
            let moved = a + "./volumes/capistrano/"@ + b;
            &&& line == a + mounted + b && !text::has_text(a + mounted.drop_last(), mounted)
                && !text::has_text(b, mounted) && !text::has_text(moved, built) ==> paths::opt(r)
                == Some("services:\n"@ + (head + "\n"@ + (moved + "\n"@)))
            &&& line == a + built + b && !text::has_text(a + built.drop_last(), built)
                && !text::has_text(b, built) && !text::has_text(line, mounted) ==> paths::opt(r)
                == Some("services:\n"@ + (head + "\n"@ + (a + "build/capistrano"@ + b + "\n"@)))
        }),
{
    let mounted = "./container/capistrano/"@;
    let built = "docker-compose/build/capistrano"@;
    reveal_strlit("./container/capistrano/");
    reveal_strlit("docker-compose/build/capistrano");
    let all = seq![head, line];
    assert(all.drop_first() =~= seq![line]);
    assert(seq![line].drop_first() =~= Seq::<Seq<char>>::empty());
    reveal_with_fuel(migrate::capistrano_lines, 3);
    let m = migrate::moved(line);
    let block = migrate::capistrano_lines(all, false);
    assert(block =~= seq![head, m]);
    reveal_with_fuel(lines::ended, 3);
    assert(block.drop_last() =~= seq![head]);
    assert(seq![head].drop_last() =~= Seq::<Seq<char>>::empty());
    assert(lines::ended(block) =~= head + "\n"@ + (m + "\n"@));
    if line == a + mounted + b && !text::has_text(a + mounted.drop_last(), mounted)
        && !text::has_text(b, mounted) && !text::has_text(
        a + "./volumes/capistrano/"@ + b,
        built,
    ) {
        text_laws::replaced_once(a, mounted, b, "./volumes/capistrano/"@);
        edit::replaced_without(a + "./volumes/capistrano/"@ + b, built, "build/capistrano"@);
    }
    if line == a + built + b && !text::has_text(a + built.drop_last(), built) && !text::has_text(
        b,
        built,
    ) && !text::has_text(line, mounted) {
        edit::replaced_without(line, mounted, "./volumes/capistrano/"@);
        text_laws::replaced_once(a, built, b, "build/capistrano"@);
    }
}

} // verus!
