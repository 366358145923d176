//! What holds of the plan of an update, and of the order in which it is carried out.
use vstd::prelude::*;

use crate::commands::cleanup_backups;
use crate::commands::cleanup_backups::Backup;
use crate::commands::update;
use crate::commands::update::{
    ActionView, ApplyPlan, ConflictReply, ConflictResolution, InteractiveConflictPrompt, PlanView,
    UnknownPolicy, UpdateAction, UpdateStart,
};
use crate::lines;
use crate::order;
use crate::paths;
use crate::template;
use crate::template::summary::Summary;
use crate::template::{Change, ChangeView, ProjectFile};
use crate::text;
use crate::ui;
use crate::ui::{Level, Message};

verus! {

/// Whether an action puts files of the template into the project.
pub open spec fn copies(a: ActionView) -> bool {
    a is SyncAll || a is SyncFiles || a is WriteSidecar
}

/// Nothing of the template is put into the project before the project was saved, and a project that
/// runs is stopped before it is saved. Nothing is started again before the rest is done.
pub proof fn the_backup_comes_before_any_copy(
    force: bool,
    plan: &ApplyPlan,
    running: bool,
    r: Vec<UpdateAction>,
)
    requires
        call_ensures(update::apply_template_update, (force, plan, running), r),
    ensures
        ({
            let a = update::actions_view(r@);
            &&& forall|i: int|
                #![trigger a[i]]
                0 <= i < a.len() && copies(a[i]) ==> exists|k: int|
                    0 <= k < i && #[trigger] a[k] is Backup
            &&& forall|i: int, k: int|
                0 <= i < a.len() && 0 <= k < a.len() && (#[trigger] a[i]) is StopProject && (
                #[trigger] a[k]) is Backup ==> i < k
            &&& (force || plan@.take.len() > 0 || plan@.sidecars.len() > 0) && running ==> a.len()
                > 0 && a[0] is StopProject
            &&& !running ==> forall|i: int| 0 <= i < a.len() ==> !((#[trigger] a[i]) is StopProject)
            &&& forall|i: int| 0 <= i < a.len() ==> !((#[trigger] a[i]) is StartProject)
        }),
{
    let a = update::actions_view(r@);
    let n: int = if running {
        1
    } else {
        0
    };
    if force || plan@.take.len() > 0 || plan@.sidecars.len() > 0 {
        assert(a[n] is Backup);
    }
}

/// What is copied is what was planned: the files to take in one go, a copy beside each file that
/// gets one, or everything where that is forced, and nothing else.
pub proof fn what_was_planned_is_copied(
    force: bool,
    plan: &ApplyPlan,
    running: bool,
    r: Vec<UpdateAction>,
)
    requires
        call_ensures(update::apply_template_update, (force, plan, running), r),
    ensures
        ({
            let a = update::actions_view(r@);
            &&& force <==> a.contains(ActionView::SyncAll)
            &&& !force && plan@.take.len() > 0 ==> a.contains(ActionView::SyncFiles(plan@.take))
            &&& !force ==> forall|i: int|
                0 <= i < plan@.sidecars.len() ==> a.contains(
                    ActionView::WriteSidecar(#[trigger] plan@.sidecars[i]),
                )
            &&& forall|i: int|
                0 <= i < a.len() && (#[trigger] a[i]) is SyncFiles ==> !force && a[i]
                    == ActionView::SyncFiles(plan@.take)
            &&& forall|i: int|
                0 <= i < a.len() && (#[trigger] a[i]) is WriteSidecar ==> !force
                    && plan@.sidecars.contains(a[i]->WriteSidecar_0)
            &&& (force || plan@.take.len() > 0 || plan@.sidecars.len() > 0) ==> a.len() > 0
                && a.last() is RefreshDockerfile
        }),
{
    let a = update::actions_view(r@);
    let n: int = if running {
        1
    } else {
        0
    };
    let m: int = if plan@.take.len() > 0 {
        1
    } else {
        0
    };
    if force {
        assert(a[n + 1] == ActionView::SyncAll);
    } else if plan@.take.len() > 0 || plan@.sidecars.len() > 0 {
        if plan@.take.len() > 0 {
            assert(a[n + 1] == ActionView::SyncFiles(plan@.take));
        }
        assert forall|i: int| 0 <= i < plan@.sidecars.len() implies a.contains(
            ActionView::WriteSidecar(#[trigger] plan@.sidecars[i]),
        ) by {
            assert(a[n + 1 + m + i] == ActionView::WriteSidecar(plan@.sidecars[i]));
        }
        assert forall|i: int| 0 <= i < a.len() && (#[trigger] a[i]) is WriteSidecar implies !force
            && plan@.sidecars.contains(a[i]->WriteSidecar_0) by {
            assert(a[i]->WriteSidecar_0 == plan@.sidecars[i - n - 1 - m]);
        }
    }
}

/// Once files were copied, the ignore rules are merged and the template is recorded, in this order;
/// the image is built anew exactly where its file changed, and the project runs again exactly
/// where it ran before, as the last thing of all.
pub proof fn an_update_ends_as_it_began(
    force: bool,
    plan: &ApplyPlan,
    changed: bool,
    running: bool,
    r: Vec<UpdateAction>,
)
    requires
        call_ensures(update::finish_template_update, (force, plan, changed, running), r),
        force || plan@.take.len() > 0 || plan@.sidecars.len() > 0,
    ensures
        ({
            let a = update::actions_view(r@);
            &&& changed <==> a.contains(ActionView::RebuildImage)
            &&& running <==> a.contains(ActionView::StartProject)
            &&& running ==> a.last() is StartProject
            &&& exists|i: int, j: int|
                0 <= i < j < a.len() && (#[trigger] a[i]) is MergeGitignore && (#[trigger] a[j])
                    is Stamp
            &&& forall|i: int| 0 <= i < a.len() ==> !copies(#[trigger] a[i])
        }),
{
    let a = update::actions_view(r@);
    let n: int = if changed {
        1
    } else {
        0
    };
    assert(a[n] is MergeGitignore && a[n + 1] is Stamp);
    if changed {
        assert(a[0] is RebuildImage);
    }
    if running {
        assert(a[n + 2] is StartProject);
    }
}

/// Where nothing is to be copied, nothing is done but to record the template.
pub proof fn an_update_without_copies_only_records(
    plan: &ApplyPlan,
    changed: bool,
    running: bool,
    first: Vec<UpdateAction>,
    last: Vec<UpdateAction>,
)
    requires
        plan@.take.len() == 0,
        plan@.sidecars.len() == 0,
        call_ensures(update::apply_template_update, (false, plan, running), first),
        call_ensures(update::finish_template_update, (false, plan, changed, running), last),
    ensures
        update::actions_view(first@) == seq![ActionView::Stamp],
        last@.len() == 0,
{
    assert(update::actions_view(last@).len() == last@.len());
}

/// What becomes of a file by a plan.
pub open spec fn becomes(plan: PlanView, p: Seq<char>, how: ConflictResolution) -> bool {
    match how {
        ConflictResolution::TakeTheirs => plan.take.contains(p),
        ConflictResolution::KeepMine => plan.kept.contains(p),
        ConflictResolution::WriteDist => plan.sidecars.contains(p) && plan.kept.contains(p),
    }
}

proof fn lemma_becomes(
    before: PlanView,
    r: Option<(Seq<char>, ConflictResolution)>,
    p: Seq<char>,
    how: ConflictResolution,
)
    ensures
        becomes(before, p, how) ==> becomes(update::with_file(before, r), p, how),
        r == Some((p, how)) ==> becomes(update::with_file(before, r), p, how),
        update::with_file(before, r).take.contains(p) ==> before.take.contains(p) || r == Some(
            (p, ConflictResolution::TakeTheirs),
        ),
        update::with_file(before, r).sidecars.contains(p) ==> before.sidecars.contains(p) || r
            == Some((p, ConflictResolution::WriteDist)),
        update::with_file(before, r).kept.contains(p) ==> before.kept.contains(p) || r == Some(
            (p, ConflictResolution::WriteDist),
        ) || r == Some((p, ConflictResolution::KeepMine)),
{
    if let Some((q, h)) = r {
        vstd::seq_lib::lemma_seq_contains_after_push(before.take, q, p);
        vstd::seq_lib::lemma_seq_contains_after_push(before.sidecars, q, p);
        vstd::seq_lib::lemma_seq_contains_after_push(before.kept, q, p);
    }
}

/// What one change leads to: a change that discards nothing is taken, a conflict goes by the user's
/// answer and unattended by a copy beside the file, a file without a recorded base goes by the
/// policy, and the template's ignore rules come along as a file.
pub open spec fn leads_to(
    c: ChangeView,
    attended: bool,
    policy: UnknownPolicy,
    answer: ConflictResolution,
    p: Seq<char>,
    how: ConflictResolution,
) -> bool {
    let decided = if attended {
        answer
    } else {
        ConflictResolution::WriteDist
    };
    ||| c == ChangeView::SafeUpdate(p) && how is TakeTheirs
    ||| c == ChangeView::SafeAdd(p) && how is TakeTheirs
    ||| c == ChangeView::Conflict(p) && how == decided
    ||| c == ChangeView::Unknown(p) && policy is TakeTemplate && how is TakeTheirs
    ||| c == ChangeView::Unknown(p) && policy is KeepMine && how is KeepMine
    ||| c == ChangeView::Unknown(p) && policy is ReviewEach && how == decided
    ||| c is GitignoreEntries && p == ".gitignore-dist"@ && how is TakeTheirs
}

proof fn lemma_planned(
    changes: Seq<ChangeView>,
    attended: bool,
    policy: UnknownPolicy,
    answers: Seq<ConflictResolution>,
    n: nat,
    p: Seq<char>,
)
    requires
        n <= changes.len(),
        changes.len() == answers.len(),
    ensures
        ({
            let plan = update::planned(changes.take(n as int), attended, policy, answers);
            &&& forall|i: int, how: ConflictResolution|
                #![trigger changes[i], becomes(plan, p, how)]
                0 <= i < n && leads_to(changes[i], attended, policy, answers[i], p, how)
                    ==> becomes(plan, p, how)
            &&& plan.take.contains(p) ==> exists|i: int|
                #![trigger changes[i]]
                0 <= i < n && leads_to(
                    changes[i],
                    attended,
                    policy,
                    answers[i],
                    p,
                    ConflictResolution::TakeTheirs,
                )
            &&& plan.sidecars.contains(p) ==> exists|i: int|
                #![trigger changes[i]]
                0 <= i < n && leads_to(
                    changes[i],
                    attended,
                    policy,
                    answers[i],
                    p,
                    ConflictResolution::WriteDist,
                )
        }),
    decreases n,
{
    if n > 0 {
        let k = n - 1;
        let some = changes.take(n as int);
        lemma_planned(changes, attended, policy, answers, k as nat, p);
        assert(some.drop_last() =~= changes.take(k));
        let before = update::planned(changes.take(k), attended, policy, answers);
        let r = update::resolution(changes[k], attended, policy, answers[k]);
        let plan = update::planned(some, attended, policy, answers);
        assert(plan == update::with_file(before, r));
        lemma_becomes(before, r, p, ConflictResolution::TakeTheirs);
        lemma_becomes(before, r, p, ConflictResolution::KeepMine);
        lemma_becomes(before, r, p, ConflictResolution::WriteDist);
        assert forall|how: ConflictResolution|
            r == Some((p, how)) <==> #[trigger] leads_to(
                changes[k],
                attended,
                policy,
                answers[k],
                p,
                how,
            ) by {}
        assert forall|i: int, how: ConflictResolution|
            #![trigger changes[i], becomes(plan, p, how)]
            0 <= i < n && leads_to(changes[i], attended, policy, answers[i], p, how) implies becomes(
            plan,
            p,
            how,
        ) by {
            if i < k {
                assert(becomes(before, p, how));
            } else {
                assert(r == Some((p, how)));
            }
        }
        if plan.take.contains(p) && r == Some((p, ConflictResolution::TakeTheirs)) {
            assert(leads_to(
                changes[k],
                attended,
                policy,
                answers[k],
                p,
                ConflictResolution::TakeTheirs,
            ));
        }
        if plan.sidecars.contains(p) && r == Some((p, ConflictResolution::WriteDist)) {
            assert(leads_to(
                changes[k],
                attended,
                policy,
                answers[k],
                p,
                ConflictResolution::WriteDist,
            ));
        }
    }
}

/// Every change leads to what its kind asks for, and no file is overwritten or gets a copy beside it
/// without a change that asks for that.
pub proof fn the_plan_follows_the_changes(
    changes: &Vec<Change>,
    attended: bool,
    policy: UnknownPolicy,
    answers: &Vec<ConflictResolution>,
    r: ApplyPlan,
    p: Seq<char>,
)
    requires
        answers@.len() == changes@.len(),
        call_ensures(update::plan_with, (changes, attended, policy, answers), r),
    ensures
        forall|i: int, how: ConflictResolution|
            #![trigger changes@[i], becomes(r@, p, how)]
            0 <= i < changes@.len() && leads_to(
                changes@[i]@,
                attended,
                policy,
                answers@[i],
                p,
                how,
            ) ==> becomes(r@, p, how),
        r@.take.contains(p) ==> exists|i: int|
            #![trigger changes@[i]]
            0 <= i < changes@.len() && leads_to(
                changes@[i]@,
                attended,
                policy,
                answers@[i],
                p,
                ConflictResolution::TakeTheirs,
            ),
        r@.sidecars.contains(p) ==> exists|i: int|
            #![trigger changes@[i]]
            0 <= i < changes@.len() && leads_to(
                changes@[i]@,
                attended,
                policy,
                answers@[i],
                p,
                ConflictResolution::WriteDist,
            ),
{
    let v = template::changes_view(changes@);
    lemma_planned(v, attended, policy, answers@, v.len(), p);
    assert(v.take(v.len() as int) =~= v);
    assert forall|i: int, how: ConflictResolution|
        #![trigger changes@[i], becomes(r@, p, how)]
        0 <= i < changes@.len() && leads_to(
            changes@[i]@,
            attended,
            policy,
            answers@[i],
            p,
            how,
        ) implies becomes(r@, p, how) by {
        assert(v[i] == changes@[i]@);
    }
    if r@.take.contains(p) {
        let i = choose|i: int|
            #![trigger v[i]]
            0 <= i < v.len() && leads_to(
                v[i],
                attended,
                policy,
                answers@[i],
                p,
                ConflictResolution::TakeTheirs,
            );
        assert(changes@[i]@ == v[i]);
    }
    if r@.sidecars.contains(p) {
        let i = choose|i: int|
            #![trigger v[i]]
            0 <= i < v.len() && leads_to(
                v[i],
                attended,
                policy,
                answers@[i],
                p,
                ConflictResolution::WriteDist,
            );
        assert(changes@[i]@ == v[i]);
    }
}

/// A file is compared three ways. One that only the template changed is updated, one that only the
/// project changed is left alone, one that both changed differently is a conflict, and one that
/// both changed alike needs nothing. Where nothing was recorded a difference stays undecided, and
/// a file that cannot be read is never taken for unchanged or missing.
pub proof fn a_file_is_compared_three_ways(
    path: &str,
    base: Option<&str>,
    theirs: Option<&str>,
    mine: &ProjectFile,
    r: Option<Change>,
)
    requires
        call_ensures(template::classify_path, (path, base, theirs, mine), r),
    ensures
        r matches Some(c) ==> c@.path() == Some(path@),
        base is Some && theirs is Some && mine@ is Hash ==> ({
            let b = base->0@;
            let t = theirs->0@;
            let m = mine@->Hash_0;
            &&& t == b ==> r is None
            &&& t != b && m == b ==> r is Some && r->0@ is SafeUpdate
            &&& t != b && m == t ==> r is Some && r->0@ is AlreadyApplied
            &&& t != b && m != b && m != t ==> r is Some && r->0@ is Conflict
        }),
        base is None && theirs is Some && mine@ is Hash ==> ({
            let t = theirs->0@;
            let m = mine@->Hash_0;
            &&& m == t ==> r is Some && r->0@ is AlreadyApplied
            &&& m != t ==> r is Some && r->0@ is Unknown
        }),
        theirs is Some && mine@ is Unreadable ==> r is Some && r->0@ is Unknown,
        theirs is Some && mine@ is Missing ==> ({
            let t = theirs->0@;
            &&& base is Some && base->0@ == t ==> r is None
            &&& !(base is Some && base->0@ == t) ==> r is Some && r->0@ is SafeAdd
        }),
        theirs is None && mine@ is Missing ==> r is None,
        theirs is None && !(mine@ is Missing) ==> r is Some && r->0@ is RemovedUpstream,
{
}

/// The files that are taken are copied from the template to the same place in the project, and only
/// those; all of it is copied only on demand. What belongs to the running project or holds values
/// of its own is left out either way.
pub proof fn files_are_copied_into_the_project(
    template_dir: &str,
    project_dir: &str,
    files: &Vec<String>,
    some: Option<Vec<String>>,
    all: Vec<String>,
    i: int,
)
    requires
        call_ensures(update::sync_files, (template_dir, project_dir, files), some),
        call_ensures(update::sync_all, (template_dir, project_dir), all),
        0 <= i < files@.len(),
    ensures
        some is Some,
        ({
            let a = text::texts(some->0@);
            let b = text::texts(all@);
            &&& a.len() == files@.len() + 7
            &&& a[0] == "rsync"@ && b[0] == "rsync"@
            &&& a.last() == project_dir@ + "/"@
            &&& a[6 + i] == template_dir@ + "/./"@ + files@[i]@
            &&& b.last() == project_dir@ + "/"@
            &&& b[b.len() - 2] == template_dir@ + "/"@
            &&& b.len() == 8
            &&& forall|e: Seq<char>|
                e == "--exclude=/logs/"@ || e == "--exclude=/volumes/"@ || e
                    == "--exclude=/secrets/**.txt"@ || e == "--exclude=/config/htpasswd"@
                    ==> #[trigger] a.contains(e) && b.contains(e)
        }),
{
    let a = text::texts(some->0@);
    let b = text::texts(all@);
    assert(text::texts(files@)[i] == files@[i]@);
    assert(a[2] == "--exclude=/logs/"@ && b[2] == "--exclude=/logs/"@);
    assert(a[3] == "--exclude=/volumes/"@ && b[3] == "--exclude=/volumes/"@);
    assert(a[4] == "--exclude=/secrets/**.txt"@ && b[4] == "--exclude=/secrets/**.txt"@);
    assert(a[5] == "--exclude=/config/htpasswd"@ && b[5] == "--exclude=/config/htpasswd"@);
}

/// The template's version of a file is put beside the file and never over it.
pub proof fn a_copy_beside_a_file_is_another_file(project_dir: &str, path: &str, r: String)
    requires
        call_ensures(update::sidecar_target, (project_dir, path), r),
    ensures
        r@ == paths::below(project_dir@, path@ + ".dist"@),
        r@ != paths::below(project_dir@, path@),
{
    reveal_strlit(".dist");
    if path@.len() > 0 {
        assert((path@ + ".dist"@)[0] == path@[0]);
    } else {
        assert((path@ + ".dist"@)[0] == '.');
    }
    assert(r@.len() == paths::below(project_dir@, path@).len() + 5);
}

/// An update has something to do wherever it is forced or a change is worth showing; otherwise it
/// ends at once, and records the template only where the project had caught up by itself.
pub proof fn an_update_without_changes_ends_at_once(
    force: bool,
    changes: &Vec<Change>,
    r: UpdateStart,
)
    requires
        call_ensures(update::begin_update, (force, changes), r),
    ensures
        force ==> r is Plan,
        changes@.len() == 0 && !force ==> r == (UpdateStart::UpToDate { restamp: false }),
        r matches UpdateStart::UpToDate { restamp } ==> !force && (restamp <==> exists|i: int|
            0 <= i < changes@.len() && (#[trigger] changes@[i])@ is AlreadyApplied),
{
    let all = template::changes_view(changes@);
    if changes@.len() == 0 {
        assert(all =~= Seq::empty());
        template::laws::summary_is_empty_without_actionable_changes(all);
    }
    if exists|i: int| 0 <= i < changes@.len() && (#[trigger] changes@[i])@ is AlreadyApplied {
        let i = choose|i: int| 0 <= i < changes@.len() && (#[trigger] changes@[i])@ is AlreadyApplied;
        assert(all[i] is AlreadyApplied);
    }
    if exists|i: int| 0 <= i < all.len() && #[trigger] all[i] is AlreadyApplied {
        let i = choose|i: int| 0 <= i < all.len() && #[trigger] all[i] is AlreadyApplied;
        assert(changes@[i]@ == all[i]);
    }
}

/// A project is rewritten only on a clear yes: by the flag, or by a user who was asked. Without
/// either it is refused.
pub proof fn a_project_is_rewritten_on_a_yes_only(
    yes: bool,
    attended: bool,
    answer: bool,
    r: Result<bool, String>,
)
    requires
        call_ensures(update::decide_update, (yes, attended, answer), r),
    ensures
        r == Ok::<bool, String>(true) <==> yes || (attended && answer),
        r is Err <==> !yes && !attended,
{
}

/// A prompt that was left never overwrites a file.
pub proof fn a_prompt_that_was_left_keeps_the_file(
    prompt: &InteractiveConflictPrompt,
    r: ConflictReply,
    p: UnknownPolicy,
)
    requires
        call_ensures(InteractiveConflictPrompt::reply, (prompt, None::<&str>), r),
        call_ensures(InteractiveConflictPrompt::policy, (prompt, None::<&str>), p),
    ensures
        r == ConflictReply::Resolve(ConflictResolution::KeepMine),
        p is KeepMine,
{
}

/// Each entry that is offered for a conflict means what it says.
pub proof fn the_entries_mean_what_they_say(
    prompt: &InteractiveConflictPrompt,
    choice: &str,
    r: ConflictReply,
)
    requires
        call_ensures(InteractiveConflictPrompt::reply, (prompt, Some(choice)), r),
    ensures
        r == ConflictReply::Resolve(ConflictResolution::TakeTheirs) <==> choice@
            == "take the template version"@,
        r == ConflictReply::Resolve(ConflictResolution::WriteDist) <==> choice@
            == "keep mine, write the template copy as *.dist"@,
        r == ConflictReply::ShowDiff <==> choice@ == "show diff"@,
{
    reveal_strlit("keep my version");
    reveal_strlit("take the template version");
    reveal_strlit("keep mine, write the template copy as *.dist");
    reveal_strlit("show diff");
    assert("keep my version"@.len() != "take the template version"@.len());
    assert("keep my version"@.len() != "show diff"@.len());
    assert("take the template version"@.len() != "show diff"@.len());
    assert("keep mine, write the template copy as *.dist"@.len() != "show diff"@.len());
    assert("keep mine, write the template copy as *.dist"@.len()
        != "take the template version"@.len());
    assert("keep mine, write the template copy as *.dist"@.len() != "keep my version"@.len());
}

/// A backup holds everything of the project but earlier backups, the repository, the application,
/// and the data and logs of the running project.
pub proof fn a_backup_leaves_out_what_need_not_be_saved(
    name: &str,
    patterns: Vec<String>,
    r: bool,
)
    requires
        call_ensures(update::backup_excludes, (), patterns),
        call_ensures(update::is_excluded, (name, &patterns), r),
    ensures
        r <==> "backup_"@.is_prefix_of(name@) || name@ == ".git"@ || name@ == "htdocs"@ || name@
            == "logs"@ || name@ == "volumes"@,
{
    let t = text::texts(patterns@);
    assert(t.len() == patterns@.len());
    assert(t.len() == 5);
    assert(patterns@[0]@ == t[0] && patterns@[1]@ == t[1] && patterns@[2]@ == t[2] && patterns@[3]@
        == t[3] && patterns@[4]@ == t[4]);
    lemma_backup_pattern();
    reveal_strlit(".git");
    reveal_strlit("htdocs");
    reveal_strlit("logs");
    reveal_strlit("volumes");
    assert(update::excluded_by(name@, t[0]) <==> "backup_"@.is_prefix_of(name@));
    assert(!".git"@.contains('*') && !"htdocs"@.contains('*') && !"logs"@.contains('*')
        && !"volumes"@.contains('*'));
    if r {
        let i = choose|i: int|
            0 <= i < patterns@.len() && update::excluded_by(name@, #[trigger] patterns@[i]@);
        assert(i == 0 || i == 1 || i == 2 || i == 3 || i == 4);
    }
    if "backup_"@.is_prefix_of(name@) {
        assert(update::excluded_by(name@, patterns@[0]@));
    } else if name@ == ".git"@ {
        assert(update::excluded_by(name@, patterns@[1]@));
    } else if name@ == "htdocs"@ {
        assert(update::excluded_by(name@, patterns@[2]@));
    } else if name@ == "logs"@ {
        assert(update::excluded_by(name@, patterns@[3]@));
    } else if name@ == "volumes"@ {
        assert(update::excluded_by(name@, patterns@[4]@));
    }
}

proof fn lemma_backup_pattern()
    ensures
        "backup_*"@.contains('*'),
        crate::edit::replaced("backup_*"@, "*"@, ""@) == "backup_"@,
{
    reveal_strlit("backup_*");
    reveal_strlit("backup_");
    reveal_strlit("*");
    reveal_strlit("");
    let s = "backup_*"@;
    assert(s[7] == '*');
    assert(s.subrange(7, 8) =~= "*"@);
    assert(text::occurs_at(s, "*"@, 7));
    crate::edit::find_from_first(s, "*"@, 0);
    let i = crate::edit::find_from(s, "*"@, 0)->0;
    if i < 7 {
        assert(s.subrange(i, i + 1)[0] == s[i]);
    }
    assert(i == 7);
    assert(s.skip(8) =~= Seq::<char>::empty());
    reveal_with_fuel(crate::edit::replaced, 2);
    assert(crate::edit::replaced(s, "*"@, ""@) =~= "backup_"@);
}

/// The user learns of every file that was kept and of every copy beside one, and is told of a
/// success only where anything was copied.
pub proof fn every_kept_file_is_told(
    force: bool,
    plan: &ApplyPlan,
    summary: &Summary,
    r: Vec<Message>,
)
    requires
        call_ensures(update::report_outcome, (force, plan, summary), r),
    ensures
        forall|i: int|
            0 <= i < plan@.kept.len() ==> ui::said(r@).contains(
                (Level::Info, "Kept your version of "@ + (#[trigger] plan@.kept[i]) + ""@),
            ),
        force || plan@.take.len() > 0 || plan@.sidecars.len() > 0 ==> forall|i: int|
            0 <= i < plan@.sidecars.len() ==> ui::said(r@).contains(
                (Level::Info, "Wrote "@ + (#[trigger] plan@.sidecars[i]) + ".dist for manual merge"@),
            ),
        force || plan@.take.len() > 0 || plan@.sidecars.len() > 0 ==> ui::said(r@).last() == (
            Level::Success,
            "Project updated successfully."@,
        ),
{
    let s = ui::said(r@);
    let copied = force || plan@.take.len() > 0 || plan@.sidecars.len() > 0;
    let k: int = if copied {
        0
    } else {
        1
    };
    assert forall|i: int| 0 <= i < plan@.kept.len() implies s.contains(
        (Level::Info, "Kept your version of "@ + (#[trigger] plan@.kept[i]) + ""@),
    ) by {
        assert(s[k + i] == (Level::Info, "Kept your version of "@ + plan@.kept[i] + ""@));
    }
    if copied {
        assert forall|i: int| 0 <= i < plan@.sidecars.len() implies s.contains(
            (Level::Info, "Wrote "@ + (#[trigger] plan@.sidecars[i]) + ".dist for manual merge"@),
        ) by {
            assert(s[plan@.kept.len() + i] == (
                Level::Info,
                "Wrote "@ + plan@.sidecars[i] + ".dist for manual merge"@,
            ));
        }
    }
}

/// A check shows the difference of every file that can be updated, that conflicts or that cannot
/// be judged, and finds something wherever there is something.
pub proof fn a_check_shows_every_difference(summary: &Summary, r: Option<Vec<String>>, p: Seq<char>)
    requires
        call_ensures(update::report_pending, (summary,), r),
        summary@.safe.contains(p) || summary@.conflicts.contains(p) || summary@.unknown.contains(p),
    ensures
        r is Some,
        text::texts(r->0@).contains(p),
{
    let a = summary@.safe;
    let b = summary@.conflicts;
    let c = summary@.unknown;
    let v = a + b + c;
    if a.contains(p) {
        let i = choose|i: int| 0 <= i < a.len() && a[i] == p;
        assert(v[i] == p);
    } else if b.contains(p) {
        let i = choose|i: int| 0 <= i < b.len() && b[i] == p;
        assert(v[a.len() + i] == p);
    } else {
        let i = choose|i: int| 0 <= i < c.len() && c[i] == p;
        assert(v[a.len() + b.len() + i] == p);
    }
}

// ---------------------------------------------------------------- the ignore list

proof fn lemma_piece_holds(s: Seq<char>, sep: char, i: int, c: char)
    requires
        0 <= i < lines::split(s, sep).len(),
        lines::split(s, sep)[i].contains(c),
    ensures
        s.contains(c),
    decreases s.len(),
{
    let piece = lines::split(s, sep)[i];
    let k = choose|k: int| 0 <= k < piece.len() && piece[k] == c;
    if s.len() == 0 {
        assert(piece.len() == 0);
    } else {
        let w = s.drop_last();
        lines::split_pieces(w, sep);
        let before = lines::split(w, sep);
        if s.last() == sep {
            if i < before.len() {
                lemma_piece_holds(w, sep, i, c);
                let j = choose|j: int| 0 <= j < w.len() && w[j] == c;
                assert(s[j] == c);
            }
        } else if i < before.len() - 1 {
            lemma_piece_holds(w, sep, i, c);
            let j = choose|j: int| 0 <= j < w.len() && w[j] == c;
            assert(s[j] == c);
        } else {
            if k < before.last().len() {
                assert(before.last()[k] == c);
                lemma_piece_holds(w, sep, before.len() - 1, c);
                let j = choose|j: int| 0 <= j < w.len() && w[j] == c;
                assert(s[j] == c);
            } else {
                assert(s[s.len() - 1] == c);
            }
        }
    }
}

/// The lines of a text without carriage returns are its pieces between line feeds, but for an empty
/// last one.
proof fn lemma_plain_lines(s: Seq<char>, l: Seq<char>)
    requires
        !s.contains('\r'),
    ensures
        l.len() > 0 ==> (lines::lines(s).contains(l) <==> lines::split(s, '\n').contains(l)),
        lines::split(s, '\n').map_values(|p: Seq<char>| lines::strip_cr(p)) == lines::split(s, '\n'),
        lines::lines(s).contains(l) ==> !l.contains('\n') && !l.contains('\r'),
{
    let pieces = lines::split(s, '\n');
    lines::split_pieces(s, '\n');
    assert forall|i: int| 0 <= i < pieces.len() implies lines::strip_cr(#[trigger] pieces[i])
        == pieces[i] by {
        if pieces[i].len() > 0 && pieces[i].last() == '\r' {
            assert(pieces[i].contains('\r'));
            lemma_piece_holds(s, '\n', i, '\r');
        }
    }
    assert(pieces.map_values(|p: Seq<char>| lines::strip_cr(p)) =~= pieces);
    let ended = pieces.drop_last().map_values(|p: Seq<char>| lines::strip_cr(p));
    assert(ended =~= pieces.drop_last());
    let all = lines::lines(s);
    if pieces.last().len() == 0 {
        assert(all =~= pieces.drop_last());
    } else {
        assert(all =~= pieces);
    }
    if all.contains(l) {
        let i = choose|i: int| 0 <= i < all.len() && all[i] == l;
        assert(pieces[i] == l);
        if l.contains('\r') {
            lemma_piece_holds(s, '\n', i, '\r');
        }
    }
    if l.len() > 0 && pieces.contains(l) {
        let i = choose|i: int| 0 <= i < pieces.len() && pieces[i] == l;
        assert(all[i] == l);
    }
}

proof fn lemma_kept(pieces: Seq<Seq<char>>, s: Seq<char>)
    ensures
        lines::filled(pieces).contains(s) <==> pieces.contains(s) && s.len() > 0,
    decreases pieces.len(),
{
    if pieces.len() > 0 {
        let w = pieces.drop_last();
        lemma_kept(w, s);
        vstd::seq_lib::lemma_seq_contains_after_push(w, pieces.last(), s);
        assert(w.push(pieces.last()) =~= pieces);
        vstd::seq_lib::lemma_seq_contains_after_push(lines::filled(w), pieces.last(), s);
    }
}

/// Every rule of the project and every rule of the template is in the ignore list that comes of
/// both, once, and no other rule is.
pub proof fn no_rule_is_lost(content: &str, dist: &str, r: String, rule: Seq<char>)
    requires
        call_ensures(update::merge_gitignore, (content, dist), r),
        !content@.contains('\r'),
        !dist@.contains('\r'),
    ensures
        lines::lines(r@).contains(rule) <==> rule.len() > 0 && (lines::lines(content@).contains(
            rule,
        ) || lines::lines(dist@).contains(rule)),
        lines::lines(r@).no_duplicates(),
{
    reveal_strlit("\n");
    assert("\n"@ =~= seq!['\n']);
    let both = lines::lines(content@ + "\n"@ + dist@);
    lines::lines_of_both(content@, dist@);
    lemma_plain_lines(content@, rule);
    lemma_plain_lines(dist@, rule);
    assert(both == lines::split(content@, '\n') + lines::lines(dist@));
    let kept = lines::filled(both);
    order::in_order_sorts(kept);
    order::dedup_of_sorted(order::in_order(kept));
    let u = order::deduped(order::in_order(kept));
    assert forall|x: Seq<char>| #[trigger] u.contains(x) <==> x.len() > 0 && (lines::lines(
        content@,
    ).contains(x) || lines::lines(dist@).contains(x)) by {
        assert(order::in_order(kept).contains(x) <==> kept.contains(x));
        lemma_kept(both, x);
        lemma_plain_lines(content@, x);
        let p = lines::split(content@, '\n');
        let q = lines::lines(dist@);
        if both.contains(x) {
            let i = choose|i: int| 0 <= i < both.len() && both[i] == x;
            if i < p.len() {
                assert(p[i] == x);
            } else {
                assert(q[i - p.len()] == x);
            }
        }
        if p.contains(x) {
            let i = choose|i: int| 0 <= i < p.len() && p[i] == x;
            assert(both[i] == x);
        }
        if q.contains(x) {
            let i = choose|i: int| 0 <= i < q.len() && q[i] == x;
            assert(both[p.len() + i] == x);
        }
    }
    assert forall|i: int| 0 <= i < u.len() implies (#[trigger] u[i]).len() > 0 && !u[i].contains(
        '\n',
    ) && !u[i].contains('\r') by {
        assert(u.contains(u[i]));
        lemma_plain_lines(content@, u[i]);
        lemma_plain_lines(dist@, u[i]);
    }
    lemma_lines_of_joined(u, r@);
    assert forall|i: int, j: int| 0 <= i < u.len() && 0 <= j < u.len() && i != j implies u[i]
        != u[j] by {
        if i < j {
            assert(order::before(u[i], u[j]));
        } else {
            assert(order::before(u[j], u[i]));
        }
        order::before_irreflexive(u[i]);
    }
}

proof fn lemma_lines_of_joined(u: Seq<Seq<char>>, s: Seq<char>)
    requires
        s == lines::joined(u, seq!['\n']),
        forall|i: int|
            0 <= i < u.len() ==> (#[trigger] u[i]).len() > 0 && !u[i].contains('\n')
                && !u[i].contains('\r'),
    ensures
        lines::lines(s) == u,
{
    if u.len() == 0 {
        lines::split_of_one(s, '\n');
        assert(lines::split(s, '\n').drop_last() =~= Seq::<Seq<char>>::empty());
        assert(lines::lines(s) =~= u);
    } else {
        lines::split_undoes_join(u, '\n');
        let ended = u.drop_last().map_values(|p: Seq<char>| lines::strip_cr(p));
        assert forall|i: int| 0 <= i < u.len() implies lines::strip_cr(#[trigger] u[i]) == u[i] by {
            if u[i].last() == '\r' {
                assert(u[i][u[i].len() - 1] == '\r');
            }
        }
        assert(ended =~= u.drop_last());
        assert(u[u.len() - 1].len() > 0);
        assert(ended.push(u.last()) =~= u);
    }
}

// ---------------------------------------------------------------- backups

/// A backup is found again by the cleanup, with the moment at which it was made.
pub proof fn a_backup_is_named_after_its_moment(
    now: u64,
    name: String,
    dirs: &Vec<String>,
    found: Vec<Backup>,
)
    requires
        call_ensures(update::backup_name, (now,), name),
        text::texts(dirs@) == seq![name@],
        call_ensures(cleanup_backups::find_backups, (dirs,), found),
    ensures
        found@.len() == 1,
        found@[0].name@ == name@,
        found@[0].timestamp == now,
{
    cleanup_backups::a_backup_is_found_again(now);
    let d = seq![name@];
    reveal_with_fuel(cleanup_backups::found, 2);
    assert(d.drop_last() =~= Seq::<Seq<char>>::empty());
    let b = cleanup_backups::backups(found@);
    assert(b =~= seq![(name@, now)]);
    assert(b.len() == found@.len());
    assert(b[0] == (found@[0].name@, found@[0].timestamp));
}

/// An update leaves every file alone exactly where nothing was taken, nothing was put beside a file
/// and the template was not asked for as a whole.
pub proof fn files_are_left_alone_where_nothing_was_taken(
    force: bool,
    plan: &ApplyPlan,
    noop: bool,
    r: bool,
)
    requires
        call_ensures(ApplyPlan::is_noop, (plan,), noop),
        call_ensures(update::keeps_every_file, (force, plan), r),
    ensures
        noop <==> plan@.take.len() == 0 && plan@.sidecars.len() == 0,
        r <==> !force && noop,
{
}

/// An update that copies something does each thing once: it stops a project that runs, saves it,
/// copies what was planned, and looks at the build file last; then it rebuilds where that changed,
/// merges the ignore list, records the template, and starts what it stopped.
pub proof fn nothing_is_done_twice(
    force: bool,
    plan: &ApplyPlan,
    changed: bool,
    running: bool,
    first: Vec<UpdateAction>,
    last: Vec<UpdateAction>,
)
    requires
        call_ensures(update::apply_template_update, (force, plan, running), first),
        call_ensures(update::finish_template_update, (force, plan, changed, running), last),
        force || plan@.take.len() > 0 || plan@.sidecars.len() > 0,
    ensures
        ({
            let a = update::actions_view(first@);
            let b = update::actions_view(last@);
            let stop: int = if running {
                1
            } else {
                0
            };
            let taken: int = if plan@.take.len() > 0 {
                1
            } else {
                0
            };
            &&& a.len() == stop + 1 + (if force {
                1
            } else {
                taken + plan@.sidecars.len()
            }) + 1
            &&& a.last() is RefreshDockerfile
            &&& a[stop] is Backup
            &&& running ==> a[0] is StopProject
            &&& forall|i: int| stop < i < a.len() - 1 ==> copies(#[trigger] a[i])
            &&& b.len() == (if changed {
                1int
            } else {
                0
            }) + 2 + stop
        }),
{
    let a = update::actions_view(first@);
    let b = update::actions_view(last@);
    let side = plan@.sidecars.map_values(|p: Seq<char>| ActionView::WriteSidecar(p));
    assert(side.len() == plan@.sidecars.len());
    let stop: int = if running {
        1
    } else {
        0
    };
    let taken: int = if plan@.take.len() > 0 {
        1
    } else {
        0
    };
    assert forall|i: int| stop < i < a.len() - 1 implies copies(#[trigger] a[i]) by {
        if !force && i > stop + taken {
            assert(a[i] == side[i - stop - 1 - taken]);
        }
    }
}

} // verus!
