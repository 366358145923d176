//! What holds of a merge as a whole.
use vstd::prelude::*;

use crate::commands::merge;
use crate::commands::merge::{
    MergeEnd, MergePlan, Pick, PickEvent, PickEventView, PushOutcome,
};
use crate::git;
use crate::lines;
use crate::paths;
use crate::text;
use crate::ui;
use crate::ui::{Level, Message};

verus! {

/// The local merge branch goes only once it is on the remote; otherwise it is left with its
/// worktree, and a push that failed is reported as an error.
pub proof fn an_unpushed_branch_is_left(
    outcome: &PushOutcome,
    branch: &str,
    primary: &str,
    worktree: &str,
    r: MergeEnd,
)
    requires
        call_ensures(merge::finish, (outcome, branch, primary, worktree), r),
    ensures
        r.delete_branch <==> *outcome is Pushed,
        r.keep_worktree <==> !(*outcome is Pushed),
        r.error is Some <==> *outcome is Failed,
{
}

/// The commits are carried over one by one from the first to the last: one that went through leads
/// to the next, and the last one to the end. One that did not is put to the user.
pub proof fn commits_are_carried_over_one_by_one(
    i: usize,
    event: &PickEvent,
    count: usize,
    first: Pick,
    r: Pick,
)
    requires
        i < count,
        call_ensures(merge::first_state, (count,), first),
        call_ensures(merge::next, (Pick::Ready(i), event, count), r),
    ensures
        first == Pick::Ready(0),
        event@ is Succeeded && i + 1 < count ==> r == Pick::Ready((i + 1) as usize),
        event@ is Succeeded && i + 1 == count ==> r == Pick::Done,
        event@ is Failed ==> r == Pick::Asking(i),
{
}

/// Without commits there is nothing to carry over.
pub proof fn nothing_is_carried_over_without_commits(first: Pick)
    requires
        call_ensures(merge::first_state, (0usize,), first),
    ensures
        first is Done,
{
}

/// On a conflict the user decides, as often as it takes: the merge tool leads back to the question,
/// a conflict that is said to be resolved is looked at first, a commit that cannot be completed
/// leads back as well, and any other answer gives the merge up. Only a completed commit leads on.
pub proof fn a_conflict_stays_until_it_is_resolved(
    i: usize,
    event: &PickEvent,
    count: usize,
    asked: Pick,
    tooled: Pick,
    checked: Pick,
    continued: Pick,
)
    requires
        i < count,
        call_ensures(merge::next, (Pick::Asking(i), event, count), asked),
        call_ensures(merge::next, (Pick::Tool(i), event, count), tooled),
        call_ensures(merge::next, (Pick::Checking(i), event, count), checked),
        call_ensures(merge::next, (Pick::Continuing(i), event, count), continued),
    ensures
        event@ == PickEventView::Chose("Start merge tool"@) ==> asked == Pick::Tool(i),
        event@ == PickEventView::Chose("I have resolved it"@) ==> asked == Pick::Checking(i),
        event@ is Chose && event@ != PickEventView::Chose("Start merge tool"@) && event@
            != PickEventView::Chose("I have resolved it"@) ==> asked == Pick::Aborted,
        event@ is Succeeded || event@ is Failed ==> tooled == Pick::Asking(i),
        event@ matches PickEventView::Status(s) ==> checked == (if merge::has_conflicts(s) {
            Pick::Asking(i)
        } else {
            Pick::Continuing(i)
        }),
        event@ is Failed ==> continued == Pick::Asking(i),
        event@ is Succeeded ==> continued == (if i + 1 < count {
            Pick::Ready((i + 1) as usize)
        } else {
            Pick::Done
        }),
{
    reveal_strlit("Start merge tool");
    reveal_strlit("I have resolved it");
    assert("Start merge tool"@[0] != "I have resolved it"@[0]);
}

/// A merge that is over, done or given up, stays so.
pub proof fn a_merge_that_is_over_stays_so(
    state: Pick,
    event: &PickEvent,
    count: usize,
    r: Pick,
)
    requires
        state is Done || state is Aborted,
        call_ensures(merge::next, (state, event, count), r),
    ensures
        r == state,
{
}

/// All calls are made in the worktree of the merge. A commit is carried over by its own hash, one
/// in conflict is completed and not carried over anew, and the work is called off only where the
/// merge was given up.
pub proof fn each_state_calls_for_its_own_step(
    state: Pick,
    worktree: &str,
    hash: &str,
    r: Option<Vec<String>>,
)
    requires
        call_ensures(merge::git_call, (state, worktree, hash), r),
    ensures
        r matches Some(a) ==> text::texts(a@).len() > 2 && text::texts(a@)[0] == "-C"@
            && text::texts(a@)[1] == worktree@,
        state is Ready ==> r is Some && text::texts(r->0@).skip(2) == seq!["cherry-pick"@, hash@],
        state is Continuing ==> r is Some && text::texts(r->0@).skip(2) == seq![
            "cherry-pick"@,
            "--continue"@,
        ],
        state is Aborted ==> r is Some && text::texts(r->0@).skip(2) == seq![
            "cherry-pick"@,
            "--abort"@,
        ],
        state is Tool ==> r is Some && text::texts(r->0@).skip(2) == seq!["mergetool"@],
        state is Checking ==> r is Some && text::texts(r->0@).skip(2) == seq![
            "status"@,
            "--porcelain"@,
        ],
        state is Asking || state is Done ==> r is None,
{
    if let Some(a) = r {
        let v = text::texts(a@);
        assert(v.skip(2) =~= v.subrange(2, v.len() as int));
    }
}

/// A file that both sides changed, added or removed is a conflict, whatever else the status shows,
/// and a status that names no such file shows none.
pub proof fn a_conflict_is_seen(before: Seq<char>, file: Seq<char>, behind: Seq<char>)
    ensures
        merge::has_conflicts(before + ("UU "@ + file) + behind),
        merge::has_conflicts(before + ("AA "@ + file) + behind),
        merge::has_conflicts(before + ("DD "@ + file) + behind),
        !behind.contains('U') && !behind.contains('A') && !behind.contains('D')
            ==> !merge::has_conflicts(behind),
{
    reveal_strlit("UU");
    reveal_strlit("AA");
    reveal_strlit("DD");
    reveal_strlit("UU ");
    reveal_strlit("AA ");
    reveal_strlit("DD ");
    let n = before.len() as int;
    assert((before + ("UU "@ + file) + behind).subrange(n, n + 2) =~= "UU"@);
    assert((before + ("AA "@ + file) + behind).subrange(n, n + 2) =~= "AA"@);
    assert((before + ("DD "@ + file) + behind).subrange(n, n + 2) =~= "DD"@);
    assert(text::occurs_at(before + ("UU "@ + file) + behind, "UU"@, n));
    assert(text::occurs_at(before + ("AA "@ + file) + behind, "AA"@, n));
    assert(text::occurs_at(before + ("DD "@ + file) + behind, "DD"@, n));
    if !behind.contains('U') && !behind.contains('A') && !behind.contains('D') {
        assert forall|i: int| !text::occurs_at(behind, "UU"@, i) && !text::occurs_at(
            behind,
            "AA"@,
            i,
        ) && !text::occurs_at(behind, "DD"@, i) by {
            if 0 <= i && i + 2 <= behind.len() {
                assert(behind.subrange(i, i + 2)[0] == behind[i]);
            }
        }
    }
}

proof fn lemma_conflict_files(all: Seq<Seq<char>>, f: (Level, Seq<char>))
    ensures
        merge::conflict_files(all).contains(f) <==> exists|i: int|
            0 <= i < all.len() && ("UU"@.is_prefix_of(#[trigger] all[i]) || "AA"@.is_prefix_of(
                all[i],
            ) || "DD"@.is_prefix_of(all[i])) && f == (Level::Info, "  • "@ + all[i].skip(3)),
    decreases all.len(),
{
    if all.len() > 0 {
        let w = all.drop_last();
        lemma_conflict_files(w, f);
        vstd::seq_lib::lemma_seq_contains_after_push(
            merge::conflict_files(w),
            (Level::Info, "  • "@ + all.last().skip(3)),
            f,
        );
        if exists|i: int|
            0 <= i < w.len() && ("UU"@.is_prefix_of(#[trigger] w[i]) || "AA"@.is_prefix_of(w[i])
                || "DD"@.is_prefix_of(w[i])) && f == (Level::Info, "  • "@ + w[i].skip(3)) {
            let i = choose|i: int|
                0 <= i < w.len() && ("UU"@.is_prefix_of(#[trigger] w[i]) || "AA"@.is_prefix_of(w[i])
                    || "DD"@.is_prefix_of(w[i])) && f == (Level::Info, "  • "@ + w[i].skip(3));
            assert(all[i] == w[i]);
        }
        if exists|i: int|
            0 <= i < all.len() && ("UU"@.is_prefix_of(#[trigger] all[i]) || "AA"@.is_prefix_of(
                all[i],
            ) || "DD"@.is_prefix_of(all[i])) && f == (Level::Info, "  • "@ + all[i].skip(3)) {
            let i = choose|i: int|
                0 <= i < all.len() && ("UU"@.is_prefix_of(#[trigger] all[i]) || "AA"@.is_prefix_of(
                    all[i],
                ) || "DD"@.is_prefix_of(all[i])) && f == (Level::Info, "  • "@ + all[i].skip(3));
            if i < w.len() {
                assert(all[i] == w[i]);
            }
        }
        assert(all[all.len() - 1] == all.last());
    }
}

/// Every file that is still in conflict is named to the user, and no other.
pub proof fn every_conflict_is_named(status: &str, r: Vec<Message>, f: Seq<char>)
    requires
        call_ensures(merge::list_conflicts, (status,), r),
    ensures
        ({
            let all = lines::lines(status@);
            ui::said(r@).skip(1).contains((Level::Info, "  • "@ + f)) <==> exists|i: int|
                0 <= i < all.len() && ("UU"@.is_prefix_of(#[trigger] all[i]) || "AA"@.is_prefix_of(
                    all[i],
                ) || "DD"@.is_prefix_of(all[i])) && "  • "@ + all[i].skip(3) == "  • "@ + f
        }),
{
    lemma_conflict_files(lines::lines(status@), (Level::Info, "  • "@ + f));
    assert(ui::said(r@).skip(1) =~= merge::conflict_files(lines::lines(status@)));
}

/// A merge works on a branch of its own, which is not there yet, from where the remote's main
/// branch stands; its two worktrees lie below the directory of the releases, and are two.
pub proof fn a_merge_works_on_a_branch_of_its_own(
    project_dir: &str,
    module: Option<&str>,
    release: &str,
    primary: &str,
    there: bool,
    r: Result<MergePlan, String>,
)
    requires
        call_ensures(merge::execute, (project_dir, module, release, primary, there), r),
    ensures
        r is Err <==> there,
        r matches Ok(p) ==> {
            &&& p.merge_branch@ == release@ + "-merge"@
            &&& p.merge_branch@ != release@
            &&& p.start@ == "origin/"@ + primary@
            &&& p.release_worktree@ == paths::below(p.worktree_base@, release@)
            &&& p.merge_worktree@ == paths::below(p.worktree_base@, p.merge_branch@)
            &&& p.merge_worktree@ != p.release_worktree@
            &&& module is None ==> p.worktree_base@ == paths::below(project_dir@, "releases"@)
            &&& module matches Some(m) ==> p.worktree_base@ == paths::below(
                paths::below(project_dir@, "releases/vendor"@),
                m@,
            )
        },
{
    reveal_strlit("-merge");
    if let Ok(p) = r {
        assert(p.merge_branch@.len() == release@.len() + 6);
        if release@.len() > 0 {
            assert(p.merge_branch@[0] == release@[0]);
        } else {
            assert(p.merge_branch@[0] == '-');
        }
        assert(p.merge_worktree@.len() == p.release_worktree@.len() + 6);
    }
}

/// A merge is made in the repository of the module, or of the project where none is given, and
/// only where that is a repository.
pub proof fn a_merge_is_made_in_its_repository(
    project_dir: &str,
    module: Option<&str>,
    existing: &Vec<String>,
    r: Result<String, String>,
)
    requires
        call_ensures(merge::find_repository, (project_dir, module, existing), r),
    ensures
        r matches Ok(p) ==> {
            &&& text::texts(existing@).contains(p@)
            &&& text::texts(existing@).contains(paths::below(p@, ".git"@))
            &&& module is None ==> p@ == paths::below(project_dir@, "htdocs"@)
            &&& module matches Some(m) ==> p@ == paths::below(
                paths::below(project_dir@, "htdocs/vendor"@),
                m@,
            )
        },
{
}

/// The project itself stands first among what can be merged, each module behind it, and the answer
/// for the project names no module.
pub proof fn the_project_can_be_merged_itself(
    modules: &Vec<String>,
    answer: String,
    offered: Vec<String>,
    chosen: Option<String>,
)
    requires
        call_ensures(merge::module_choices, (modules,), offered),
        call_ensures(merge::chosen_module, (answer,), chosen),
    ensures
        text::texts(offered@).len() == modules@.len() + 1,
        text::texts(offered@)[0] == "Main Project"@,
        forall|i: int|
            0 <= i < modules@.len() ==> text::texts(offered@)[i + 1] == (#[trigger] modules@[i])@,
        chosen is None <==> answer@ == "Main Project"@,
        chosen matches Some(m) ==> m@ == answer@,
{
}

/// Every commit is shown by the beginning of its hash and by what it is about, in the order in
/// which they are carried over.
pub proof fn every_commit_is_shown(
    all: &Vec<(String, String)>,
    branch: &str,
    r: Vec<Message>,
    i: int,
)
    requires
        call_ensures(merge::show_commits, (all, branch), r),
        0 <= i < all@.len(),
    ensures
        ui::said(r@).len() == all@.len() + 1,
        ui::said(r@)[i + 1] == (Level::Info, "  • "@ + all@[i].0@.take(8) + " - "@ + all@[i].1@),
{
    assert(git::commits(all@)[i] == (all@[i].0@, all@[i].1@));
}

/// The worktrees of a merge are removed unless they are to be kept.
pub proof fn worktrees_are_kept_on_demand_only(keep: bool, r: git::CleanupMode)
    requires
        call_ensures(merge::cleanup_mode, (keep,), r),
    ensures
        r == git::CleanupMode::Keep <==> keep,
{
}

/// A status with a conflict is told from one without.
pub proof fn a_status_shows_its_conflicts(
    status: &str,
    before: Seq<char>,
    file: Seq<char>,
    behind: Seq<char>,
    r: bool,
)
    requires
        call_ensures(merge::shows_conflicts, (status,), r),
    ensures
        status@ == before + ("UU "@ + file) + behind ==> r,
        status@ == before + ("AA "@ + file) + behind ==> r,
        status@ == before + ("DD "@ + file) + behind ==> r,
        !status@.contains('U') && !status@.contains('A') && !status@.contains('D') ==> !r,
{
    a_conflict_is_seen(before, file, behind);
    a_conflict_is_seen(before, file, status@);
}

/// A hash is shown by its beginning.
pub proof fn a_hash_is_shown_by_its_beginning(hash: &str, r: String)
    requires
        merge::is_hash(hash@),
        call_ensures(merge::short_hash, (hash,), r),
    ensures
        r@.len() == 8,
        r@.is_prefix_of(hash@),
{
    assert(hash@.subrange(0, 8) =~= r@);
}

/// There has to be a branch to merge, and those that there are are offered as they are.
pub proof fn every_branch_is_offered(branches: Vec<String>, r: Result<Vec<String>, String>)
    requires
        call_ensures(merge::offer_branches, (branches,), r),
    ensures
        r is Ok <==> branches@.len() > 0,
        r matches Ok(v) ==> v@ == branches@,
{
}

/// What was pushed is told with the branch it comes from and the one it is for; what was not pushed
/// is told with where it is left.
pub proof fn what_is_left_is_told(
    outcome: &PushOutcome,
    branch: &str,
    primary: &str,
    worktree: &str,
    r: MergeEnd,
)
    requires
        call_ensures(merge::finish, (outcome, branch, primary, worktree), r),
    ensures
        ({
            let said = ui::said(r.messages@);
            &&& *outcome is Pushed ==> said.contains((Level::Info, "Source branch: "@ + branch@))
                && said.contains((Level::Info, "Target branch: "@ + primary@))
            &&& !(*outcome is Pushed) ==> said.contains(
                (Level::Info, "  - Merge branch: "@ + branch@),
            ) && said.contains(
                (Level::Info, "  - Worktree location: "@ + text::shown(worktree@)),
            )
            &&& *outcome matches PushOutcome::Failed(e) ==> said.contains(
                (Level::Critical, "Failed to push merge branch to remote repository: "@ + e@),
            )
        }),
{
    let said = ui::said(r.messages@);
    match *outcome {
        PushOutcome::Pushed => {
            assert(said[3] == (Level::Info, "Source branch: "@ + branch@));
            assert(said[4] == (Level::Info, "Target branch: "@ + primary@));
        },
        PushOutcome::Declined => {
            assert(said[1] == (Level::Info, "  - Merge branch: "@ + branch@));
            assert(said[2] == (Level::Info, "  - Worktree location: "@ + text::shown(worktree@)));
        },
        PushOutcome::Failed(e) => {
            assert(said[0] == (
                Level::Critical,
                "Failed to push merge branch to remote repository: "@ + e@,
            ));
            assert(said[2] == (Level::Info, "  - Merge branch: "@ + branch@));
            assert(said[3] == (Level::Info, "  - Worktree location: "@ + text::shown(worktree@)));
        },
    }
}

} // verus!
