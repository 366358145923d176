//! Bringing the changes of a release branch back to the main branch.
use vstd::prelude::*;

use crate::git;
use crate::lines;
use crate::lines::lines_of;
use crate::number;
use crate::paths;
use crate::text;
use crate::text::{contains, is_listed, push_text, same, starts_with};
use crate::ui;
use crate::ui::{Level, Message};

verus! {

// ---------------------------------------------------------------- questions

/// Asks for the decisions of a merge.
pub trait MergePromptProvider {
    fn select_module(&self, modules: Vec<String>) -> Result<String, String>;

    fn select_release_branch(&self, branches: Vec<String>) -> Result<String, String>;

    fn confirm_cherry_pick(&self, count: usize) -> Result<bool, String>;

    fn select_conflict_resolution(&self) -> Result<String, String>;

    fn confirm_push(&self, branch: &str) -> Result<bool, String>;
}

/// The questions as a terminal puts them.
pub struct InteractiveMergePromptProvider;

impl InteractiveMergePromptProvider {
    /// The question for the repository.
    pub fn module_question(&self) -> (r: String)
        ensures
            r@ == "Select project or vendor module to merge"@,
    {
        text::owned("Select project or vendor module to merge")
    }

    /// The question for the branch.
    pub fn branch_question(&self) -> (r: String)
        ensures
            r@ == "Select release branch to merge"@,
    {
        text::owned("Select release branch to merge")
    }

    /// The question before the commits are carried over. Its preset answer is yes.
    pub fn cherry_pick_question(&self, count: usize) -> (r: String)
        ensures
            r@ == "Proceed with cherry-picking these "@ + number::decimal(count as nat)
                + " commits?"@,
    {
        let mut r = text::owned("Proceed with cherry-picking these ");
        r.append(number::to_decimal(count as u64).as_str());
        r.append(" commits?");
        r
    }

    /// The question on a conflict.
    pub fn conflict_question(&self) -> (r: String)
        ensures
            r@ == "Conflict resolution"@,
    {
        text::owned("Conflict resolution")
    }

    /// The answers on a conflict.
    pub fn conflict_choices(&self) -> (r: Vec<String>)
        ensures
            text::texts(r@) == seq!["Start merge tool"@, "I have resolved it"@, "Abort"@],
    {
        let mut r = text::no_texts();
        push_text(&mut r, "Start merge tool");
        push_text(&mut r, "I have resolved it");
        push_text(&mut r, "Abort");
        assert(text::texts(r@) =~= seq!["Start merge tool"@, "I have resolved it"@, "Abort"@]);
        r
    }

    /// The question before the branch is pushed. Its preset answer is yes.
    pub fn push_question(&self, branch: &str) -> (r: String)
        ensures
            r@ == "Push merge branch "@ + branch@ + " to remote?"@,
    {
        let mut r = text::owned("Push merge branch ");
        r.append(branch);
        r.append(" to remote?");
        r
    }
}

/// How a merge asks, and whether it leaves its worktrees.
pub struct MergeOptions<P: MergePromptProvider> {
    pub prompt_provider: P,
    pub keep_worktree: bool,
}

// ---------------------------------------------------------------- the repository

/// What the user chooses from: the project itself and its modules.
pub open spec fn choices(modules: Seq<Seq<char>>) -> Seq<Seq<char>> {
    seq!["Main Project"@] + modules
}

/// What the user chooses from: the project itself and its modules.
pub fn module_choices(modules: &Vec<String>) -> (r: Vec<String>)
    ensures
        text::texts(r@) == choices(text::texts(modules@)),
{
    let mut r = text::no_texts();
    push_text(&mut r, "Main Project");
    text::push_all(&mut r, modules);
    assert(text::texts(r@) =~= choices(text::texts(modules@)));
    r
}

/// The module that an answer names; none for the project itself.
pub open spec fn module_of(answer: Seq<char>) -> Option<Seq<char>> {
    if answer == "Main Project"@ {
        None
    } else {
        Some(answer)
    }
}

/// The module that an answer names; none for the project itself.
pub fn chosen_module(answer: String) -> (r: Option<String>)
    ensures
        paths::opt(r) == module_of(answer@),
{
    if same(answer.as_str(), "Main Project") {
        None
    } else {
        Some(answer)
    }
}

/// What the user's answer makes of the choice of a module.
pub open spec fn module_answered<P: MergePromptProvider>(
    prompt: &P,
    modules: Seq<Seq<char>>,
    r: Result<Option<String>, String>,
) -> bool {
    exists|offered: Vec<String>, c: Result<String, String>|
        #![trigger call_ensures(P::select_module, (prompt, offered), c)]
        text::texts(offered@) == choices(modules) && call_ensures(
            P::select_module,
            (prompt, offered),
            c,
        ) && (match c {
            Ok(s) => r matches Ok(o) && paths::opt(o) == module_of(s@),
            Err(e) => r == Err::<Option<String>, String>(e),
        })
}

/// The module that is merged: the given one, or the one that the user chooses where there are
/// modules to choose from, or else the project itself.
pub fn resolve_module<P: MergePromptProvider>(
    module: Option<String>,
    modules: &Vec<String>,
    prompt: &P,
) -> (r: Result<Option<String>, String>)
    ensures
        module is Some ==> r == Ok::<Option<String>, String>(module),
        module is None && modules@.len() == 0 ==> r == Ok::<Option<String>, String>(None),
        module is None && modules@.len() > 0 ==> module_answered(
            prompt,
            text::texts(modules@),
            r,
        ),
{
    if module.is_some() {
        return Ok(module);
    }
    if modules.len() == 0 {
        return Ok(None);
    }
    let offered = module_choices(modules);
    let ghost given = offered;
    match prompt.select_module(offered) {
        Ok(s) => {
            let ghost answer = Ok::<String, String>(s);
            assert(call_ensures(P::select_module, (prompt, given), answer));
            Ok(chosen_module(s))
        },
        Err(e) => {
            let ghost answer = Err::<String, String>(e);
            assert(call_ensures(P::select_module, (prompt, given), answer));
            Err(e)
        },
    }
}

/// The repository of a module, or of the project itself.
pub open spec fn repository(project_dir: Seq<char>, module: Option<Seq<char>>) -> Seq<char> {
    match module {
        Some(m) => paths::below(paths::below(project_dir, "htdocs/vendor"@), m),
        None => paths::below(project_dir, "htdocs"@),
    }
}

/// The repository of a module, or of the project itself. It has to be there, and to be one.
pub fn find_repository(
    project_dir: &str,
    module: Option<&str>,
    existing: &Vec<String>,
) -> (r: Result<String, String>)
    ensures
        ({
            let path = repository(project_dir@, crate::docker::opt_str(module));
            let there = text::texts(existing@);
            if !there.contains(path) {
                r matches Err(e) && e@ == "Git directory not found: "@ + text::shown(path)
            } else if !there.contains(paths::below(path, ".git"@)) {
                r matches Err(e) && e@ == text::shown(path) + " is not a git repository"@
            } else {
                r matches Ok(p) && p@ == path
            }
        }),
{
    let path = match module {
        Some(m) => paths::join(paths::join(project_dir, "htdocs/vendor").as_str(), m),
        None => paths::join(project_dir, "htdocs"),
    };
    if !is_listed(existing, path.as_str()) {
        let mut e = text::owned("Git directory not found: ");
        e.append(text::quoted(path.as_str()).as_str());
        return Err(e);
    }
    if !is_listed(existing, paths::join(path.as_str(), ".git").as_str()) {
        let mut e = text::quoted(path.as_str());
        e.append(" is not a git repository");
        return Err(e);
    }
    Ok(path)
}

/// The branches to choose from; there has to be one.
pub fn offer_branches(branches: Vec<String>) -> (r: Result<Vec<String>, String>)
    ensures
        branches@.len() > 0 ==> r == Ok::<Vec<String>, String>(branches),
        branches@.len() == 0 ==> (r matches Err(e) && e@ == "No release branches found to merge."@),
{
    if branches.len() == 0 {
        Err(text::owned("No release branches found to merge."))
    } else {
        Ok(branches)
    }
}

// ---------------------------------------------------------------- the plan

/// The names of a merge: its branch and its worktrees.
#[derive(Debug, Clone, PartialEq, Eq)]
pub struct MergePlan {
    pub merge_branch: String,
    pub worktree_base: String,
    pub release_worktree: String,
    pub merge_worktree: String,
    /// What the merge branch starts from.
    pub start: String,
}

/// Where the worktrees of a repository lie.
pub open spec fn worktrees(project_dir: Seq<char>, module: Option<Seq<char>>) -> Seq<char> {
    match module {
        Some(m) => paths::below(paths::below(project_dir, "releases/vendor"@), m),
        None => paths::below(project_dir, "releases"@),
    }
}

/// Names the branch and the worktrees of a merge. A branch of that name must not be there yet.
pub fn execute(
    project_dir: &str,
    module: Option<&str>,
    release_branch: &str,
    primary_branch: &str,
    branch_exists: bool,
) -> (r: Result<MergePlan, String>)
    ensures
        branch_exists ==> (r matches Err(e) && e@ == "Merge branch '"@ + (release_branch@
            + "-merge"@) + "' already exists! Please resolve this before proceeding."@),
        !branch_exists ==> (r matches Ok(p) && {
            let base = worktrees(project_dir@, crate::docker::opt_str(module));
            &&& p.merge_branch@ == release_branch@ + "-merge"@
            &&& p.worktree_base@ == base
            &&& p.release_worktree@ == paths::below(base, release_branch@)
            &&& p.merge_worktree@ == paths::below(base, release_branch@ + "-merge"@)
            &&& p.start@ == "origin/"@ + primary_branch@
        }),
{
    let mut merge_branch = text::owned(release_branch);
    merge_branch.append("-merge");
    if branch_exists {
        let mut e = text::owned("Merge branch '");
        e.append(merge_branch.as_str());
        e.append("' already exists! Please resolve this before proceeding.");
        return Err(e);
    }
    let base = match module {
        Some(m) => paths::join(paths::join(project_dir, "releases/vendor").as_str(), m),
        None => paths::join(project_dir, "releases"),
    };
    let release_worktree = paths::join(base.as_str(), release_branch);
    let merge_worktree = paths::join(base.as_str(), merge_branch.as_str());
    let mut start = text::owned("origin/");
    start.append(primary_branch);
    Ok(MergePlan { merge_branch, worktree_base: base, release_worktree, merge_worktree, start })
}

/// Whether the worktrees are removed in the end.
pub fn cleanup_mode(keep_worktree: bool) -> (r: git::CleanupMode)
    ensures
        r == (if keep_worktree {
            git::CleanupMode::Keep
        } else {
            git::CleanupMode::Always
        }),
{
    if keep_worktree {
        git::CleanupMode::Keep
    } else {
        git::CleanupMode::Always
    }
}

/// Whether a hash can be shortened: it has at least eight characters, and these are ASCII.
pub open spec fn is_hash(hash: Seq<char>) -> bool {
    hash.len() >= 8 && forall|i: int| 0 <= i < 8 ==> (#[trigger] hash[i] as u32) < 128
}

/// The first eight characters of a hash.
pub fn short_hash(hash: &str) -> (r: String)
    requires
        is_hash(hash@),
    ensures
        r@ == hash@.take(8),
{
    let v = text::chars_of(hash);
    let r = text::string_of(&v, 0, 8);
    assert(r@ =~= hash@.take(8));
    r
}

/// The lines that show the commits of a merge.
pub open spec fn shown(all: Seq<(Seq<char>, Seq<char>)>) -> Seq<(Level, Seq<char>)> {
    all.map_values(
        |c: (Seq<char>, Seq<char>)| (Level::Info, "  • "@ + c.0.take(8) + " - "@ + c.1),
    )
}

/// Shows the commits that will be carried over; tells where there are none.
pub fn show_commits(commits: &Vec<(String, String)>, merge_branch: &str) -> (r: Vec<Message>)
    requires
        forall|i: int| 0 <= i < commits@.len() ==> is_hash((#[trigger] commits@[i]).0@),
    ensures
        ui::said(r@) == (if commits@.len() == 0 {
            seq![(Level::Info, "No new commits found to merge."@)]
        } else {
            seq![
                (
                    Level::Info,
                    "Found "@ + number::decimal(commits@.len()) + " commits to cherry-pick into "@
                        + merge_branch@ + ":"@,
                ),
            ] + shown(git::commits(commits@))
        }),
{
    let mut r: Vec<Message> = Vec::new();
    assert(ui::said(r@) =~= Seq::empty());
    if commits.len() == 0 {
        ui::say(&mut r, Level::Info, text::owned("No new commits found to merge."));
        assert(ui::said(r@) =~= seq![(Level::Info, "No new commits found to merge."@)]);
        return r;
    }
    let mut m = text::owned("Found ");
    m.append(number::to_decimal(commits.len() as u64).as_str());
    m.append(" commits to cherry-pick into ");
    m.append(merge_branch);
    m.append(":");
    ui::say(&mut r, Level::Info, m);
    let ghost first = ui::said(r@);
    let ghost all = shown(git::commits(commits@));
    assert(first =~= seq![(Level::Info, m@)]);
    let mut i: usize = 0;
    assert(first + all.take(0) =~= first);
    while i < commits.len()
        invariant
            i <= commits@.len(),
            all == shown(git::commits(commits@)),
            forall|k: int| 0 <= k < commits@.len() ==> is_hash((#[trigger] commits@[k]).0@),
            ui::said(r@) == first + all.take(i as int),
        decreases commits@.len() - i,
    {
        let mut line = text::owned("  • ");
        line.append(short_hash(commits[i].0.as_str()).as_str());
        line.append(" - ");
        line.append(commits[i].1.as_str());
        ui::say(&mut r, Level::Info, line);
        assert(all.take(i + 1) =~= all.take(i as int).push(all[i as int]));
        assert(ui::said(r@) =~= first + all.take(i + 1));
        i += 1;
    }
    assert(all.take(i as int) =~= all);
    r
}

// ---------------------------------------------------------------- carrying commits over

/// Where the work stands. The number is that of the commit.
#[derive(Debug, Clone, Copy, PartialEq, Eq, Structural)]
pub enum Pick {
    /// The commit is carried over next.
    Ready(usize),
    /// The commit conflicts; the user is asked.
    Asking(usize),
    /// The merge tool runs.
    Tool(usize),
    /// The user says that the conflict is resolved; that is looked at.
    Checking(usize),
    /// The resolved commit is completed.
    Continuing(usize),
    Done,
    Aborted,
}

/// What became of the last thing that was done.
#[derive(Debug, Clone, PartialEq, Eq)]
pub enum PickEvent {
    Succeeded,
    Failed,
    /// The user's answer on a conflict.
    Chose(String),
    /// What `git status --porcelain` printed.
    Status(String),
}

/// An event, with its strings as sequences of characters.
pub ghost enum PickEventView {
    Succeeded,
    Failed,
    Chose(Seq<char>),
    Status(Seq<char>),
}

impl View for PickEvent {
    type V = PickEventView;

    open spec fn view(&self) -> PickEventView {
        match *self {
            PickEvent::Succeeded => PickEventView::Succeeded,
            PickEvent::Failed => PickEventView::Failed,
            PickEvent::Chose(c) => PickEventView::Chose(c@),
            PickEvent::Status(s) => PickEventView::Status(s@),
        }
    }
}

/// Whether `git status --porcelain` shows a conflict.
pub open spec fn has_conflicts(status: Seq<char>) -> bool {
    text::has_text(status, "UU"@) || text::has_text(status, "AA"@) || text::has_text(status, "DD"@)
}

/// Whether `git status --porcelain` shows a conflict.
pub fn shows_conflicts(status: &str) -> (r: bool)
    ensures
        r == has_conflicts(status@),
{
    contains(status, "UU") || contains(status, "AA") || contains(status, "DD")
}

/// The commit that comes next once one is done with.
pub open spec fn beyond(i: usize, count: usize) -> Pick {
    if i + 1 < count {
        Pick::Ready((i + 1) as usize)
    } else {
        Pick::Done
    }
}

/// Where the work stands after an event. What does not fit the state changes nothing.
pub open spec fn next_state(state: Pick, event: PickEventView, count: usize) -> Pick {
    match (state, event) {
        (Pick::Ready(i), PickEventView::Succeeded) => beyond(i, count),
        (Pick::Ready(i), PickEventView::Failed) => Pick::Asking(i),
        (Pick::Asking(i), PickEventView::Chose(c)) => if c == "Start merge tool"@ {
            Pick::Tool(i)
        } else if c == "I have resolved it"@ {
            Pick::Checking(i)
        } else {
            Pick::Aborted
        },
        (Pick::Tool(i), PickEventView::Succeeded) => Pick::Asking(i),
        (Pick::Tool(i), PickEventView::Failed) => Pick::Asking(i),
        (Pick::Checking(i), PickEventView::Status(s)) => if has_conflicts(s) {
            Pick::Asking(i)
        } else {
            Pick::Continuing(i)
        },
        (Pick::Continuing(i), PickEventView::Succeeded) => beyond(i, count),
        (Pick::Continuing(i), PickEventView::Failed) => Pick::Asking(i),
        _ => state,
    }
}

/// The number of the commit that the work is at; the count where it is over.
pub open spec fn position(state: Pick, count: usize) -> int {
    match state {
        Pick::Ready(i) => i as int,
        Pick::Asking(i) => i as int,
        Pick::Tool(i) => i as int,
        Pick::Checking(i) => i as int,
        Pick::Continuing(i) => i as int,
        Pick::Done => count as int,
        Pick::Aborted => count as int,
    }
}

fn go_beyond(i: usize, count: usize) -> (r: Pick)
    requires
        i < count,
    ensures
        r == beyond(i, count),
{
    if i < count - 1 {
        Pick::Ready(i + 1)
    } else {
        Pick::Done
    }
}

/// Where the work begins.
pub fn first_state(count: usize) -> (r: Pick)
    ensures
        r == (if count > 0 {
            Pick::Ready(0)
        } else {
            Pick::Done
        }),
{
    if count > 0 {
        Pick::Ready(0)
    } else {
        Pick::Done
    }
}

/// Goes on after an event.
pub fn next(state: Pick, event: &PickEvent, count: usize) -> (r: Pick)
    requires
        state is Done || state is Aborted || position(state, count) < count,
    ensures
        r == next_state(state, event@, count),
        r is Done || r is Aborted || position(r, count) < count,
{
    match (state, event) {
        (Pick::Ready(i), PickEvent::Succeeded) => go_beyond(i, count),
        (Pick::Ready(i), PickEvent::Failed) => Pick::Asking(i),
        (Pick::Asking(i), PickEvent::Chose(c)) => if same(c.as_str(), "Start merge tool") {
            Pick::Tool(i)
        } else if same(c.as_str(), "I have resolved it") {
            Pick::Checking(i)
        } else {
            Pick::Aborted
        },
        (Pick::Tool(i), PickEvent::Succeeded) => Pick::Asking(i),
        (Pick::Tool(i), PickEvent::Failed) => Pick::Asking(i),
        (Pick::Checking(i), PickEvent::Status(s)) => if shows_conflicts(s.as_str()) {
            Pick::Asking(i)
        } else {
            Pick::Continuing(i)
        },
        (Pick::Continuing(i), PickEvent::Succeeded) => go_beyond(i, count),
        (Pick::Continuing(i), PickEvent::Failed) => Pick::Asking(i),
        _ => state,
    }
}

/// The arguments of `git` in the worktree of the merge that a state calls for; `None` where it
/// calls for none. `hash` is that of the commit.
pub open spec fn call(state: Pick, worktree: Seq<char>, hash: Seq<char>) -> Option<
    Seq<Seq<char>>,
> {
    match state {
        Pick::Ready(_) => Some(seq!["-C"@, worktree, "cherry-pick"@, hash]),
        Pick::Tool(_) => Some(seq!["-C"@, worktree, "mergetool"@]),
        Pick::Checking(_) => Some(seq!["-C"@, worktree, "status"@, "--porcelain"@]),
        Pick::Continuing(_) => Some(seq!["-C"@, worktree, "cherry-pick"@, "--continue"@]),
        Pick::Aborted => Some(seq!["-C"@, worktree, "cherry-pick"@, "--abort"@]),
        _ => None,
    }
}

/// The arguments of `git` that a state calls for.
pub fn git_call(state: Pick, worktree: &str, hash: &str) -> (r: Option<Vec<String>>)
    ensures
        (match r {
            Some(a) => Some(text::texts(a@)),
            None => None,
        }) == call(state, worktree@, hash@),
{
    let mut r = text::no_texts();
    push_text(&mut r, "-C");
    push_text(&mut r, worktree);
    match state {
        Pick::Ready(_) => {
            push_text(&mut r, "cherry-pick");
            push_text(&mut r, hash);
        },
        Pick::Tool(_) => {
            push_text(&mut r, "mergetool");
        },
        Pick::Checking(_) => {
            push_text(&mut r, "status");
            push_text(&mut r, "--porcelain");
        },
        Pick::Continuing(_) => {
            push_text(&mut r, "cherry-pick");
            push_text(&mut r, "--continue");
        },
        Pick::Aborted => {
            push_text(&mut r, "cherry-pick");
            push_text(&mut r, "--abort");
        },
        _ => {
            return None;
        },
    }
    assert(text::texts(r@) =~= call(state, worktree@, hash@)->0);
    Some(r)
}

/// Whether a line of `git status --porcelain` is that of a conflict.
pub open spec fn is_conflict_line(line: Seq<char>) -> bool {
    "UU"@.is_prefix_of(line) || "AA"@.is_prefix_of(line) || "DD"@.is_prefix_of(line)
}

/// The files in conflict, as they are shown.
pub open spec fn conflict_files(all: Seq<Seq<char>>) -> Seq<(Level, Seq<char>)>
    decreases all.len(),
{
    if all.len() == 0 {
        Seq::empty()
    } else {
        let rest = conflict_files(all.drop_last());
        if is_conflict_line(all.last()) {
            rest.push((Level::Info, "  • "@ + all.last().skip(3)))
        } else {
            rest
        }
    }
}

/// Whether the lines of a status that show conflicts are complete: two letters, one more ASCII
/// character, and the file.
pub open spec fn is_porcelain(status: Seq<char>) -> bool {
    forall|i: int|
        0 <= i < lines::lines(status).len() && is_conflict_line(#[trigger] lines::lines(status)[i])
            ==> lines::lines(status)[i].len() >= 3 && (lines::lines(status)[i][2] as u32) < 128
}

/// What the user is told of conflicts that are left.
pub fn list_conflicts(status: &str) -> (r: Vec<Message>)
    requires
        is_porcelain(status@),
    ensures
        ui::said(r@) == seq![(Level::Warning, "Conflicts still exist in the following files:"@)]
            + conflict_files(lines::lines(status@)),
{
    let mut r: Vec<Message> = Vec::new();
    ui::say(&mut r, Level::Warning, text::owned("Conflicts still exist in the following files:"));
    let ghost first = ui::said(r@);
    assert(first =~= seq![(Level::Warning, "Conflicts still exist in the following files:"@)]);
    let all = lines_of(status);
    let ghost seqs = lines::lines(status@);
    let mut i: usize = 0;
    assert(seqs.take(0) =~= Seq::empty());
    assert(first + conflict_files(seqs.take(0)) =~= first);
    while i < all.len()
        invariant
            i <= all@.len(),
            seqs == text::texts(all@),
            seqs == lines::lines(status@),
            is_porcelain(status@),
            ui::said(r@) == first + conflict_files(seqs.take(i as int)),
        decreases all@.len() - i,
    {
        assert(seqs.take(i + 1).drop_last() =~= seqs.take(i as int));
        assert(seqs.take(i + 1).last() == all@[i as int]@);
        let l = all[i].as_str();
        if starts_with(l, "UU") || starts_with(l, "AA") || starts_with(l, "DD") {
            let v = text::chars_of(l);
            let n: usize = v.len();
            assert(is_conflict_line(seqs[i as int]));
            let name = text::string_of(&v, 3, n);
            assert(name@ =~= l@.skip(3));
            let mut m = text::owned("  • ");
            m.append(name.as_str());
            ui::say(&mut r, Level::Info, m);
        }
        assert(ui::said(r@) =~= first + conflict_files(seqs.take(i + 1)));
        i += 1;
    }
    assert(seqs.take(i as int) =~= seqs);
    r
}

/// How a merge that was given up is reported.
pub fn aborted() -> (r: String)
    ensures
        r@ == "Merge aborted by user due to conflicts."@,
{
    text::owned("Merge aborted by user due to conflicts.")
}

// ---------------------------------------------------------------- the end

/// What became of the push in the end.
#[derive(Debug, Clone, PartialEq, Eq)]
pub enum PushOutcome {
    Declined,
    Pushed,
    Failed(String),
}

/// How a merge ends.
#[derive(Debug, Clone, PartialEq, Eq)]
pub struct MergeEnd {
    pub messages: Vec<Message>,
    /// Whether the worktree of the merge is left, whatever was asked for.
    pub keep_worktree: bool,
    /// Whether the local merge branch is removed.
    pub delete_branch: bool,
    pub error: Option<String>,
}

/// Where the user finds the branch that is left.
pub open spec fn left_behind(branch: Seq<char>, worktree: Seq<char>) -> Seq<(Level, Seq<char>)> {
    seq![
        (Level::Info, "  - Merge branch: "@ + branch),
        (Level::Info, "  - Worktree location: "@ + text::shown(worktree)),
    ]
}

/// What the user is told at the end of a merge.
pub open spec fn end_messages(
    outcome: PushOutcome,
    branch: Seq<char>,
    primary: Seq<char>,
    worktree: Seq<char>,
) -> Seq<(Level, Seq<char>)> {
    match outcome {
        PushOutcome::Declined => seq![
            (Level::Info, "Push cancelled. Local merge branch preserved:"@),
        ] + left_behind(branch, worktree),
        PushOutcome::Failed(e) => seq![
            (
                Level::Critical,
                "Failed to push merge branch to remote repository: "@ + e@,
            ),
            (
                Level::Info,
                "The local merge branch has been preserved for manual investigation:"@,
            ),
        ] + left_behind(branch, worktree),
        PushOutcome::Pushed => seq![
            (
                Level::Success,
                "Successfully pushed merge branch "@ + branch + " to remote repository"@,
            ),
            (Level::Info, "=== Merge Request Information ==="@),
            (
                Level::Info,
                "Merge branch '"@ + branch
                    + "' has been created and pushed to remote repository"@,
            ),
            (Level::Info, "Source branch: "@ + branch),
            (Level::Info, "Target branch: "@ + primary),
            (Level::Info, "\nNext steps:"@),
            (Level::Info, "1. Go to your Git hosting service web interface"@),
            (
                Level::Info,
                "2. Create a merge/pull request from '"@ + branch + "' to '"@ + primary + "'"@,
            ),
            (Level::Info, "3. Review the changes and merge when ready"@),
        ],
    }
}

fn joined3(a: &str, b: &str, c: &str) -> (r: String)
    ensures
        r@ == a@ + b@ + c@,
{
    let mut r = text::owned(a);
    r.append(b);
    r.append(c);
    r
}

fn joined2(a: &str, b: &str) -> (r: String)
    ensures
        r@ == a@ + b@,
{
    let mut r = text::owned(a);
    r.append(b);
    r
}

fn say_left_behind(out: &mut Vec<Message>, branch: &str, worktree: &str)
    ensures
        ui::said(final(out)@) == ui::said(old(out)@) + left_behind(branch@, worktree@),
{
    let ghost before = ui::said(out@);
    ui::say(out, Level::Info, joined2("  - Merge branch: ", branch));
    ui::say(
        out,
        Level::Info,
        joined2("  - Worktree location: ", text::quoted(worktree).as_str()),
    );
    assert(ui::said(out@) =~= before + left_behind(branch@, worktree@));
}

/// How a merge ends: a branch that was not pushed is left with its worktree, and one that was
/// pushed is not needed any more.
pub fn finish(outcome: &PushOutcome, branch: &str, primary: &str, worktree: &str) -> (r: MergeEnd)
    ensures
        ui::said(r.messages@) == end_messages(*outcome, branch@, primary@, worktree@),
        r.keep_worktree == !(outcome is Pushed),
        r.delete_branch == (outcome is Pushed),
        paths::opt(r.error) == (if outcome is Failed {
            Some("Failed to push merge branch to remote."@)
        } else {
            None
        }),
{
    let mut out: Vec<Message> = Vec::new();
    assert(ui::said(out@) =~= Seq::empty());
    match outcome {
        PushOutcome::Declined => {
            ui::say(
                &mut out,
                Level::Info,
                text::owned("Push cancelled. Local merge branch preserved:"),
            );
            say_left_behind(&mut out, branch, worktree);
            assert(ui::said(out@) =~= end_messages(*outcome, branch@, primary@, worktree@));
            MergeEnd { messages: out, keep_worktree: true, delete_branch: false, error: None }
        },
        PushOutcome::Failed(e) => {
            ui::say(
                &mut out,
                Level::Critical,
                joined2("Failed to push merge branch to remote repository: ", e.as_str()),
            );
            ui::say(
                &mut out,
                Level::Info,
                text::owned("The local merge branch has been preserved for manual investigation:"),
            );
            say_left_behind(&mut out, branch, worktree);
            assert(ui::said(out@) =~= end_messages(*outcome, branch@, primary@, worktree@));
            MergeEnd {
                messages: out,
                keep_worktree: true,
                delete_branch: false,
                error: Some(text::owned("Failed to push merge branch to remote.")),
            }
        },
        PushOutcome::Pushed => {
            ui::say(
                &mut out,
                Level::Success,
                joined3("Successfully pushed merge branch ", branch, " to remote repository"),
            );
            ui::say(&mut out, Level::Info, text::owned("=== Merge Request Information ==="));
            ui::say(
                &mut out,
                Level::Info,
                joined3(
                    "Merge branch '",
                    branch,
                    "' has been created and pushed to remote repository",
                ),
            );
            ui::say(&mut out, Level::Info, joined2("Source branch: ", branch));
            ui::say(&mut out, Level::Info, joined2("Target branch: ", primary));
            ui::say(&mut out, Level::Info, text::owned("\nNext steps:"));
            ui::say(
                &mut out,
                Level::Info,
                text::owned("1. Go to your Git hosting service web interface"),
            );
            let mut step = joined3("2. Create a merge/pull request from '", branch, "' to '");
            step.append(primary);
            step.append("'");
            ui::say(&mut out, Level::Info, step);
            ui::say(
                &mut out,
                Level::Info,
                text::owned("3. Review the changes and merge when ready"),
            );
            assert(ui::said(out@) =~= end_messages(*outcome, branch@, primary@, worktree@));
            MergeEnd { messages: out, keep_worktree: false, delete_branch: true, error: None }
        },
    }
}

// ---------------------------------------------------------------- laws

/// No commit is passed over: the work stays at a commit until it was carried over, or until its
/// conflict was resolved and it was completed, and then goes to the next one.
pub proof fn no_commit_is_passed_over(state: Pick, event: PickEventView, count: usize)
    requires
        position(state, count) < count,
    ensures
        ({
            let n = next_state(state, event, count);
            let here = position(state, count);
            &&& n is Aborted || position(n, count) == here || position(n, count) == here + 1
            &&& n !is Aborted && position(n, count) == here + 1 ==> (state is Ready || state
                is Continuing) && event is Succeeded
        }),
{
}

/// A commit in conflict is completed only after a status without conflicts: nothing else leads
/// there.
pub proof fn a_conflict_is_completed_only_when_resolved(
    state: Pick,
    event: PickEventView,
    count: usize,
)
    requires
        next_state(state, event, count) is Continuing,
        state !is Continuing,
    ensures
        state is Checking,
        event matches PickEventView::Status(s) && !has_conflicts(s),
{
}

} // verus!
