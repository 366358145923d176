//! Bringing a project up to date with the template.
use vstd::prelude::*;

use crate::edit;
use crate::lines;
use crate::order;
use crate::paths;
use crate::template;
use crate::template::summary::Summary;
use crate::template::{Change, ChangeView};
use crate::text;
use crate::text::{contains_char, same, starts_with};
use crate::ui;
use crate::ui::{Level, Message};

verus! {

#[derive(Debug, Clone, Copy, Default)]
pub struct UpdateOptions {
    /// Skip the confirmation prompt (required for non-interactive use).
    pub yes: bool,
    /// Report what would change and exit without touching anything.
    pub check: bool,
    /// Overwrite every template-owned file regardless of local edits.
    pub force_template: bool,
}

// ---------------------------------------------------------------- the confirmation

/// Asks whether the project is to be updated.
pub trait UpdatePromptProvider {
    fn confirm_update(&self) -> bool;
}

/// The question as a terminal puts it.
pub struct InteractiveUpdatePromptProvider;

impl InteractiveUpdatePromptProvider {
    /// The question.
    pub fn question(&self) -> (r: String)
        ensures
            r@ == "Continue updating THIS PROJECT from the template?"@,
    {
        text::owned("Continue updating THIS PROJECT from the template?")
    }

    /// What counts as the answer: nothing but a clear yes, where `None` stands for a prompt that
    /// was cancelled or could not be shown.
    pub fn answer(&self, reply: Option<bool>) -> (r: bool)
        ensures
            r == (reply == Some(true)),
    {
        match reply {
            Some(b) => b,
            None => false,
        }
    }
}

/// The refusal of an unattended run without a confirmation.
pub open spec fn unattended_refusal() -> Seq<char> {
    "refusing to rewrite the project non-interactively. Re-run with --yes to confirm. (To upgrade docker-control itself, run `upgrade`.)"@
}

/// Decides whether a project is rewritten, given the answer to the question.
pub fn decide_update(yes: bool, is_interactive: bool, answer: bool) -> (r: Result<bool, String>)
    ensures
        yes ==> r == Ok::<bool, String>(true),
        !yes && is_interactive ==> r == Ok::<bool, String>(answer),
        !yes && !is_interactive ==> (r matches Err(e) && e@ == unattended_refusal()),
{
    if yes {
        return Ok(true);
    }
    if !is_interactive {
        return Err(
            text::owned(
                "refusing to rewrite the project non-interactively. Re-run with --yes to confirm. (To upgrade docker-control itself, run `upgrade`.)",
            ),
        );
    }
    Ok(answer)
}

/// Decides whether to proceed with an update. `yes` bypasses the question; an unattended run
/// without it is refused; a user is asked.
pub fn confirm_or_abort<P: UpdatePromptProvider>(
    yes: bool,
    is_interactive: bool,
    prompt: &P,
) -> (r: Result<bool, String>)
    ensures
        yes ==> r == Ok::<bool, String>(true),
        !yes && is_interactive ==> (r matches Ok(b) && call_ensures(
            P::confirm_update,
            (prompt,),
            b,
        )),
        !yes && !is_interactive ==> (r matches Err(e) && e@ == unattended_refusal()),
{
    if !yes && is_interactive {
        let answer = prompt.confirm_update();
        decide_update(yes, is_interactive, answer)
    } else {
        decide_update(yes, is_interactive, false)
    }
}

// ---------------------------------------------------------------- conflicts

/// What to do with a file that changed both in the project and in the template.
#[derive(Debug, Clone, Copy, PartialEq, Eq, Structural)]
pub enum ConflictResolution {
    KeepMine,
    TakeTheirs,
    /// Keep the project's file and put the template's version beside it, as `<name>.dist`.
    WriteDist,
}

/// How to treat the files of a project that has no recorded template state.
#[derive(Debug, Clone, Copy, PartialEq, Eq, Structural)]
pub enum UnknownPolicy {
    ReviewEach,
    TakeTemplate,
    KeepMine,
}

/// Asks for the decisions about single files during an update.
pub trait ConflictPrompt {
    /// What to do with the file `rel`, given the paths of the two versions.
    fn resolve(&self, rel: &str, mine: &str, theirs: &str) -> ConflictResolution;

    /// How to treat `count` files that differ without a recorded base.
    fn unknown_policy(&self, count: usize) -> UnknownPolicy;
}

/// What follows from an entry that the user picked for a conflict.
#[derive(Debug, Clone, Copy, PartialEq, Eq, Structural)]
pub enum ConflictReply {
    Resolve(ConflictResolution),
    /// Show the difference and ask again.
    ShowDiff,
}

/// The questions as a terminal puts them.
pub struct InteractiveConflictPrompt;

impl InteractiveConflictPrompt {
    /// The entries offered for a conflict.
    pub fn choices(&self) -> (r: Vec<String>)
        ensures
            text::texts(r@) == seq![
                "keep my version"@,
                "take the template version"@,
                "keep mine, write the template copy as *.dist"@,
                "show diff"@,
            ],
    {
        let mut r: Vec<String> = Vec::new();
        r.push(text::owned("keep my version"));
        r.push(text::owned("take the template version"));
        r.push(text::owned("keep mine, write the template copy as *.dist"));
        r.push(text::owned("show diff"));
        assert(text::texts(r@) =~= seq![
            "keep my version"@,
            "take the template version"@,
            "keep mine, write the template copy as *.dist"@,
            "show diff"@,
        ]);
        r
    }

    /// What an entry stands for. A cancelled prompt (`None`) never overwrites.
    pub fn reply(&self, choice: Option<&str>) -> (r: ConflictReply)
        ensures
            r == (match choice {
                Some(c) => if c@ == "keep my version"@ {
                    ConflictReply::Resolve(ConflictResolution::KeepMine)
                } else if c@ == "take the template version"@ {
                    ConflictReply::Resolve(ConflictResolution::TakeTheirs)
                } else if c@ == "keep mine, write the template copy as *.dist"@ {
                    ConflictReply::Resolve(ConflictResolution::WriteDist)
                } else if c@ == "show diff"@ {
                    ConflictReply::ShowDiff
                } else {
                    ConflictReply::Resolve(ConflictResolution::KeepMine)
                },
                None => ConflictReply::Resolve(ConflictResolution::KeepMine),
            }),
    {
        match choice {
            Some(c) => if same(c, "keep my version") {
                ConflictReply::Resolve(ConflictResolution::KeepMine)
            } else if same(c, "take the template version") {
                ConflictReply::Resolve(ConflictResolution::TakeTheirs)
            } else if same(c, "keep mine, write the template copy as *.dist") {
                ConflictReply::Resolve(ConflictResolution::WriteDist)
            } else if same(c, "show diff") {
                ConflictReply::ShowDiff
            } else {
                ConflictReply::Resolve(ConflictResolution::KeepMine)
            },
            None => ConflictReply::Resolve(ConflictResolution::KeepMine),
        }
    }

    /// The entries offered for files without a recorded base.
    pub fn policy_choices(&self) -> (r: Vec<String>)
        ensures
            text::texts(r@) == seq![
                "review each file"@,
                "take the template version for all (previous behaviour)"@,
                "keep my versions for all"@,
            ],
    {
        let mut r: Vec<String> = Vec::new();
        r.push(text::owned("review each file"));
        r.push(text::owned("take the template version for all (previous behaviour)"));
        r.push(text::owned("keep my versions for all"));
        assert(text::texts(r@) =~= seq![
            "review each file"@,
            "take the template version for all (previous behaviour)"@,
            "keep my versions for all"@,
        ]);
        r
    }

    /// The policy that an entry stands for. A cancelled prompt (`None`) keeps the files.
    pub fn policy(&self, choice: Option<&str>) -> (r: UnknownPolicy)
        ensures
            r == (match choice {
                Some(c) => if c@ == "take the template version for all (previous behaviour)"@ {
                    UnknownPolicy::TakeTemplate
                } else if c@ == "review each file"@ {
                    UnknownPolicy::ReviewEach
                } else {
                    UnknownPolicy::KeepMine
                },
                None => UnknownPolicy::KeepMine,
            }),
    {
        match choice {
            Some(c) => if same(c, "take the template version for all (previous behaviour)") {
                UnknownPolicy::TakeTemplate
            } else if same(c, "review each file") {
                UnknownPolicy::ReviewEach
            } else {
                UnknownPolicy::KeepMine
            },
            None => UnknownPolicy::KeepMine,
        }
    }
}

// ---------------------------------------------------------------- the plan

/// The files an update acts on, once conflicts have been resolved.
#[derive(Debug)]
pub struct ApplyPlan {
    /// Template-relative paths to copy over the project.
    pub take: Vec<String>,
    /// Paths to copy as `<name>.dist` beside the project's own file.
    pub sidecars: Vec<String>,
    /// Paths left as they are.
    pub kept: Vec<String>,
}

/// A plan, with its strings as sequences of characters.
pub ghost struct PlanView {
    pub take: Seq<Seq<char>>,
    pub sidecars: Seq<Seq<char>>,
    pub kept: Seq<Seq<char>>,
}

impl View for ApplyPlan {
    type V = PlanView;

    open spec fn view(&self) -> PlanView {
        PlanView {
            take: text::texts(self.take@),
            sidecars: text::texts(self.sidecars@),
            kept: text::texts(self.kept@),
        }
    }
}

impl Default for ApplyPlan {
    fn default() -> (r: ApplyPlan)
        ensures
            r@ == empty_plan(),
    {
        let r = ApplyPlan { take: Vec::new(), sidecars: Vec::new(), kept: Vec::new() };
        assert(text::texts(r.take@) =~= Seq::empty());
        assert(text::texts(r.sidecars@) =~= Seq::empty());
        assert(text::texts(r.kept@) =~= Seq::empty());
        r
    }
}

impl ApplyPlan {
    /// Whether the plan copies nothing.
    pub fn is_noop(&self) -> (r: bool)
        ensures
            r == (self@.take.len() == 0 && self@.sidecars.len() == 0),
    {
        self.take.len() == 0 && self.sidecars.len() == 0
    }
}

/// The plan that does nothing.
pub open spec fn empty_plan() -> PlanView {
    PlanView { take: Seq::empty(), sidecars: Seq::empty(), kept: Seq::empty() }
}

/// Whether a change is put to the user.
pub open spec fn asked(c: ChangeView, interactive: bool, policy: UnknownPolicy) -> bool {
    interactive && (c is Conflict || (c is Unknown && policy is ReviewEach))
}

/// What a change leads to: a file and how it is resolved, or nothing. `answer` is the user's,
/// for the changes that are put to them.
pub open spec fn resolution(
    c: ChangeView,
    interactive: bool,
    policy: UnknownPolicy,
    answer: ConflictResolution,
) -> Option<(Seq<char>, ConflictResolution)> {
    let asked_or_beside = if interactive {
        answer
    } else {
        ConflictResolution::WriteDist
    };
    match c {
        ChangeView::SafeUpdate(p) => Some((p, ConflictResolution::TakeTheirs)),
        ChangeView::SafeAdd(p) => Some((p, ConflictResolution::TakeTheirs)),
        ChangeView::Conflict(p) => Some((p, asked_or_beside)),
        ChangeView::Unknown(p) => match policy {
            UnknownPolicy::TakeTemplate => Some((p, ConflictResolution::TakeTheirs)),
            UnknownPolicy::KeepMine => Some((p, ConflictResolution::KeepMine)),
            UnknownPolicy::ReviewEach => Some((p, asked_or_beside)),
        },
        ChangeView::GitignoreEntries(_) => Some(
            (template::GITIGNORE_DIST@, ConflictResolution::TakeTheirs),
        ),
        ChangeView::EnvKeys(_) => None,
        ChangeView::RemovedUpstream(_) => None,
        ChangeView::AlreadyApplied(_) => None,
    }
}

/// A plan with one more resolved file.
pub open spec fn with_file(
    plan: PlanView,
    r: Option<(Seq<char>, ConflictResolution)>,
) -> PlanView {
    match r {
        None => plan,
        Some((p, ConflictResolution::TakeTheirs)) => PlanView { take: plan.take.push(p), ..plan },
        Some((p, ConflictResolution::WriteDist)) => PlanView {
            sidecars: plan.sidecars.push(p),
            kept: plan.kept.push(p),
            ..plan
        },
        Some((p, ConflictResolution::KeepMine)) => PlanView { kept: plan.kept.push(p), ..plan },
    }
}

/// The plan for some changes. The answers stand at the positions of the changes; those of
/// changes that are not put to the user do not matter.
pub open spec fn planned(
    changes: Seq<ChangeView>,
    interactive: bool,
    policy: UnknownPolicy,
    answers: Seq<ConflictResolution>,
) -> PlanView
    decreases changes.len(),
{
    if changes.len() == 0 {
        empty_plan()
    } else {
        let k = changes.len() - 1;
        with_file(
            planned(changes.drop_last(), interactive, policy, answers),
            resolution(changes[k], interactive, policy, answers[k]),
        )
    }
}

/// The number of changes without a recorded base.
pub open spec fn unknown_count(changes: Seq<ChangeView>) -> nat
    decreases changes.len(),
{
    if changes.len() == 0 {
        0
    } else if changes.last() is Unknown {
        unknown_count(changes.drop_last()) + 1
    } else {
        unknown_count(changes.drop_last())
    }
}

/// Turns changes into a plan, given the answers of the user.
pub fn plan_with(
    changes: &Vec<Change>,
    is_interactive: bool,
    policy: UnknownPolicy,
    answers: &Vec<ConflictResolution>,
) -> (r: ApplyPlan)
    requires
        answers@.len() == changes@.len(),
    ensures
        r@ == planned(
            template::changes_view(changes@),
            is_interactive,
            policy,
            answers@,
        ),
{
    let ghost all = template::changes_view(changes@);
    let mut take: Vec<String> = Vec::new();
    let mut sidecars: Vec<String> = Vec::new();
    let mut kept: Vec<String> = Vec::new();
    let mut i: usize = 0;
    proof {
        assert(text::texts(take@) =~= Seq::empty());
        assert(text::texts(sidecars@) =~= Seq::empty());
        assert(text::texts(kept@) =~= Seq::empty());
    }
    while i < changes.len()
        invariant
            i <= changes@.len() == answers@.len(),
            all == template::changes_view(changes@),
            text::texts(take@) == planned(
                all.take(i as int),
                is_interactive,
                policy,
                answers@,
            ).take,
            text::texts(sidecars@) == planned(
                all.take(i as int),
                is_interactive,
                policy,
                answers@,
            ).sidecars,
            text::texts(kept@) == planned(
                all.take(i as int),
                is_interactive,
                policy,
                answers@,
            ).kept,
        decreases changes@.len() - i,
    {
        proof {
            assert(all.take(i + 1).drop_last() =~= all.take(i as int));
            assert(all.take(i + 1)[i as int] == changes@[i as int]@);
        }
        let answer = if is_interactive {
            answers[i]
        } else {
            ConflictResolution::WriteDist
        };
        let found: Option<(String, ConflictResolution)> = match &changes[i] {
            Change::SafeUpdate(p) => Some((p.clone(), ConflictResolution::TakeTheirs)),
            Change::SafeAdd(p) => Some((p.clone(), ConflictResolution::TakeTheirs)),
            Change::Conflict(p) => Some((p.clone(), answer)),
            Change::Unknown(p) => match policy {
                UnknownPolicy::TakeTemplate => Some((p.clone(), ConflictResolution::TakeTheirs)),
                UnknownPolicy::KeepMine => Some((p.clone(), ConflictResolution::KeepMine)),
                UnknownPolicy::ReviewEach => Some((p.clone(), answer)),
            },
            Change::GitignoreEntries(_) => Some(
                (text::owned(template::GITIGNORE_DIST), ConflictResolution::TakeTheirs),
            ),
            Change::EnvKeys(_) => None,
            Change::RemovedUpstream(_) => None,
            Change::AlreadyApplied(_) => None,
        };
        let ghost (t0, s0, k0) = (text::texts(take@), text::texts(sidecars@), text::texts(kept@));
        if let Some((path, how)) = found {
            match how {
                ConflictResolution::TakeTheirs => {
                    take.push(path);
                    assert(text::texts(take@) =~= t0.push(path@));
                },
                ConflictResolution::WriteDist => {
                    sidecars.push(path.clone());
                    kept.push(path);
                    assert(text::texts(sidecars@) =~= s0.push(path@));
                    assert(text::texts(kept@) =~= k0.push(path@));
                },
                ConflictResolution::KeepMine => {
                    kept.push(path);
                    assert(text::texts(kept@) =~= k0.push(path@));
                },
            }
        }
        i += 1;
    }
    assert(all.take(i as int) =~= all);
    ApplyPlan { take, sidecars, kept }
}

/// Whether an answer is a reply that the prompt gave about a file, asked with its path in the
/// project and in the template.
pub open spec fn replied<P: ConflictPrompt>(
    prompt: &P,
    path: Option<Seq<char>>,
    project_dir: Seq<char>,
    template_dir: Seq<char>,
    answer: ConflictResolution,
) -> bool {
    exists|rel: &str, mine: &str, theirs: &str|
        #[trigger] call_ensures(P::resolve, (prompt, rel, mine, theirs), answer) && path == Some(
            rel@,
        ) && mine@ == paths::below(project_dir, rel@) && theirs@ == paths::below(template_dir, rel@)
}

/// Whether the answers are replies that the prompt gave: one about every change that is put to
/// the user.
pub open spec fn answered<P: ConflictPrompt>(
    prompt: &P,
    changes: Seq<ChangeView>,
    project_dir: Seq<char>,
    template_dir: Seq<char>,
    interactive: bool,
    policy: UnknownPolicy,
    answers: Seq<ConflictResolution>,
) -> bool {
    &&& answers.len() == changes.len()
    &&& forall|i: int|
        0 <= i < changes.len() && asked(#[trigger] changes[i], interactive, policy) ==> replied(
            prompt,
            changes[i].path(),
            project_dir,
            template_dir,
            answers[i],
        )
}

/// Whether a plan follows from replies that the prompt gave: the policy for files without a
/// recorded base, asked for once with their number, and the answers about single files.
pub open spec fn plan_of_replies<P: ConflictPrompt>(
    prompt: &P,
    changes: Seq<ChangeView>,
    project_dir: Seq<char>,
    template_dir: Seq<char>,
    interactive: bool,
    policy: UnknownPolicy,
    answers: Seq<ConflictResolution>,
    plan: PlanView,
) -> bool {
    &&& answered(prompt, changes, project_dir, template_dir, interactive, policy, answers)
    &&& plan == planned(changes, interactive, policy, answers)
    &&& if interactive && unknown_count(changes) > 0 {
        call_ensures(P::unknown_policy, (prompt, unknown_count(changes) as usize), policy)
    } else {
        policy is KeepMine
    }
}

fn count_unknown(changes: &Vec<Change>) -> (r: usize)
    ensures
        r == unknown_count(template::changes_view(changes@)),
{
    let ghost all = template::changes_view(changes@);
    let mut n: usize = 0;
    let mut i: usize = 0;
    while i < changes.len()
        invariant
            i <= changes@.len(),
            n <= i,
            all == template::changes_view(changes@),
            n == unknown_count(all.take(i as int)),
        decreases changes@.len() - i,
    {
        proof {
            assert(all.take(i + 1).drop_last() =~= all.take(i as int));
            assert(all.take(i + 1).last() == changes@[i as int]@);
        }
        if let Change::Unknown(_) = &changes[i] {
            n += 1;
        }
        i += 1;
    }
    assert(all.take(i as int) =~= all);
    n
}

/// Turns changes into a plan, asking about anything ambiguous. The policy for files without a
/// recorded base is asked for once; an unattended run keeps them, and puts the template's
/// version of a conflicting file beside the project's.
pub fn plan_apply<P: ConflictPrompt>(
    changes: &Vec<Change>,
    project_dir: &str,
    template_dir: &str,
    is_interactive: bool,
    prompt: &P,
) -> (r: ApplyPlan)
    ensures
        exists|policy: UnknownPolicy, answers: Seq<ConflictResolution>|
            #[trigger] plan_of_replies(
                prompt,
                template::changes_view(changes@),
                project_dir@,
                template_dir@,
                is_interactive,
                policy,
                answers,
                r@,
            ),
{
    let unknown = count_unknown(changes);
    let policy = if unknown > 0 && is_interactive {
        prompt.unknown_policy(unknown)
    } else {
        UnknownPolicy::KeepMine
    };
    let ghost all = template::changes_view(changes@);
    let mut answers: Vec<ConflictResolution> = Vec::new();
    let mut i: usize = 0;
    while i < changes.len()
        invariant
            i <= changes@.len(),
            all == template::changes_view(changes@),
            answers@.len() == i,
            answered(
                prompt,
                all.take(i as int),
                project_dir@,
                template_dir@,
                is_interactive,
                policy,
                answers@,
            ),
        decreases changes@.len() - i,
    {
        let path: Option<&str> = match &changes[i] {
            Change::Conflict(p) => Some(p.as_str()),
            Change::Unknown(p) => match policy {
                UnknownPolicy::ReviewEach => Some(p.as_str()),
                _ => None,
            },
            _ => None,
        };
        let ghost earlier = answers@;
        let mut answer = ConflictResolution::KeepMine;
        if is_interactive {
            if let Some(rel) = path {
                let mine_path = paths::join(project_dir, rel);
                let theirs_path = paths::join(template_dir, rel);
                let mine = mine_path.as_str();
                let theirs = theirs_path.as_str();
                answer = prompt.resolve(rel, mine, theirs);
                assert(replied(
                    prompt,
                    changes@[i as int]@.path(),
                    project_dir@,
                    template_dir@,
                    answer,
                ));
            }
        }
        answers.push(answer);
        proof {
            let now = all.take(i + 1);
            assert(now[i as int] == changes@[i as int]@);
            assert forall|j: int|
                0 <= j < now.len() && asked(
                    #[trigger] now[j],
                    is_interactive,
                    policy,
                ) implies replied(
                prompt,
                now[j].path(),
                project_dir@,
                template_dir@,
                answers@[j],
            ) by {
                if j < i {
                    assert(all.take(i as int)[j] == now[j]);
                    assert(answers@[j] == earlier[j]);
                }
            }
        }
        i += 1;
    }
    assert(all.take(i as int) =~= all);
    let r = plan_with(changes, is_interactive, policy, &answers);
    assert(plan_of_replies(
        prompt,
        all,
        project_dir@,
        template_dir@,
        is_interactive,
        policy,
        answers@,
        r@,
    ));
    r
}

/// An unattended run copies nothing but what is safe and the seed for `.gitignore`, and puts
/// the template's version beside every conflicting file.
pub proof fn unattended_runs_discard_nothing(
    changes: Seq<ChangeView>,
    policy: UnknownPolicy,
    answers: Seq<ConflictResolution>,
)
    requires
        policy is KeepMine,
    ensures
        ({
            let plan = planned(changes, false, policy, answers);
            &&& forall|p: Seq<char>| #[trigger]
                plan.take.contains(p) ==> p == template::GITIGNORE_DIST@ || changes.contains(
                    ChangeView::SafeUpdate(p),
                ) || changes.contains(ChangeView::SafeAdd(p))
            &&& forall|p: Seq<char>|
                #![trigger changes.contains(ChangeView::Conflict(p))]
                changes.contains(ChangeView::Conflict(p)) ==> plan.sidecars.contains(p)
                    && plan.kept.contains(p)
            &&& forall|p: Seq<char>|
                #![trigger changes.contains(ChangeView::Unknown(p))]
                changes.contains(ChangeView::Unknown(p)) ==> plan.kept.contains(p)
        }),
    decreases changes.len(),
{
    if changes.len() > 0 {
        let init = changes.drop_last();
        let last = changes.last();
        unattended_runs_discard_nothing(init, policy, answers);
        let before = planned(init, false, policy, answers);
        let plan = planned(changes, false, policy, answers);
        let r = resolution(last, false, policy, answers[changes.len() - 1]);
        assert(changes =~= init.push(last));
        assert forall|p: Seq<char>| #[trigger] plan.take.contains(p) implies p
            == template::GITIGNORE_DIST@ || changes.contains(ChangeView::SafeUpdate(p))
            || changes.contains(ChangeView::SafeAdd(p)) by {
            lemma_kept_by_push(init, last, ChangeView::SafeUpdate(p));
            lemma_kept_by_push(init, last, ChangeView::SafeAdd(p));
            if let Some((q, how)) = r {
                vstd::seq_lib::lemma_seq_contains_after_push(before.take, q, p);
            }
        }
        assert forall|p: Seq<char>|
            #![trigger changes.contains(ChangeView::Conflict(p))]
            changes.contains(ChangeView::Conflict(p)) implies plan.sidecars.contains(p)
            && plan.kept.contains(p) by {
            lemma_kept_by_push(init, last, ChangeView::Conflict(p));
            lemma_plan_grows(before, r, p);
        }
        assert forall|p: Seq<char>|
            #![trigger changes.contains(ChangeView::Unknown(p))]
            changes.contains(ChangeView::Unknown(p)) implies plan.kept.contains(p) by {
            lemma_kept_by_push(init, last, ChangeView::Unknown(p));
            lemma_plan_grows(before, r, p);
        }
    }
}

proof fn lemma_kept_by_push(init: Seq<ChangeView>, last: ChangeView, c: ChangeView)
    ensures
        init.push(last).contains(c) <==> init.contains(c) || c == last,
{
    vstd::seq_lib::lemma_seq_contains_after_push(init, last, c);
}

proof fn lemma_plan_grows(
    before: PlanView,
    r: Option<(Seq<char>, ConflictResolution)>,
    p: Seq<char>,
)
    ensures
        before.sidecars.contains(p) ==> with_file(before, r).sidecars.contains(p),
        before.kept.contains(p) ==> with_file(before, r).kept.contains(p),
        r == Some((p, ConflictResolution::WriteDist)) ==> with_file(before, r).sidecars.contains(p)
            && with_file(before, r).kept.contains(p),
        r == Some((p, ConflictResolution::KeepMine)) ==> with_file(before, r).kept.contains(p),
{
    if let Some((q, how)) = r {
        vstd::seq_lib::lemma_seq_contains_after_push(before.sidecars, q, p);
        vstd::seq_lib::lemma_seq_contains_after_push(before.kept, q, p);
    }
}

// ---------------------------------------------------------------- carrying it out

/// How an update begins, once the project was compared with the template.
#[derive(Debug, Clone, Copy, PartialEq, Eq, Structural)]
pub enum UpdateStart {
    /// Nothing is pending. Where the recorded base is stale it is recorded anew.
    UpToDate { restamp: bool },
    /// There is something to plan.
    Plan,
}

/// Decides how an update begins.
pub fn begin_update(force_template: bool, changes: &Vec<Change>) -> (r: UpdateStart)
    ensures
        ({
            let all = template::changes_view(changes@);
            let nothing = template::summary::summarized(all).is_empty();
            r == if force_template || !nothing {
                UpdateStart::Plan
            } else {
                UpdateStart::UpToDate {
                    restamp: exists|i: int| 0 <= i < all.len() && #[trigger] all[i] is AlreadyApplied,
                }
            }
        }),
{
    if force_template || !Summary::from_changes(changes).is_empty() {
        return UpdateStart::Plan;
    }
    let ghost all = template::changes_view(changes@);
    let mut i: usize = 0;
    while i < changes.len()
        invariant
            i <= changes@.len(),
            all == template::changes_view(changes@),
            !force_template,
            template::summary::summarized(all).is_empty(),
            forall|k: int| 0 <= k < i ==> !(#[trigger] all[k] is AlreadyApplied),
        decreases changes@.len() - i,
    {
        if !changes[i].is_actionable() {
            assert(all[i as int] is AlreadyApplied);
            return UpdateStart::UpToDate { restamp: true };
        }
        assert(all[i as int] == changes@[i as int]@);
        i += 1;
    }
    UpdateStart::UpToDate { restamp: false }
}

/// One thing that an update does to the project. A run stops at the first one that fails.
#[derive(Debug, Clone, PartialEq, Eq)]
pub enum UpdateAction {
    StopProject,
    Backup,
    /// Copy the whole template over the project.
    SyncAll,
    /// Copy these template files over the project.
    SyncFiles(Vec<String>),
    /// Put the template's version of this file beside the project's.
    WriteSidecar(String),
    /// Refresh the Capistrano build file, where the project has one.
    RefreshDockerfile,
    /// Rebuild the Capistrano image.
    RebuildImage,
    MergeGitignore,
    /// Record the template as the project's new base.
    Stamp,
    StartProject,
}

/// An action, with its strings as sequences of characters.
pub ghost enum ActionView {
    StopProject,
    Backup,
    SyncAll,
    SyncFiles(Seq<Seq<char>>),
    WriteSidecar(Seq<char>),
    RefreshDockerfile,
    RebuildImage,
    MergeGitignore,
    Stamp,
    StartProject,
}

impl View for UpdateAction {
    type V = ActionView;

    open spec fn view(&self) -> ActionView {
        match *self {
            UpdateAction::StopProject => ActionView::StopProject,
            UpdateAction::Backup => ActionView::Backup,
            UpdateAction::SyncAll => ActionView::SyncAll,
            UpdateAction::SyncFiles(v) => ActionView::SyncFiles(text::texts(v@)),
            UpdateAction::WriteSidecar(p) => ActionView::WriteSidecar(p@),
            UpdateAction::RefreshDockerfile => ActionView::RefreshDockerfile,
            UpdateAction::RebuildImage => ActionView::RebuildImage,
            UpdateAction::MergeGitignore => ActionView::MergeGitignore,
            UpdateAction::Stamp => ActionView::Stamp,
            UpdateAction::StartProject => ActionView::StartProject,
        }
    }
}

/// The views of a list of actions.
pub open spec fn actions_view(v: Seq<UpdateAction>) -> Seq<ActionView> {
    v.map_values(|a: UpdateAction| a@)
}

/// Whether an update leaves every file of the project as it is: nothing is to be copied over
/// the project or put beside its files.
pub open spec fn keeps_all(force: bool, plan: PlanView) -> bool {
    !force && plan.take.len() == 0 && plan.sidecars.len() == 0
}

/// Whether an update leaves every file of the project as it is.
pub fn keeps_every_file(force_template: bool, plan: &ApplyPlan) -> (r: bool)
    ensures
        r == keeps_all(force_template, plan@),
{
    !force_template && plan.is_noop()
}

/// The actions of an update up to the refresh of the build file. One that keeps every file
/// only records the template.
pub open spec fn first_actions(force: bool, plan: PlanView, was_running: bool) -> Seq<ActionView> {
    if keeps_all(force, plan) {
        seq![ActionView::Stamp]
    } else {
        (if was_running {
            seq![ActionView::StopProject]
        } else {
            Seq::empty()
        }) + seq![ActionView::Backup] + (if force {
            seq![ActionView::SyncAll]
        } else {
            (if plan.take.len() > 0 {
                seq![ActionView::SyncFiles(plan.take)]
            } else {
                Seq::empty()
            }) + plan.sidecars.map_values(|p: Seq<char>| ActionView::WriteSidecar(p))
        }) + seq![ActionView::RefreshDockerfile]
    }
}

/// The actions of an update after the refresh of the build file: none where every file is
/// kept.
pub open spec fn last_actions(
    force: bool,
    plan: PlanView,
    dockerfile_changed: bool,
    was_running: bool,
) -> Seq<ActionView> {
    if keeps_all(force, plan) {
        Seq::empty()
    } else {
        (if dockerfile_changed {
            seq![ActionView::RebuildImage]
        } else {
            Seq::empty()
        }) + seq![ActionView::MergeGitignore, ActionView::Stamp] + (if was_running {
            seq![ActionView::StartProject]
        } else {
            Seq::empty()
        })
    }
}

/// The actions of an update up to the refresh of the build file: the project is stopped and
/// saved before anything is copied. Where every file is kept the template is recorded, and
/// nothing else is done.
pub fn apply_template_update(force_template: bool, plan: &ApplyPlan, was_running: bool) -> (r: Vec<
    UpdateAction,
>)
    ensures
        actions_view(r@) == first_actions(force_template, plan@, was_running),
{
    let mut r: Vec<UpdateAction> = Vec::new();
    assert(actions_view(r@) =~= Seq::empty());
    if keeps_every_file(force_template, plan) {
        push_action(&mut r, UpdateAction::Stamp);
        assert(actions_view(r@) =~= seq![ActionView::Stamp]);
        return r;
    }
    if was_running {
        push_action(&mut r, UpdateAction::StopProject);
    }
    push_action(&mut r, UpdateAction::Backup);
    let ghost before = actions_view(r@);
    if force_template {
        push_action(&mut r, UpdateAction::SyncAll);
    } else {
        if plan.take.len() > 0 {
            let paths = text::copy_texts(&plan.take);
            push_action(&mut r, UpdateAction::SyncFiles(paths));
        }
        let ghost copied = actions_view(r@);
        let ghost beside = plan@.sidecars.map_values(|p: Seq<char>| ActionView::WriteSidecar(p));
        let mut i: usize = 0;
        assert(actions_view(r@) =~= copied + beside.take(0));
        while i < plan.sidecars.len()
            invariant
                i <= plan.sidecars@.len(),
                beside == plan@.sidecars.map_values(|p: Seq<char>| ActionView::WriteSidecar(p)),
                actions_view(r@) == copied + beside.take(i as int),
            decreases plan.sidecars@.len() - i,
        {
            push_action(&mut r, UpdateAction::WriteSidecar(plan.sidecars[i].clone()));
            assert(beside.take(i + 1) =~= beside.take(i as int).push(beside[i as int]));
            i += 1;
        }
        assert(beside.take(i as int) =~= beside);
    }
    push_action(&mut r, UpdateAction::RefreshDockerfile);
    assert(actions_view(r@) =~= first_actions(force_template, plan@, was_running));
    r
}

fn push_action(out: &mut Vec<UpdateAction>, action: UpdateAction)
    ensures
        actions_view(final(out)@) == actions_view(old(out)@).push(action@),
{
    let ghost before = actions_view(out@);
    out.push(action);
    assert(actions_view(out@) =~= before.push(action@));
}

/// The actions of an update after the refresh of the build file, given whether it changed.
pub fn finish_template_update(
    force_template: bool,
    plan: &ApplyPlan,
    dockerfile_changed: bool,
    was_running: bool,
) -> (r: Vec<UpdateAction>)
    ensures
        actions_view(r@) == last_actions(force_template, plan@, dockerfile_changed, was_running),
{
    let mut r: Vec<UpdateAction> = Vec::new();
    if keeps_every_file(force_template, plan) {
        assert(actions_view(r@) =~= Seq::empty());
        return r;
    }
    if dockerfile_changed {
        r.push(UpdateAction::RebuildImage);
    }
    r.push(UpdateAction::MergeGitignore);
    r.push(UpdateAction::Stamp);
    if was_running {
        r.push(UpdateAction::StartProject);
    }
    assert(actions_view(r@) =~= last_actions(
        force_template,
        plan@,
        dockerfile_changed,
        was_running,
    ));
    r
}

/// An attended run in which nothing is safe to take and every question is answered by keeping
/// the local file touches no file of the project: it records the template, and that is all.
pub proof fn keeping_every_file_only_records(
    changes: Seq<ChangeView>,
    policy: UnknownPolicy,
    answers: Seq<ConflictResolution>,
    dockerfile_changed: bool,
    was_running: bool,
)
    requires
        answers.len() == changes.len(),
        !(policy is TakeTemplate),
        forall|i: int|
            0 <= i < changes.len() ==> !(#[trigger] changes[i] is SafeUpdate)
                && !(changes[i] is SafeAdd) && !(changes[i] is GitignoreEntries),
        forall|i: int| 0 <= i < answers.len() ==> (#[trigger] answers[i]) is KeepMine,
    ensures
        ({
            let plan = planned(changes, true, policy, answers);
            &&& first_actions(false, plan, was_running) == seq![ActionView::Stamp]
            &&& last_actions(false, plan, dockerfile_changed, was_running) == Seq::<
                ActionView,
            >::empty()
            &&& forall|i: int|
                #![trigger changes[i]]
                0 <= i < changes.len() ==> (changes[i] matches ChangeView::Conflict(p)
                    ==> plan.kept.contains(p)) && (changes[i] matches ChangeView::Unknown(p)
                    ==> plan.kept.contains(p))
        }),
{
    lemma_nothing_taken(changes, policy, answers, changes.len());
    assert(changes.take(changes.len() as int) =~= changes);
}

proof fn lemma_nothing_taken(
    changes: Seq<ChangeView>,
    policy: UnknownPolicy,
    answers: Seq<ConflictResolution>,
    n: nat,
)
    requires
        n <= changes.len() == answers.len(),
        !(policy is TakeTemplate),
        forall|i: int|
            0 <= i < changes.len() ==> !(#[trigger] changes[i] is SafeUpdate)
                && !(changes[i] is SafeAdd) && !(changes[i] is GitignoreEntries),
        forall|i: int| 0 <= i < answers.len() ==> (#[trigger] answers[i]) is KeepMine,
    ensures
        ({
            let plan = planned(changes.take(n as int), true, policy, answers);
            &&& plan.take.len() == 0
            &&& plan.sidecars.len() == 0
            &&& forall|i: int|
                #![trigger changes[i]]
                0 <= i < n ==> (changes[i] matches ChangeView::Conflict(p) ==> plan.kept.contains(
                    p,
                )) && (changes[i] matches ChangeView::Unknown(p) ==> plan.kept.contains(p))
        }),
    decreases n,
{
    if n > 0 {
        let k = (n - 1) as nat;
        lemma_nothing_taken(changes, policy, answers, k);
        let some = changes.take(n as int);
        assert(some.drop_last() =~= changes.take(k as int));
        assert(some[k as int] == changes[k as int]);
        assert(answers[k as int] is KeepMine);
        let before = planned(changes.take(k as int), true, policy, answers);
        let r = resolution(changes[k as int], true, policy, answers[k as int]);
        assert forall|i: int|
            #![trigger changes[i]]
            0 <= i < n implies (changes[i] matches ChangeView::Conflict(p) ==> with_file(
            before,
            r,
        ).kept.contains(p)) && (changes[i] matches ChangeView::Unknown(p) ==> with_file(
            before,
            r,
        ).kept.contains(p)) by {
            if let ChangeView::Conflict(p) = changes[i] {
                lemma_plan_grows(before, r, p);
            }
            if let ChangeView::Unknown(p) = changes[i] {
                lemma_plan_grows(before, r, p);
            }
        }
    }
}

// ---------------------------------------------------------------- copying

/// The patterns by which a copy leaves out what the comparison leaves out: the data of the
/// running project and the files with values of the project's own.
pub open spec fn excludes() -> Seq<Seq<char>> {
    seq![
        "--exclude=/logs/"@,
        "--exclude=/volumes/"@,
        "--exclude=/secrets/**.txt"@,
        "--exclude=/config/htpasswd"@,
    ]
}

fn push_excludes(out: &mut Vec<String>)
    ensures
        text::texts(final(out)@) == text::texts(old(out)@) + excludes(),
{
    let ghost before = text::texts(out@);
    out.push(text::owned("--exclude=/logs/"));
    out.push(text::owned("--exclude=/volumes/"));
    out.push(text::owned("--exclude=/secrets/**.txt"));
    out.push(text::owned("--exclude=/config/htpasswd"));
    assert(text::texts(out@) =~= before + excludes());
}

/// The path of a template file, marked so that its directories are made in the project.
pub open spec fn marked(template_dir: Seq<char>, path: Seq<char>) -> Seq<char> {
    template_dir + "/./"@ + path
}

/// The command that copies exactly these template files into the project. The files were
/// picked by their content, so the copy goes by nothing else. `None` where there are none.
pub fn sync_files(template_dir: &str, project_dir: &str, paths: &Vec<String>) -> (r: Option<
    Vec<String>,
>)
    ensures
        r is None <==> paths@.len() == 0,
        r matches Some(argv) ==> text::texts(argv@) == seq!["rsync"@, "-aIR"@] + excludes()
            + text::texts(paths@).map_values(|p: Seq<char>| marked(template_dir@, p)) + seq![
            project_dir@ + "/"@,
        ],
{
    if paths.len() == 0 {
        return None;
    }
    let mut argv: Vec<String> = Vec::new();
    argv.push(text::owned("rsync"));
    argv.push(text::owned("-aIR"));
    push_excludes(&mut argv);
    let ghost head = text::texts(argv@);
    assert(head =~= seq!["rsync"@, "-aIR"@] + excludes());
    let ghost sources = text::texts(paths@).map_values(|p: Seq<char>| marked(template_dir@, p));
    let mut i: usize = 0;
    assert(text::texts(argv@) =~= head + sources.take(0));
    while i < paths.len()
        invariant
            i <= paths@.len(),
            sources == text::texts(paths@).map_values(|p: Seq<char>| marked(template_dir@, p)),
            text::texts(argv@) == head + sources.take(i as int),
        decreases paths@.len() - i,
    {
        let mut source = text::owned(template_dir);
        source.append("/./");
        source.append(paths[i].as_str());
        let ghost now = text::texts(argv@);
        argv.push(source);
        assert(text::texts(argv@) =~= now.push(source@));
        assert(sources.take(i + 1) =~= sources.take(i as int).push(sources[i as int]));
        i += 1;
    }
    assert(sources.take(i as int) =~= sources);
    let mut target = text::owned(project_dir);
    target.append("/");
    let ghost now = text::texts(argv@);
    argv.push(target);
    assert(text::texts(argv@) =~= now.push(target@));
    assert(now.push(target@) =~= head + sources + seq![target@]);
    Some(argv)
}

/// The command that copies the whole template over the project, except for the data of the
/// running project and the files with values of the project's own.
pub fn sync_all(template_dir: &str, project_dir: &str) -> (r: Vec<String>)
    ensures
        text::texts(r@) == seq!["rsync"@, "-aI"@] + excludes() + seq![
            template_dir@ + "/"@,
            project_dir@ + "/"@,
        ],
{
    let mut r: Vec<String> = Vec::new();
    r.push(text::owned("rsync"));
    r.push(text::owned("-aI"));
    push_excludes(&mut r);
    let ghost head = text::texts(r@);
    assert(head =~= seq!["rsync"@, "-aI"@] + excludes());
    let mut source = text::owned(template_dir);
    source.append("/");
    let mut target = text::owned(project_dir);
    target.append("/");
    r.push(source);
    r.push(target);
    assert(text::texts(r@) =~= head + seq![source@, target@]);
    r
}

/// Where the template's version of a conflicting file is put.
pub fn sidecar_target(project_dir: &str, path: &str) -> (r: String)
    ensures
        r@ == paths::below(project_dir@, path@ + ".dist"@),
{
    let mut name = text::owned(path);
    name.append(".dist");
    paths::join(project_dir, name.as_str())
}

// ---------------------------------------------------------------- the backup

/// The name of a backup folder, from the time in seconds.
pub fn backup_name(now: u64) -> (r: String)
    ensures
        r@ == "backup_"@ + crate::number::decimal(now as nat),
{
    let mut r = text::owned("backup_");
    r.append(crate::number::to_decimal(now).as_str());
    r
}

/// Whether a file name is matched by a pattern, in which a star makes it a prefix.
pub open spec fn excluded_by(name: Seq<char>, pattern: Seq<char>) -> bool {
    if pattern.contains('*') {
        edit::replaced(pattern, "*"@, ""@).is_prefix_of(name)
    } else {
        name == pattern
    }
}

/// Whether one of some patterns leaves a name out.
pub open spec fn excluded_by_any(name: Seq<char>, patterns: Seq<String>) -> bool {
    exists|i: int| 0 <= i < patterns.len() && excluded_by(name, #[trigger] patterns[i]@)
}

/// Whether a file name is matched by one of some patterns.
pub fn is_excluded(name: &str, patterns: &Vec<String>) -> (r: bool)
    ensures
        r == excluded_by_any(name@, patterns@),
{
    let mut i: usize = 0;
    while i < patterns.len()
        invariant
            i <= patterns@.len(),
            forall|k: int| 0 <= k < i ==> !excluded_by(name@, #[trigger] patterns@[k]@),
        decreases patterns@.len() - i,
    {
        let p = patterns[i].as_str();
        let hit = if contains_char(p, '*') {
            proof {
                reveal_strlit("*");
            }
            let prefix = edit::replace(p, "*", "");
            starts_with(name, prefix.as_str())
        } else {
            same(name, p)
        };
        if hit {
            return true;
        }
        i += 1;
    }
    false
}

/// What a backup leaves out: earlier backups, the checkouts and the data of the running
/// project.
pub fn backup_excludes() -> (r: Vec<String>)
    ensures
        text::texts(r@) == seq!["backup_*"@, ".git"@, "htdocs"@, "logs"@, "volumes"@],
{
    let mut r: Vec<String> = Vec::new();
    r.push(text::owned("backup_*"));
    r.push(text::owned(".git"));
    r.push(text::owned("htdocs"));
    r.push(text::owned("logs"));
    r.push(text::owned("volumes"));
    assert(text::texts(r@) =~= seq!["backup_*"@, ".git"@, "htdocs"@, "logs"@, "volumes"@]);
    r
}

// ---------------------------------------------------------------- .gitignore

/// The ignore rules of a project with those of the seed folded in: every line that is not
/// empty, once, in ascending order.
pub open spec fn merged_gitignore(content: Seq<char>, dist: Seq<char>) -> Seq<char> {
    lines::joined(
        order::deduped(order::in_order(lines::filled(lines::lines(content + "\n"@ + dist)))),
        "\n"@,
    )
}

/// Folds the seed into the project's `.gitignore`, so that the template can add rules without
/// clobbering the project's own.
pub fn merge_gitignore(content: &str, dist: &str) -> (r: String)
    ensures
        r@ == merged_gitignore(content@, dist@),
{
    let mut all = text::owned(content);
    all.append("\n");
    all.append(dist);
    let split = lines::lines_of(all.as_str());
    let kept = lines::filled_of(&split);
    let sorted = order::sort(&kept);
    let unique = order::dedup(&sorted);
    lines::join(&unique, "\n")
}

// ---------------------------------------------------------------- reports

/// What an update reports but never performs.
pub open spec fn unwritten(
    removed: Seq<Seq<char>>,
    env_keys: Seq<Seq<char>>,
) -> Seq<(Level, Seq<char>)> {
    (if removed.len() > 0 {
        seq![
            (
                Level::Info,
                "Left in place, but no longer part of the template (delete if unused): "@
                    + lines::joined(removed, ", "@),
            ),
        ]
    } else {
        Seq::empty()
    }) + (if env_keys.len() > 0 {
        seq![
            (
                Level::Warning,
                "Add these keys to .env yourself (values are project-specific): "@ + lines::joined(
                    env_keys,
                    ", "@,
                ),
            ),
        ]
    } else {
        Seq::empty()
    })
}

/// Spells out what an update reports but never performs.
pub fn report_unwritten(summary: &Summary, out: &mut Vec<Message>)
    ensures
        ui::said(final(out)@) == ui::said(old(out)@) + unwritten(
            summary@.removed,
            summary@.env_keys,
        ),
{
    let ghost before = ui::said(out@);
    if summary.removed.len() > 0 {
        let mut line = text::owned(
            "Left in place, but no longer part of the template (delete if unused): ",
        );
        line.append(lines::join(&summary.removed, ", ").as_str());
        ui::say(out, Level::Info, line);
    }
    if summary.env_keys.len() > 0 {
        let mut line = text::owned(
            "Add these keys to .env yourself (values are project-specific): ",
        );
        line.append(lines::join(&summary.env_keys, ", ").as_str());
        ui::say(out, Level::Warning, line);
    }
    assert(ui::said(out@) =~= before + unwritten(summary@.removed, summary@.env_keys));
}

/// What an update says at its end.
pub open spec fn outcome(
    plan: PlanView,
    removed: Seq<Seq<char>>,
    env_keys: Seq<Seq<char>>,
    copied: bool,
) -> Seq<(Level, Seq<char>)> {
    let kept = ui::each(Level::Info, "Kept your version of "@, plan.kept, ""@);
    if copied {
        kept + ui::each(Level::Info, "Wrote "@, plan.sidecars, ".dist for manual merge"@)
            + unwritten(removed, env_keys) + seq![
            (Level::Success, "Project updated successfully."@),
        ]
    } else {
        seq![(Level::Info, "Nothing to copy — keeping every local file."@)] + kept + unwritten(
            removed,
            env_keys,
        )
    }
}

/// What an update says at its end.
pub fn report_outcome(force_template: bool, plan: &ApplyPlan, summary: &Summary) -> (r: Vec<
    Message,
>)
    ensures
        ui::said(r@) == outcome(
            plan@,
            summary@.removed,
            summary@.env_keys,
            !keeps_all(force_template, plan@),
        ),
{
    let copied = !keeps_every_file(force_template, plan);
    let mut out: Vec<Message> = Vec::new();
    assert(ui::said(out@) =~= Seq::empty());
    if !copied {
        ui::say(
            &mut out,
            Level::Info,
            text::owned("Nothing to copy — keeping every local file."),
        );
    }
    ui::say_each(&mut out, Level::Info, "Kept your version of ", &plan.kept, "");
    if copied {
        ui::say_each(&mut out, Level::Info, "Wrote ", &plan.sidecars, ".dist for manual merge");
    }
    report_unwritten(summary, &mut out);
    if copied {
        ui::say(&mut out, Level::Success, text::owned("Project updated successfully."));
    }
    assert(ui::said(out@) =~= outcome(plan@, summary@.removed, summary@.env_keys, copied));
    out
}

/// The files whose difference a check shows: those that can be updated, that conflict and that
/// cannot be judged. `None` where nothing is pending.
pub fn report_pending(summary: &Summary) -> (r: Option<Vec<String>>)
    ensures
        r is None <==> summary@.is_empty(),
        r matches Some(v) ==> text::texts(v@) == summary@.safe + summary@.conflicts
            + summary@.unknown,
{
    if summary.is_empty() {
        return None;
    }
    let mut v: Vec<String> = Vec::new();
    text::push_all(&mut v, &summary.safe);
    text::push_all(&mut v, &summary.conflicts);
    text::push_all(&mut v, &summary.unknown);
    assert(text::texts(v@) =~= summary@.safe + summary@.conflicts + summary@.unknown);
    Some(v)
}

} // verus!
