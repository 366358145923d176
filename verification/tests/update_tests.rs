use docker_control::commands::update::{
    confirm_or_abort, plan_apply, ApplyPlan, ConflictPrompt, ConflictResolution, UnknownPolicy,
    UpdatePromptProvider,
};
use docker_control::template::Change;

struct MockPrompt(bool);
impl UpdatePromptProvider for MockPrompt {
    fn confirm_update(&self) -> bool {
        self.0
    }
}

struct MockConflictPrompt {
    resolution: ConflictResolution,
    policy: UnknownPolicy,
}

impl ConflictPrompt for MockConflictPrompt {
    fn resolve(&self, _rel: &str, _mine: &str, _theirs: &str) -> ConflictResolution {
        self.resolution
    }
    fn unknown_policy(&self, _count: usize) -> UnknownPolicy {
        self.policy
    }
}

fn mock(resolution: ConflictResolution, policy: UnknownPolicy) -> MockConflictPrompt {
    MockConflictPrompt { resolution, policy }
}

fn plan(changes: &Vec<Change>, interactive: bool, prompt: &MockConflictPrompt) -> ApplyPlan {
    plan_apply(changes, "/project", "/template", interactive, prompt)
}

#[test]
fn yes_flag_proceeds_without_consulting_prompt() {
    // A prompt that would say "no" must be ignored when --yes is set,
    // regardless of interactivity.
    assert!(confirm_or_abort(true, true, &MockPrompt(false)).unwrap());
    assert!(confirm_or_abort(true, false, &MockPrompt(false)).unwrap());
}

#[test]
fn non_interactive_without_yes_is_refused() {
    let err = confirm_or_abort(false, false, &MockPrompt(true)).unwrap_err();
    assert!(err.contains("--yes"));
}

#[test]
fn interactive_follows_prompt_answer() {
    assert!(confirm_or_abort(false, true, &MockPrompt(true)).unwrap());
    assert!(!confirm_or_abort(false, true, &MockPrompt(false)).unwrap());
}

#[test]
fn safe_changes_are_applied_without_prompting() {
    let changes = vec![
        Change::SafeUpdate("compose.yml".into()),
        Change::SafeAdd("config/new.conf".into()),
    ];
    // A prompt that would keep local files must not be consulted at all.
    let plan = plan(
        &changes,
        true,
        &mock(ConflictResolution::KeepMine, UnknownPolicy::KeepMine),
    );
    assert_eq!(plan.take, vec!["compose.yml", "config/new.conf"]);
    assert!(plan.kept.is_empty());
}

#[test]
fn conflict_honours_the_chosen_resolution() {
    let changes = vec![Change::Conflict("config/php.ini".into())];

    let taken = plan(
        &changes,
        true,
        &mock(ConflictResolution::TakeTheirs, UnknownPolicy::KeepMine),
    );
    assert_eq!(taken.take, vec!["config/php.ini"]);
    assert!(taken.sidecars.is_empty());

    let kept = plan(
        &changes,
        true,
        &mock(ConflictResolution::KeepMine, UnknownPolicy::KeepMine),
    );
    assert!(kept.take.is_empty());
    assert_eq!(kept.kept, vec!["config/php.ini"]);

    let sidecar = plan(
        &changes,
        true,
        &mock(ConflictResolution::WriteDist, UnknownPolicy::KeepMine),
    );
    assert!(sidecar.take.is_empty());
    assert_eq!(sidecar.sidecars, vec!["config/php.ini"]);
}

#[test]
fn non_interactive_conflict_keeps_local_and_writes_sidecar() {
    // --yes previously overwrote local edits silently; an unattended run
    // must never lose work, so the template copy goes beside it instead.
    let changes = vec![Change::Conflict("config/php.ini".into())];
    let plan = plan(
        &changes,
        false,
        &mock(ConflictResolution::TakeTheirs, UnknownPolicy::TakeTemplate),
    );
    assert!(plan.take.is_empty());
    assert_eq!(plan.sidecars, vec!["config/php.ini"]);
    assert_eq!(plan.kept, vec!["config/php.ini"]);
}

#[test]
fn unknown_policy_applies_to_every_unattributable_file() {
    let changes = vec![
        Change::Unknown("compose.yml".into()),
        Change::Unknown("config/php.ini".into()),
    ];

    let take = plan(
        &changes,
        true,
        &mock(ConflictResolution::KeepMine, UnknownPolicy::TakeTemplate),
    );
    assert_eq!(take.take, vec!["compose.yml", "config/php.ini"]);

    let keep = plan(
        &changes,
        true,
        &mock(ConflictResolution::KeepMine, UnknownPolicy::KeepMine),
    );
    assert!(keep.take.is_empty());
    assert_eq!(keep.kept, vec!["compose.yml", "config/php.ini"]);

    // "review each" defers to the per-file resolution.
    let review = plan(
        &changes,
        true,
        &mock(ConflictResolution::TakeTheirs, UnknownPolicy::ReviewEach),
    );
    assert_eq!(review.take, vec!["compose.yml", "config/php.ini"]);
}

#[test]
fn non_interactive_never_overwrites_unattributable_files() {
    let changes = vec![Change::Unknown("compose.yml".into())];
    let plan = plan(
        &changes,
        false,
        &mock(ConflictResolution::TakeTheirs, UnknownPolicy::TakeTemplate),
    );
    assert!(plan.take.is_empty());
    assert_eq!(plan.kept, vec!["compose.yml"]);
}

#[test]
fn reported_only_changes_produce_no_actions() {
    let changes = vec![
        Change::RemovedUpstream("config/old.conf".into()),
        Change::EnvKeys(vec!["SELF_SIGNED_HOST".into()]),
        Change::AlreadyApplied("compose.yml".into()),
    ];
    let plan = plan(
        &changes,
        true,
        &mock(ConflictResolution::TakeTheirs, UnknownPolicy::TakeTemplate),
    );
    assert!(plan.is_noop());
    assert!(plan.kept.is_empty());
}
