use docker_control::commands::merge::{
    chosen_module, cleanup_mode, execute, find_repository, finish, first_state, git_call,
    list_conflicts, module_choices, next, offer_branches, resolve_module, show_commits,
    shows_conflicts, InteractiveMergePromptProvider, MergeOptions, MergePromptProvider, Pick,
    PickEvent, PushOutcome,
};
use docker_control::git::{
    changelog_names, collect_commits, compare_versions, create_worktree, get_changelog,
    get_docker_user_id, get_primary_branch, is_release_branch_name, list_release_branches,
    list_tags, list_vendor_modules, push_branch, push_tag, update_branch, BranchUpdate,
    CleanupMode, VendorDir, WorktreeBranch, WorktreeCleanup,
};
use std::cmp::Ordering;

fn strings(items: &[&str]) -> Vec<String> {
    items.iter().map(|s| s.to_string()).collect()
}

struct MockMergePromptProvider {
    module: Option<String>,
    release_branch: String,
    confirm_cherry_pick: bool,
    conflict_resolution: String,
    confirm_push: bool,
}

impl MergePromptProvider for MockMergePromptProvider {
    fn select_module(&self, _modules: Vec<String>) -> Result<String, String> {
        Ok(self
            .module
            .clone()
            .unwrap_or_else(|| "Main Project".to_string()))
    }
    fn select_release_branch(&self, _branches: Vec<String>) -> Result<String, String> {
        Ok(self.release_branch.clone())
    }
    fn confirm_cherry_pick(&self, _count: usize) -> Result<bool, String> {
        Ok(self.confirm_cherry_pick)
    }
    fn select_conflict_resolution(&self) -> Result<String, String> {
        Ok(self.conflict_resolution.clone())
    }
    fn confirm_push(&self, _branch: &str) -> Result<bool, String> {
        Ok(self.confirm_push)
    }
}

fn options(module: Option<&str>) -> MergeOptions<MockMergePromptProvider> {
    MergeOptions {
        prompt_provider: MockMergePromptProvider {
            module: module.map(str::to_string),
            release_branch: "1.0.x".to_string(),
            confirm_cherry_pick: true,
            conflict_resolution: "Abort".to_string(),
            confirm_push: true,
        },
        keep_worktree: true,
    }
}

#[test]
fn test_successful_merge() {
    let options = options(None);
    let module = resolve_module(None, &Vec::new(), &options.prompt_provider).unwrap();
    assert_eq!(module, None);
    let existing = strings(&["/p/htdocs", "/p/htdocs/.git"]);
    assert_eq!(
        find_repository("/p", module.as_deref(), &existing),
        Ok("/p/htdocs".to_string())
    );
    let branches = offer_branches(list_release_branches(
        &strings(&["1.0.x", "main"]),
        &strings(&["origin/1.0.x", "origin/main"]),
    ))
    .unwrap();
    assert_eq!(branches, strings(&["1.0.x"]));
    let branch = options
        .prompt_provider
        .select_release_branch(branches)
        .unwrap();
    let plan = execute("/p", None, &branch, "main", false).unwrap();
    assert_eq!(plan.merge_branch, "1.0.x-merge");

    // Both commits go through.
    let mut state = first_state(2);
    let mut picked: Vec<String> = Vec::new();
    while state != Pick::Done {
        let hash = format!("hash{}", picked.len());
        picked.push(git_call(state, "/w", &hash).unwrap().join(" "));
        state = next(state, &PickEvent::Succeeded, 2);
    }
    assert_eq!(
        picked,
        strings(&["-C /w cherry-pick hash0", "-C /w cherry-pick hash1"])
    );

    // The branch is pushed under its name.
    assert_eq!(
        push_branch(&plan.merge_branch),
        "refs/heads/1.0.x-merge:refs/heads/1.0.x-merge"
    );
    let end = finish(&PushOutcome::Pushed, &plan.merge_branch, "main", "/w");
    assert!(end.delete_branch && !end.keep_worktree && end.error.is_none());
    assert_eq!(cleanup_mode(options.keep_worktree), CleanupMode::Keep);
}

#[test]
fn test_merge_vendor_module() {
    let options = options(Some("test/module"));
    let module = resolve_module(
        None,
        &strings(&["test/module"]),
        &options.prompt_provider,
    )
    .unwrap();
    assert_eq!(module, Some("test/module".to_string()));
    let existing = strings(&[
        "/p/htdocs/vendor/test/module",
        "/p/htdocs/vendor/test/module/.git",
    ]);
    assert!(find_repository("/p", module.as_deref(), &existing).is_ok());
    let plan = execute("/p", module.as_deref(), "1.0.x", "main", false).unwrap();
    assert_eq!(plan.merge_branch, "1.0.x-merge");
    assert_eq!(
        plan.merge_worktree,
        "/p/releases/vendor/test/module/1.0.x-merge"
    );
    assert_eq!(plan.start, "origin/main");
}

#[test]
fn a_conflict_is_asked_about_until_it_is_gone() {
    let asking = next(first_state(1), &PickEvent::Failed, 1);
    assert_eq!(asking, Pick::Asking(0));
    let tool = next(asking, &PickEvent::Chose("Start merge tool".to_string()), 1);
    assert_eq!(tool, Pick::Tool(0));
    assert_eq!(next(tool, &PickEvent::Succeeded, 1), Pick::Asking(0));
    let checking = next(asking, &PickEvent::Chose("I have resolved it".to_string()), 1);
    assert_eq!(
        next(checking, &PickEvent::Status("UU a.txt\n".to_string()), 1),
        Pick::Asking(0)
    );
    let going = next(checking, &PickEvent::Status("M  a.txt\n".to_string()), 1);
    assert_eq!(going, Pick::Continuing(0));
    assert_eq!(next(going, &PickEvent::Succeeded, 1), Pick::Done);
    assert_eq!(
        next(asking, &PickEvent::Chose("Abort".to_string()), 1),
        Pick::Aborted
    );
    assert!(shows_conflicts("AA x"));
    let told = list_conflicts("UU a.txt\nM  b.txt\n");
    assert_eq!(told.len(), 2);
    assert_eq!(told[1].text, "  • a.txt");
}

#[test]
fn a_merge_that_is_not_pushed_is_kept() {
    let end = finish(&PushOutcome::Declined, "b", "main", "/w");
    assert!(end.keep_worktree && !end.delete_branch && end.error.is_none());
    let end = finish(&PushOutcome::Failed("no".to_string()), "b", "main", "/w");
    assert_eq!(
        end.error,
        Some("Failed to push merge branch to remote.".to_string())
    );
    assert!(execute("/p", None, "1.0.x", "main", true).is_err());
    assert!(offer_branches(Vec::new()).is_err());
    assert!(find_repository("/p", None, &Vec::new()).is_err());
    assert!(find_repository("/p", None, &strings(&["/p/htdocs"])).is_err());
}

#[test]
fn the_project_itself_is_offered_first() {
    assert_eq!(
        module_choices(&strings(&["a/b"])),
        strings(&["Main Project", "a/b"])
    );
    assert_eq!(chosen_module("Main Project".to_string()), None);
    assert_eq!(
        InteractiveMergePromptProvider.cherry_pick_question(3),
        "Proceed with cherry-picking these 3 commits?"
    );
    let commits = vec![("0123456789abcdef".to_string(), "fix: x".to_string())];
    let told = show_commits(&commits, "m");
    assert_eq!(told[1].text, "  • 01234567 - fix: x");
    assert_eq!(
        show_commits(&Vec::new(), "m")[0].text,
        "No new commits found to merge."
    );
}

#[test]
fn versions_are_compared_by_their_numbers() {
    assert_eq!(compare_versions("v1.10.0", "1.9.0"), Ordering::Greater);
    assert_eq!(compare_versions("1.9.0", "v1.10.0"), Ordering::Less);
    assert_eq!(compare_versions("v1.0", "1.0"), Ordering::Equal);
    assert_eq!(compare_versions("1.0", "1.0.1"), Ordering::Less);
    assert_eq!(compare_versions("1.0.x", "1.0.y"), Ordering::Less);
}

#[test]
fn only_releases_are_listed_oldest_first() {
    assert!(is_release_branch_name("1.10.x"));
    assert!(is_release_branch_name("v2.0.x"));
    assert!(!is_release_branch_name("1.0.0"));
    assert!(!is_release_branch_name("main"));
    assert_eq!(
        list_release_branches(
            &strings(&["1.10.x", "main", "1.9.x"]),
            &strings(&["origin/1.9.x", "origin/0.1.x", "origin/main"])
        ),
        strings(&["0.1.x", "1.9.x", "1.10.x"])
    );
    // A number that is left out comes before all numbers.
    assert!(is_release_branch_name("1..x"));
    assert_eq!(
        list_release_branches(&strings(&["1.0.x", "..x", "1..x", "0.7.x"]), &Vec::new()),
        strings(&["..x", "0.7.x", "1..x", "1.0.x"])
    );
    assert_eq!(
        list_tags(&strings(&["refs/tags/v1.10.0", "v1.9.0"])),
        strings(&["v1.9.0", "v1.10.0"])
    );
    assert_eq!(push_tag("v1"), "refs/tags/v1:refs/tags/v1");
}

#[test]
fn the_primary_branch_is_main_before_master() {
    assert_eq!(
        get_primary_branch(&strings(&["master", "main"]), &Vec::new()),
        Ok("main".to_string())
    );
    assert_eq!(
        get_primary_branch(&Vec::new(), &strings(&["origin/master"])),
        Ok("master".to_string())
    );
    assert!(get_primary_branch(&Vec::new(), &Vec::new()).is_err());
    assert_eq!(
        update_branch("b", true, true, true),
        Ok(BranchUpdate::Move)
    );
    // Commits that are not on origin are never dropped.
    assert_eq!(
        update_branch("b", true, true, false),
        Err(
            "Branch b has local commits that are not on origin. Push them or move them to \
             another branch, then try again."
                .to_string()
        )
    );
    assert_eq!(
        update_branch("b", false, true, false),
        Ok(BranchUpdate::Create)
    );
    assert_eq!(
        update_branch("b", true, false, false),
        Ok(BranchUpdate::Untracked)
    );
    assert_eq!(
        update_branch("b", false, false, false),
        Err("Branch b not found locally or on origin".to_string())
    );
}

#[test]
fn release_commits_are_left_out() {
    let all = vec![
        ("1".to_string(), "fix: a".to_string()),
        ("2".to_string(), "release: 1.0".to_string()),
    ];
    assert_eq!(collect_commits(&all), vec![all[0].clone()]);
}

#[test]
fn a_changelog_is_cut_short() {
    let long: String = (0..30u32).map(|i| format!("line {i}\n")).collect();
    let cut = get_changelog("v1", Some(&long));
    assert_eq!(cut.lines().count(), 20);
    assert_eq!(
        get_changelog("v1", None),
        "No changelog available for release v1"
    );
    assert_eq!(changelog_names()[0], "CHANGELOG.md");
}

#[test]
fn clones_are_modules() {
    let dir = |vendor: &str, module: &str, is_clone: bool| VendorDir {
        vendor: vendor.to_string(),
        module: module.to_string(),
        is_clone,
    };
    assert_eq!(
        list_vendor_modules(&vec![
            dir("z", "a", true),
            dir("a", "b", true),
            dir("a", "c", false)
        ]),
        strings(&["a/b", "z/a"])
    );
    assert_eq!(get_docker_user_id(1000, 33), "1000:33");
}

#[test]
fn a_worktree_goes_where_it_is_not_kept() {
    assert_eq!(create_worktree("w", None), WorktreeBranch::Any);
    assert_eq!(
        create_worktree("w", Some("w")),
        WorktreeBranch::Existing("w".to_string())
    );
    assert_eq!(
        create_worktree("w", Some("v")),
        WorktreeBranch::New {
            from: "v".to_string()
        }
    );
    let mut cleanup = WorktreeCleanup::new("/r", "/w", CleanupMode::Always);
    assert_eq!(
        cleanup.removal(true),
        Some(strings(&["-C", "/r", "worktree", "remove", "--force", "/w"]))
    );
    assert_eq!(cleanup.removal(false), None);
    cleanup.cancel();
    assert_eq!(cleanup.removal(true), None);
}
