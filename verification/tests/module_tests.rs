use docker_control::commands::module::composer::{
    branch_from_pin, ensure_psr4_autoload, installed_version, linked_modules, package_name,
    psr4_namespace, repo_entry_json, repo_key, validate_package_name, AutoloadFault, LinkedModule,
};
use docker_control::commands::module::flow::{
    begin_create, begin_link, begin_unlink, checkout_has_remote, checkout_pinned_branch,
    current_branch, link, link_pin, link_report, links_to, list_row, listed_modules,
    purge_checkout, rollback_create, rollback_link, rollback_unlink, tidy_modules_gitignore,
    unlink, unlink_inner, CreateStart, LinkAction, LinkEvent, LinkStart, LinkState, LinkUndo,
    ModuleFiles, Purge, UnlinkAction, UnlinkUndo, Unsaved,
};
use docker_control::commands::module::gitignore::{
    ensure_modules_gitignored, remove_modules_gitignore, GitignoreEdit, GITIGNORE_ENTRY,
    GITIGNORE_MARKER,
};
use docker_control::commands::module::report::{
    autoload_fault, branch_report, commit_scaffold, create_outcome, create_report, link_outcome,
    not_linked, require_linked, still_linked, unlink_report, FirstCommit,
};
use docker_control::commands::module::{
    execute, link_target, require_running_stack, resolve_link_target, resolve_unlink_target,
    ModuleOptions, ModulePromptProvider,
};
use docker_control::ui::Level;
use docker_control::utils::phpstorm::{
    exclude_from_phpstorm, register_phpstorm_git_root, remove_phpstorm_exclude,
    unregister_phpstorm_git_root,
};
use serde_json::Value;

fn strings(items: &[&str]) -> Vec<String> {
    items.iter().map(|s| s.to_string()).collect()
}

/// Canned answers, one field per prompt method.
#[derive(Default)]
struct MockPrompts {
    link: Option<String>,
    unlink: Option<String>,
    confirm_purge: bool,
}

impl ModulePromptProvider for MockPrompts {
    fn select_module_to_link(&self, modules: Vec<String>) -> Result<String, String> {
        Ok(self
            .link
            .clone()
            .unwrap_or_else(|| modules.first().cloned().unwrap_or_default()))
    }

    fn select_module_to_unlink(&self, modules: Vec<String>) -> Result<String, String> {
        Ok(self
            .unlink
            .clone()
            .unwrap_or_else(|| modules.first().cloned().unwrap_or_default()))
    }

    fn confirm_purge(&self, _module: &str) -> Result<bool, String> {
        Ok(self.confirm_purge)
    }
}

fn options(prompts: MockPrompts) -> ModuleOptions<MockPrompts> {
    ModuleOptions {
        prompt_provider: prompts,
        skip_composer: true,
    }
}

fn on_disk(vendor: bool, symlink: bool, git: bool, checkout: bool) -> ModuleFiles {
    ModuleFiles {
        vendor_exists: vendor,
        vendor_is_symlink: symlink,
        vendor_is_git: git,
        checkout_exists: checkout,
    }
}

fn linked(package: &str, version: Option<&str>) -> LinkedModule {
    LinkedModule {
        key: Some(format!("dc2-{}", package.replace('/', "-"))),
        package: package.to_string(),
        url: format!("modules/{package}"),
        version: version.map(str::to_string),
    }
}

fn removed(content: &str) -> String {
    match remove_modules_gitignore(content) {
        GitignoreEdit::Keep => content.to_string(),
        GitignoreEdit::Delete => panic!("the file would be deleted"),
        GitignoreEdit::Write(s) => s,
    }
}

#[test]
fn gitignore_entry_round_trips_byte_for_byte() {
    // Both trailing-newline states must survive add-then-remove exactly.
    for original in ["vendor/\ndata/cache", "vendor/\ndata/cache\n"] {
        let linked = ensure_modules_gitignored(original).unwrap();
        assert!(linked.contains(GITIGNORE_MARKER), "marker written");
        assert!(linked.contains(GITIGNORE_ENTRY), "entry written");
        assert_eq!(
            linked.ends_with('\n'),
            original.ends_with('\n'),
            "trailing-newline state must be preserved: {:?}",
            linked
        );

        assert_eq!(removed(&linked), original, "round trip must be exact");
    }
}

#[test]
fn psr4_namespace_studly_cases_each_segment() {
    assert_eq!(psr4_namespace("acme/widget"), "Acme\\Widget\\");
    assert_eq!(psr4_namespace("acme/my-widget"), "Acme\\MyWidget\\");
    assert_eq!(psr4_namespace("acme/my_widget"), "Acme\\MyWidget\\");
    assert_eq!(psr4_namespace("acme/my.widget"), "Acme\\MyWidget\\");
    assert_eq!(psr4_namespace("acme-corp/widget"), "AcmeCorp\\Widget\\");
    // Digits are not word breaks.
    assert_eq!(psr4_namespace("acme/oauth2"), "Acme\\Oauth2\\");
}

#[test]
fn package_names_composer_would_reject_are_rejected_first() {
    for good in [
        "acme/widget",
        "acme/my-widget",
        "acme/wid--get",
        "acme-corp/widget.js",
        "a/b",
        "acme2/widget3",
    ] {
        assert!(
            validate_package_name(good).is_ok(),
            "{} must be valid",
            good
        );
    }
    for bad in [
        "acme",
        "acme/",
        "/widget",
        "acme/widget/extra",
        "Acme/Widget",
        "acme/-widget",
        "acme/widget-",
        ".acme/widget",
        "acme/wid---get",
        "acme/wid get",
    ] {
        assert!(
            validate_package_name(bad).is_err(),
            "{} must be rejected",
            bad
        );
    }
}

#[test]
fn ensure_psr4_autoload_leaves_an_existing_mapping_alone() {
    let original = "{\n  \"name\": \"acme/widget\",\n  \"autoload\": {\"psr-4\": {\"Custom\\\\\": \"lib/\"}}\n}\n";
    assert_eq!(
        ensure_psr4_autoload(original, "acme/widget"),
        Ok(None),
        "composer init already wrote a mapping; it must be untouched"
    );
}

#[test]
fn ensure_psr4_autoload_adds_a_mapping_when_there_is_none() {
    let written = ensure_psr4_autoload("{\"name\": \"acme/my-widget\"}", "acme/my-widget")
        .unwrap()
        .unwrap();
    let value: Value = serde_json::from_str(&written).unwrap();
    assert_eq!(value["autoload"]["psr-4"]["Acme\\MyWidget\\"], "src/");
    assert_eq!(value["name"], "acme/my-widget", "the rest must survive");
}

#[test]
fn what_is_no_object_gets_no_mapping() {
    assert_eq!(
        ensure_psr4_autoload("{ not json", "a/b"),
        Err(AutoloadFault::NotJson)
    );
    assert_eq!(
        ensure_psr4_autoload("[]", "a/b"),
        Err(AutoloadFault::NotAnObject)
    );
    assert_eq!(
        ensure_psr4_autoload("{\"autoload\": 1}", "a/b"),
        Err(AutoloadFault::AutoloadNotAnObject)
    );
    assert_eq!(
        autoload_fault(&AutoloadFault::NotAnObject, "/m/composer.json"),
        Some("\"/m/composer.json\" is not a JSON object".to_string())
    );
    assert_eq!(
        autoload_fault(&AutoloadFault::AutoloadNotAnObject, "/m"),
        Some("\"autoload\" in \"/m\" is not a JSON object".to_string())
    );
    assert_eq!(autoload_fault(&AutoloadFault::NotJson, "/m"), None);
}

#[test]
fn rollback_create_restores_the_application_but_keeps_the_new_module() {
    assert_eq!(
        rollback_create(true),
        vec![
            LinkUndo::RestoreComposer,
            LinkUndo::RevertGitignore,
            LinkUndo::KeepModule
        ]
    );
    // The .gitignore that was created for the entry goes again.
    let created = ensure_modules_gitignored("").unwrap();
    assert_eq!(remove_modules_gitignore(&created), GitignoreEdit::Delete);
}

#[test]
fn gitignore_entry_is_added_once() {
    let once = ensure_modules_gitignored("vendor/\n").unwrap();
    assert!(
        ensure_modules_gitignored(&once).is_none(),
        "second call must report no change"
    );
    assert_eq!(once.matches(GITIGNORE_ENTRY).count(), 1);
    assert_eq!(once.matches(GITIGNORE_MARKER).count(), 1);
}

#[test]
fn an_unmarked_entry_is_never_removed() {
    // The project ignores modules/ itself. We must neither duplicate it nor,
    // later, delete it — that line is not ours.
    for original in [
        "vendor/\n/modules/\n",
        "vendor/\nmodules/\n",
        "vendor/\n/modules\n",
    ] {
        assert!(
            ensure_modules_gitignored(original).is_none(),
            "already ignored, nothing to add"
        );
        assert_eq!(removed(original), original, "the project's line must stay");
    }
}

#[test]
fn a_marker_whose_entry_was_edited_is_left_alone() {
    let edited = format!("vendor/\n{}\n/modules/subdir/\n", GITIGNORE_MARKER);
    assert_eq!(
        removed(&edited),
        edited,
        "only the exact marker+entry pair may be removed"
    );
}

#[test]
fn gitignore_is_created_when_absent() {
    let written = ensure_modules_gitignored("").unwrap();
    assert!(written.starts_with(GITIGNORE_MARKER), "got {:?}", written);
    assert!(written.contains(GITIGNORE_ENTRY));
}

#[test]
fn a_gitignore_we_created_is_removed_again_not_left_empty() {
    let written = ensure_modules_gitignored("").unwrap();
    assert_eq!(remove_modules_gitignore(&written), GitignoreEdit::Delete);
}

#[test]
fn tidy_only_fires_once_nothing_is_linked_and_no_checkout_remains() {
    // A leftover checkout still needs ignoring.
    assert!(!tidy_modules_gitignore(Some(0), true));

    // Still linked, even with no checkout on disk.
    let composer = "{\"repositories\":[{\"name\":\"dc2-acme-widget\",\"type\":\"path\",\"url\":\"modules/acme/widget\",
        \"options\":{\"symlink\":true,\"versions\":{\"acme/widget\":\"1.0.0\"}}}]}";
    let n: usize = linked_modules(composer).unwrap().len();
    assert_eq!(n, 1);
    assert!(!tidy_modules_gitignore(Some(n), false));
    assert!(!tidy_modules_gitignore(None, false));

    // Neither: now it goes.
    let n: usize = linked_modules("{\"name\":\"t/r\"}").unwrap().len();
    assert!(tidy_modules_gitignore(Some(n), false));
    let with_entry = ensure_modules_gitignored("vendor/\n").unwrap();
    assert_eq!(removed(&with_entry), "vendor/\n");
}

#[test]
fn branch_from_pin_handles_both_dev_forms() {
    assert_eq!(branch_from_pin("2.4.x-dev").as_deref(), Some("2.4.x"));
    assert_eq!(branch_from_pin("dev-main").as_deref(), Some("main"));
    assert_eq!(branch_from_pin("2.4.3"), None);
}

#[test]
fn repo_key_is_derived_from_the_module_path() {
    assert_eq!(repo_key("acme/widget"), "repositories.dc2-acme-widget");
}

#[test]
fn repo_entry_pins_the_package_version() {
    let json = repo_entry_json("acme/widget", "acme/widget", "2.4.x-dev");
    let value: Value = serde_json::from_str(&json).unwrap();

    assert_eq!(value["type"], "path");
    assert_eq!(value["url"], "modules/acme/widget");
    assert_eq!(value["options"]["symlink"], true);
    assert_eq!(value["options"]["versions"]["acme/widget"], "2.4.x-dev");
    // Left unset on purpose — canonical filtering keeps upstream from winning.
    assert!(value["options"].get("canonical").is_none());
}

#[test]
fn linked_module_strips_the_modules_prefix() {
    let m = LinkedModule {
        key: Some("dc2-acme-widget".to_string()),
        package: "acme/widget".to_string(),
        url: "modules/acme/widget".to_string(),
        version: None,
    };
    assert_eq!(m.relative_path(), "acme/widget");
}

#[test]
fn link_appends_modules_to_gitignore_exactly_once() {
    let gitignore = ensure_modules_gitignored("vendor/\n").unwrap();
    assert_eq!(
        gitignore.matches("/modules/").count(),
        1,
        "gitignore: {:?}",
        gitignore
    );
    assert!(gitignore.contains("vendor/"), "existing entries preserved");
    // Re-linking must not add a second entry.
    assert!(ensure_modules_gitignored(&gitignore).is_none());
}

#[test]
fn link_writes_an_ownership_marker_above_its_gitignore_entry() {
    // No trailing newline: the append must not rewrite the previous last line.
    let written = ensure_modules_gitignored("vendor/\ndata/cache").unwrap();
    assert!(
        written.contains("# docker-control"),
        "the entry needs an ownership marker so unlink can remove only its own: {:?}",
        written
    );
    let lines: Vec<&str> = written.lines().collect();
    let marker_at = lines
        .iter()
        .position(|l| l.starts_with("# docker-control"))
        .expect("marker present");
    assert_eq!(lines[marker_at + 1].trim(), "/modules/");
    assert!(!written.ends_with('\n'), "trailing-newline state preserved");
    assert!(
        written.starts_with("vendor/\ndata/cache\n"),
        "prior content kept"
    );
}

#[test]
fn unlink_never_removes_a_gitignore_entry_the_project_already_had() {
    let before = "vendor/\n/modules/\n";
    assert!(
        ensure_modules_gitignored(before).is_none(),
        "link must not touch an existing entry"
    );
    assert_eq!(
        removed(before),
        before,
        "unlink must not delete the project's own entry"
    );
}

#[test]
fn link_is_idempotent_once_the_path_repository_exists() {
    let all = vec![linked("test/module", Some("1.0.x-dev"))];
    let start = begin_link(&all, "test/module", on_disk(true, true, true, true));
    assert_eq!(start, LinkStart::AlreadyLinked(all[0].clone()));
    assert_eq!(
        link_outcome(&start, "/h/vendor/test/module", "/h/modules/test/module"),
        Ok(Some(
            "test/module is already linked for development (pinned 1.0.x-dev).".to_string()
        ))
    );
}

#[test]
fn link_rejects_an_unknown_module_and_changes_nothing() {
    let err = resolve_link_target(
        &strings(&["test/module"]),
        &Vec::new(),
        Some("nope/missing"),
        false,
        &options(MockPrompts::default()),
    )
    .unwrap_err();
    assert!(err.contains("not found"), "got: {}", err);
    assert!(link_target(&Vec::new(), &Vec::new(), None, false).is_err());
}

#[test]
fn link_requires_an_explicit_version_when_the_lock_has_none() {
    let installed = installed_version(None, "test/module").unwrap();
    let err = link_pin(None, installed.as_deref(), "test/module").unwrap_err();
    assert!(err.contains("--version"), "got: {}", err);

    // The explicit pin unblocks it.
    assert_eq!(
        link_pin(Some("1.0.x-dev"), installed.as_deref(), "test/module"),
        Ok("1.0.x-dev".to_string())
    );
}

#[test]
fn installed_version_reads_both_package_lists() {
    let lock = "{\"packages\": [{\"name\": \"test/module\", \"version\": \"1.0.x-dev\"}], \"packages-dev\": []}";
    assert_eq!(
        installed_version(Some(lock), "test/module")
            .unwrap()
            .as_deref(),
        Some("1.0.x-dev")
    );
    assert_eq!(installed_version(Some(lock), "other/thing").unwrap(), None);

    let lock = "{\"packages\": [], \"packages-dev\": [{\"name\": \"dev/only\", \"version\": \"3.1.0\"}]}";
    assert_eq!(
        installed_version(Some(lock), "dev/only").unwrap().as_deref(),
        Some("3.1.0")
    );
    assert!(installed_version(Some("{ not json"), "dev/only").is_err());
}

#[test]
fn linked_modules_matches_on_shape_not_on_key_name() {
    // Object form, a hand-written key, plus entries that must be ignored.
    let found = linked_modules(
        "{
    \"repositories\": {
        \"hand-written-name\": {
            \"type\": \"path\",
            \"url\": \"modules/test/module\",
            \"options\": { \"symlink\": true, \"versions\": { \"test/module\": \"1.0.x-dev\" } }
        },
        \"private\": { \"type\": \"composer\", \"url\": \"https://example.test/packages/\" },
        \"elsewhere\": { \"type\": \"path\", \"url\": \"../outside/thing\" }
    }
}",
    )
    .unwrap();
    assert_eq!(found.len(), 1);
    assert_eq!(found[0].key.as_deref(), Some("hand-written-name"));
    assert_eq!(found[0].package, "test/module");
    assert_eq!(found[0].version.as_deref(), Some("1.0.x-dev"));
    assert_eq!(found[0].relative_path(), "test/module");

    // Array form — what a real project looks like. The key must come from the
    // entry's `name`, which is what Composer writes and addresses entries by.
    let found = linked_modules(
        "{
    \"repositories\": [
        { \"type\": \"composer\", \"url\": \"https://example.test/packages/\" },
        { \"name\": \"dc2-test-module\", \"type\": \"path\", \"url\": \"modules/test/module\",
          \"options\": { \"symlink\": true, \"versions\": { \"test/module\": \"2.0.x-dev\" } } }
    ]
}",
    )
    .unwrap();
    assert_eq!(found.len(), 1);
    assert_eq!(found[0].key.as_deref(), Some("dc2-test-module"));
    assert_eq!(found[0].version.as_deref(), Some("2.0.x-dev"));

    // An array entry with no `name` is unaddressable, so the key must be None.
    let found = linked_modules(
        "{
    \"repositories\": [
        { \"type\": \"path\", \"url\": \"modules/test/module\",
          \"options\": { \"symlink\": true, \"versions\": { \"test/module\": \"2.0.x-dev\" } } }
    ]
}",
    )
    .unwrap();
    assert_eq!(found.len(), 1);
    assert_eq!(found[0].key, None);
}

#[test]
fn unlink_refuses_an_entry_composer_config_cannot_address() {
    let found = linked_modules(
        "{
    \"repositories\": [
        { \"type\": \"path\", \"url\": \"modules/test/module\",
          \"options\": { \"symlink\": true, \"versions\": { \"test/module\": \"1.0.x-dev\" } } }
    ]
}",
    )
    .unwrap();
    let target = resolve_unlink_target(
        &found,
        Some("test/module"),
        &options(MockPrompts::default()),
    )
    .unwrap();
    let err = begin_unlink(&target, true, true).unwrap_err();
    assert!(err.contains("\"name\""), "got: {}", err);
    assert!(unlink_inner(&target).is_err());
    assert_eq!(
        unlink(&target, true, false),
        Err("no addressable repositories key for test/module".to_string())
    );
}

#[test]
fn failed_link_leaves_no_empty_modules_directories() {
    // Without a version nothing has been moved yet, so nothing is left to undo but the files of
    // Composer.
    let lock = "{\"packages\": [], \"packages-dev\": []}";
    let installed = installed_version(Some(lock), "test/module").unwrap();
    assert!(link_pin(None, installed.as_deref(), "test/module").is_err());
    assert_eq!(
        rollback_link(&LinkState::new()),
        vec![LinkUndo::RestoreComposer]
    );
}

#[test]
fn unlink_errors_when_nothing_is_linked() {
    let err = require_linked(&Vec::new()).unwrap_err();
    assert!(err.contains("No modules"), "got: {}", err);
    assert!(require_linked(&vec![linked("a/b", None)]).is_ok());
}

#[test]
fn purge_keeps_a_dirty_checkout_when_the_prompt_is_declined() {
    let unsaved = Unsaved {
        dirty: true,
        unpushed: 0,
    };
    assert_eq!(purge_checkout(true, Some(unsaved), false), Purge::Ask);
    let prompts = MockPrompts {
        confirm_purge: false,
        ..MockPrompts::default()
    };
    assert_eq!(prompts.confirm_purge("test/module"), Ok(false));
    assert_eq!(purge_checkout(true, Some(unsaved), true), Purge::Remove);
}

#[test]
fn purge_removes_a_clean_checkout_without_prompting() {
    let clean = Unsaved {
        dirty: false,
        unpushed: 0,
    };
    assert_eq!(purge_checkout(true, Some(clean), false), Purge::Remove);
    assert_eq!(purge_checkout(false, Some(clean), false), Purge::Nothing);
}

#[test]
fn list_reports_linked_and_unlinked_modules() {
    let available = strings(&["b/unlinked", "test/module"]);
    let all = vec![
        linked("test/module", Some("1.0.x-dev")),
        linked("a/gone", None),
    ];
    assert_eq!(
        listed_modules(&available, &all),
        strings(&["a/gone", "b/unlinked", "test/module"])
    );
    assert_eq!(
        list_row("a/gone", true, None, "main"),
        format!("  ✓ {:34} {:8} {:14} main", "a/gone", "linked", "-")
    );
    assert_eq!(
        list_row("b/x", false, Some("2.0"), "detached"),
        format!("  ○ {:34} {:8} {:14} detached", "b/x", "vendor", "2.0")
    );
    assert_eq!(current_branch(Some("HEAD")), "detached");
    assert_eq!(current_branch(None), "-");
}

#[test]
fn execute_requires_an_application_composer_json() {
    let err = execute("/p/htdocs", false).unwrap_err();
    assert!(err.contains("composer.json"), "got: {}", err);
    assert!(execute("/p/htdocs", true).is_ok());
}

#[test]
fn create_rejects_an_invalid_package_name() {
    for bad in [
        "Acme/Widget", // Composer package names are lowercase
        "acme",
        "acme/widget/extra",
        "acme/-widget",
        "acme/widget-",
        "acme/wid---get",
    ] {
        let start = begin_create(&Vec::new(), bad, on_disk(false, false, false, false));
        let err = create_outcome(&start, bad, "/v", "/d").unwrap_err();
        assert!(
            err.contains("not a valid Composer package name"),
            "{}: {}",
            bad,
            err
        );
    }
}

#[test]
fn create_points_at_link_when_the_module_already_exists() {
    // Already a development checkout.
    let start = begin_create(
        &Vec::new(),
        "acme/widget",
        on_disk(false, false, false, true),
    );
    assert_eq!(start, CreateStart::CheckoutExists);
    let err = create_outcome(&start, "acme/widget", "/v", "/d").unwrap_err();
    assert!(err.contains("module link acme/widget"), "{}", err);

    // Already installed under vendor/.
    let start = begin_create(
        &Vec::new(),
        "test/module",
        on_disk(true, false, true, false),
    );
    let err = create_outcome(&start, "test/module", "/v", "/d").unwrap_err();
    assert!(err.contains("module link test/module"), "{}", err);
}

#[test]
fn create_refuses_a_module_that_is_already_linked() {
    let all = vec![linked("test/module", Some("1.0.x-dev"))];
    let start = begin_create(&all, "test/module", on_disk(true, true, true, true));
    let err = create_outcome(&start, "test/module", "/v", "/d").unwrap_err();
    assert!(err.contains("already linked"), "{}", err);
    let start = begin_create(&all, "/acme/new/", on_disk(false, false, false, false));
    assert_eq!(
        create_outcome(&start, "acme/new", "/v", "/d"),
        Ok("acme/new".to_string())
    );
}

#[test]
fn unlink_refuses_a_checkout_with_no_remote() {
    let target = linked("acme/widget", Some("dev-main"));
    let err = begin_unlink(&target, true, checkout_has_remote(Some(false))).unwrap_err();
    assert!(err.contains("no git remote"), "{}", err);
    assert!(err.contains("composer remove acme/widget"), "{}", err);
    assert!(begin_unlink(&target, true, checkout_has_remote(None)).is_ok());
}

#[test]
fn unlink_proceeds_when_the_checkout_is_gone() {
    let target = linked("acme/widget", Some("dev-main"));
    assert!(begin_unlink(&target, false, false).is_ok());
    let (unset, update) = unlink_inner(&target).unwrap();
    assert_eq!(
        unset,
        strings(&["config", "--unset", "repositories.dc2-acme-widget"])
    );
    assert_eq!(update, strings(&["update", "acme/widget", "--prefer-source"]));
}

#[test]
fn unlink_removes_the_link_before_composer_runs_and_verifies_the_result() {
    let target = linked("acme/widget", Some("dev-main"));
    let (unset, update) = unlink_inner(&target).unwrap();
    assert_eq!(
        unlink(&target, true, false).unwrap(),
        vec![
            UnlinkAction::RemoveSymlink,
            UnlinkAction::Composer(unset.clone()),
            UnlinkAction::Composer(update.clone()),
            UnlinkAction::VerifyUnlinked,
        ]
    );
    assert_eq!(
        unlink(&target, false, false).unwrap(),
        vec![
            UnlinkAction::Composer(unset),
            UnlinkAction::Composer(update.clone()),
            UnlinkAction::VerifyUnlinked,
        ]
    );
    assert_eq!(
        unlink(&target, true, true).unwrap(),
        vec![UnlinkAction::RemoveSymlink]
    );
    assert!(unlink(&target, false, true).unwrap().is_empty());

    for failed in [UnlinkAction::Composer(update), UnlinkAction::VerifyUnlinked] {
        assert_eq!(
            rollback_unlink(&failed, false),
            vec![UnlinkUndo::RestoreComposer, UnlinkUndo::Relink]
        );
        assert_eq!(
            rollback_unlink(&failed, true),
            vec![UnlinkUndo::RestoreComposer]
        );
    }
    assert!(rollback_unlink(&UnlinkAction::RemoveSymlink, true).is_empty());
}

const MAPPINGS: &str = "<?xml version=\"1.0\" encoding=\"UTF-8\"?>\n<project version=\"4\">\n  <component name=\"VcsDirectoryMappings\">\n    <mapping directory=\"$PROJECT_DIR$\" vcs=\"Git\" />\n  </component>\n</project>";

#[test]
fn link_registers_the_git_root_in_the_mappings_component_not_the_first_one() {
    let before = "<?xml version=\"1.0\" encoding=\"UTF-8\"?>\n\
         <project version=\"4\">\n\
         \x20 <component name=\"IssueNavigationConfiguration\">\n\
         \x20   <option name=\"links\" />\n\
         \x20 </component>\n\
         \x20 <component name=\"VcsDirectoryMappings\">\n\
         \x20   <mapping directory=\"$PROJECT_DIR$\" vcs=\"Git\" />\n\
         \x20 </component>\n\
         </project>";
    let vcs = register_phpstorm_git_root(
        true,
        Some(before),
        ".idea/vcs.xml",
        "htdocs/modules/test/module",
    )
    .unwrap()
    .unwrap();
    let mapping = "<mapping directory=\"$PROJECT_DIR$/htdocs/modules/test/module\" vcs=\"Git\" />";
    assert!(vcs.contains(mapping), "vcs.xml: {}", vcs);

    // The mapping sits after VcsDirectoryMappings opens, not inside the component before it.
    let mappings_open = vcs
        .find("<component name=\"VcsDirectoryMappings\">")
        .unwrap();
    let inserted = vcs.find(mapping).unwrap();
    assert!(
        inserted > mappings_open,
        "mapping landed in the wrong component: {}",
        vcs
    );
    // And the navigation component is untouched.
    assert!(
        vcs.contains("<option name=\"links\" />"),
        "vcs.xml: {}",
        vcs
    );
}

#[test]
fn link_registers_the_checkout_as_a_phpstorm_git_root() {
    let vcs = register_phpstorm_git_root(
        true,
        Some(MAPPINGS),
        ".idea/vcs.xml",
        "htdocs/modules/test/module",
    )
    .unwrap()
    .unwrap();
    assert!(
        vcs.contains(
            "<mapping directory=\"$PROJECT_DIR$/htdocs/modules/test/module\" vcs=\"Git\" />"
        ),
        "vcs.xml: {}",
        vcs
    );
    // The pre-existing project mapping survives.
    assert!(vcs.contains("<mapping directory=\"$PROJECT_DIR$\" vcs=\"Git\" />"));
    assert_eq!(vcs.matches("VcsDirectoryMappings").count(), 1);

    // Unlink removes it again.
    let vcs = unregister_phpstorm_git_root(Some(&vcs), "htdocs/modules/test/module").unwrap();
    assert!(!vcs.contains("modules/test/module"), "vcs.xml: {}", vcs);
    assert!(vcs.contains("<mapping directory=\"$PROJECT_DIR$\" vcs=\"Git\" />"));
    assert_eq!(vcs, MAPPINGS);
}

#[test]
fn phpstorm_registration_is_idempotent_and_optional() {
    // No .idea directory at all: both directions are silent no-ops.
    assert_eq!(
        register_phpstorm_git_root(false, None, ".idea/vcs.xml", "htdocs/modules/a/b"),
        Ok(None)
    );
    assert!(unregister_phpstorm_git_root(None, "htdocs/modules/a/b").is_none());

    // .idea exists but has no vcs.xml: it gets created with the mapping.
    let path = ".idea/vcs.xml";
    let vcs = register_phpstorm_git_root(true, None, path, "htdocs/modules/a/b")
        .unwrap()
        .unwrap();
    assert!(vcs.contains("VcsDirectoryMappings"));
    assert!(vcs.contains("$PROJECT_DIR$/htdocs/modules/a/b"));

    // Registering twice adds one mapping.
    assert_eq!(
        register_phpstorm_git_root(true, Some(&vcs), path, "htdocs/modules/a/b"),
        Ok(None)
    );
    assert_eq!(vcs.matches("htdocs/modules/a/b").count(), 1);

    // Unregistering an absent mapping is a no-op.
    assert!(unregister_phpstorm_git_root(Some(&vcs), "htdocs/modules/x/y").is_none());

    let vcs = unregister_phpstorm_git_root(Some(&vcs), "htdocs/modules/a/b").unwrap();
    assert!(!vcs.contains("htdocs/modules/a/b"));
    assert!(
        vcs.contains("</project>"),
        "file stays well-formed: {}",
        vcs
    );
}

#[test]
fn mappings_without_an_end_are_refused() {
    let open = "<project>\n  <component name=\"VcsDirectoryMappings\">\n</project>";
    assert_eq!(
        register_phpstorm_git_root(true, Some(open), ".idea/vcs.xml", "a"),
        Err("Malformed \".idea/vcs.xml\": VcsDirectoryMappings has no closing tag".to_string())
    );
    // A file without the component gets one.
    let with = register_phpstorm_git_root(true, Some("<project>\n</project>"), ".idea/vcs.xml", "a")
        .unwrap()
        .unwrap();
    assert_eq!(
        with,
        "<project>\n  <component name=\"VcsDirectoryMappings\">\n    <mapping directory=\"$PROJECT_DIR$/a\" vcs=\"Git\" />\n  </component>\n</project>"
    );
}

#[test]
fn a_folder_is_excluded_once() {
    let module = "<module>\n  <component name=\"NewModuleRootManager\">\n    <content url=\"file://$MODULE_DIR$\">\n    </content>\n  </component>\n</module>\n";
    let with = exclude_from_phpstorm(module, "backup_1").unwrap();
    assert!(with.contains("backup_1"));
    assert!(exclude_from_phpstorm(&with, "backup_1").is_none());
    let without = remove_phpstorm_exclude(&with, "backup_1").unwrap();
    assert!(!without.contains("backup_1"));
    assert!(remove_phpstorm_exclude(&without, "backup_1").is_none());
}

#[test]
fn linking_moves_ignores_and_has_composer_update() {
    let steps = link(
        false,
        "acme/widget",
        "acme/widget",
        "dev-main",
        &strings(&["--no-scripts"]),
        false,
    );
    assert_eq!(steps[0], LinkAction::MoveCheckout);
    assert!(steps.contains(&LinkAction::CheckoutBranch("main".to_string())));
    assert!(steps.contains(&LinkAction::IgnoreModules));
    assert!(steps.contains(&LinkAction::Composer(strings(&[
        "update",
        "acme/widget",
        "--no-scripts"
    ]))));
    assert_eq!(steps[steps.len() - 1], LinkAction::VerifyLink);
}

#[test]
fn a_rollback_undoes_what_was_done_and_no_more() {
    let mut state = LinkState::new();
    state.record(LinkEvent::Moved);
    state.record(LinkEvent::OnBranch(Some("abc".to_string())));
    state.record(LinkEvent::Ignored(true));
    assert_eq!(
        rollback_link(&state),
        vec![
            LinkUndo::RestoreComposer,
            LinkUndo::RestoreHead("abc".to_string()),
            LinkUndo::MoveBack,
            LinkUndo::RevertGitignore
        ]
    );
}

#[test]
fn a_checkout_on_its_branch_is_not_moved() {
    assert_eq!(checkout_pinned_branch("dev-main", Some("main")), None);
    assert_eq!(
        checkout_pinned_branch("dev-main", Some("HEAD")),
        Some("main".to_string())
    );
    assert_eq!(checkout_pinned_branch("1.2.3", None), None);
}

#[test]
fn a_link_has_to_lead_to_the_checkout() {
    assert!(links_to(true, Some("/h/modules/a"), Some("/h/modules/a")));
    assert!(!links_to(true, Some("/elsewhere"), Some("/h/modules/a")));
    assert!(!links_to(false, Some("/h/modules/a"), Some("/h/modules/a")));
    assert!(!links_to(true, None, None));
}

#[test]
fn linking_is_refused_where_it_would_lose_a_copy() {
    let start = begin_link(&Vec::new(), "a/b", on_disk(true, false, true, true));
    assert_eq!(start, LinkStart::BothExist);
    assert_eq!(
        link_outcome(&start, "/v", "/d"),
        Err("Both \"/v\" and \"/d\" exist as real directories. Remove whichever copy is stale before linking.".to_string())
    );
    let start = begin_link(&Vec::new(), "a/b", on_disk(true, false, false, false));
    assert_eq!(start, LinkStart::NotARepository);
    assert!(link_outcome(&start, "/v", "/d")
        .unwrap_err()
        .starts_with("\"/v\" is not a git repository"));
    let start = begin_link(&Vec::new(), "a/b", on_disk(true, false, true, false));
    assert_eq!(start, LinkStart::Proceed { reuse: false });
    assert_eq!(link_outcome(&start, "/v", "/d"), Ok(None));
}

#[test]
fn what_was_done_is_told() {
    assert_eq!(link_report("a/b", "a/b")[0].text, "a/b is linked for development.");
    assert_eq!(create_report("a/b", "a/b").len(), 4);
    assert_eq!(unlink_report("a/b", "a/b", true).len(), 3);
    assert_eq!(unlink_report("a/b", "a/b", false).len(), 2);
    assert_eq!(commit_scaffold(&FirstCommit::Own).text, "  initial commit on main");
    assert_eq!(
        commit_scaffold(&FirstCommit::Substitute).level,
        Level::Warning
    );
    assert!(commit_scaffold(&FirstCommit::Failed("no".to_string()))
        .text
        .contains("(no)"));
    assert_eq!(branch_report("main", true).text, "  checked out branch main");
    assert_eq!(branch_report("main", false).level, Level::Warning);
    assert!(not_linked("/v", "/d", "a/b").contains("`repositories.dc2-a-b`"));
    assert!(still_linked("/v", &linked("a/b", None)).contains("modules/a/b"));
}

#[test]
fn composer_needs_running_containers() {
    assert!(require_running_stack(true, false).is_ok());
    assert!(require_running_stack(false, true).is_ok());
    assert!(require_running_stack(false, false).is_err());
}

#[test]
fn the_declared_name_is_taken_in_lower_case() {
    assert_eq!(package_name(Some("{\"name\": \"Acme/Widget\"}"), "x/y"), "acme/widget");
    assert_eq!(package_name(Some("{ not json"), "x/y"), "x/y");
    assert_eq!(package_name(None, "x/y"), "x/y");
}
