use docker_control::commands::cleanup_backups::find_backups;
use docker_control::commands::create_script::{
    self, escape_double_quoted, script_content, HTDOCS_LOCATION, ROOT_LOCATION,
};
use docker_control::commands::custom::{
    command_name, find_script_path, may_override, script_candidates,
};
use docker_control::commands::deploy::archive::php_version;
use docker_control::commands::deploy::{get_env_var, get_project_name};
use docker_control::commands::doctor;
use docker_control::commands::init::{
    self, env_content, find_free_port, sanitize_name, InitStart, InitStep,
};
use docker_control::commands::install_claude;
use docker_control::commands::install_deps;
use docker_control::commands::migrate::{
    self, capistrano_copies, entries_to_remove, migrate_capistrano, rebuild, restore_env,
    restored_items, write_capistrano_dockerfile, BackupItem, MigrateStep, CAPISTRANO_DOCKERFILE,
};
use docker_control::commands::show_running::{self, ProjectLabels};
use docker_control::commands::status::{
    self, count_containers, get_summary, Container, DockerCheck, GitState, TemplateCheck,
};
use docker_control::commands::update::{
    apply_template_update, backup_name, begin_update, decide_update, finish_template_update,
    is_excluded, keeps_every_file, merge_gitignore, report_outcome, report_pending, sidecar_target, sync_all,
    sync_files, ApplyPlan, ConflictReply, ConflictResolution, InteractiveConflictPrompt,
    InteractiveUpdatePromptProvider, UnknownPolicy, UpdateAction, UpdateStart,
};
use docker_control::commands::upgrade::{
    self, asks_for_updates, check_outdated, maybe_offer_self_upgrade_with, UpgradePromptProvider,
};
use docker_control::commands::user_manual::{self, opener_result, windows_path, Opener};
use docker_control::template::seeds::{difference, gitignore_entries};
use docker_control::template::summary::Summary;
use docker_control::template::Change;
use docker_control::ui::Level;
use docker_control::utils::dependencies::{
    check_dependencies, check_version, command_dependencies, dependencies, install_report,
    maybe_offer_brew_install, parse_version, retain_missing, startup_dependencies, BrewOffer,
};
use docker_control::utils::forwarding::{
    ensure_forwarding, restart_calls, restart_php_containers, ContainerDirs, Forwarding,
};
use docker_control::utils::platform::Platform;
use docker_control::utils::sudo;

fn strings(items: &[&str]) -> Vec<String> {
    items.iter().map(|s| s.to_string()).collect()
}

#[test]
fn a_new_script_holds_the_description_as_it_was_given() {
    assert_eq!(escape_double_quoted("a\"b$c`d\\e"), "a\\\"b\\$c\\`d\\\\e");
    let script = script_content("x", "say \"hi\"", true);
    assert!(script.contains("echo \"say \\\"hi\\\"\""));
    assert!(script.contains("_override_"));
    assert!(!script_content("x", "d", false).contains("_override_"));
    let made = create_script::execute("/p", "x", "d", HTDOCS_LOCATION, false, &Vec::new()).unwrap();
    assert_eq!(made.path, "/p/htdocs/.docker-control/control-scripts/x.sh");
    let made = create_script::execute("/p", "x", "d", ROOT_LOCATION, false, &Vec::new()).unwrap();
    assert_eq!(made.path, "/p/control-scripts/x.sh");
    assert_eq!(
        create_script::execute("/p", "x", "d", ROOT_LOCATION, false, &vec![made.path]),
        Err("Command 'x' already exists in \"/p/control-scripts\"".to_string())
    );
    assert!(create_script::execute("/p", "a/b", "d", ROOT_LOCATION, false, &Vec::new()).is_err());
}

#[test]
fn a_directory_that_is_managed_is_not_initialised_again() {
    assert_eq!(init::execute(false, false), InitStart::Go);
    assert_eq!(init::execute(true, true), InitStart::AlreadyManaged);
    assert_eq!(init::execute(true, false), InitStart::Ask);
    assert_eq!(init::steps(true)[1], InitStep::RenameGitignore);
    assert!(!init::steps(false).contains(&InitStep::RenameGitignore));
    assert!(init::steps(false).contains(&InitStep::RecordTemplate));
}

#[test]
fn a_project_name_has_no_separators() {
    assert_eq!(sanitize_name("My-Shop/V1.0: a,b\\c"), "my_shop_v1_0__a_b_c");
    assert_eq!(
        env_content("shop", 33060, "8.2"),
        "BASE_DOMAIN=shop.lvh.me\nENVIRONMENT=development\nDB_HOST_PORT=33060\nPHP_VERSION=8.2\nPROJECTNAME=shop\nXDEBUG_IP=host.docker.internal\nIDE_KEY=shop.lvh.me\n"
    );
    assert_eq!(find_free_port(10, 20, &vec![5u16, 12, 11]), Ok(11));
    assert_eq!(
        find_free_port(10, 20, &vec![21u16]),
        Err("No free ports found in range 10-20".to_string())
    );
    assert_eq!(find_free_port(65535, 65535, &vec![65535u16]), Ok(65535));
}

#[test]
fn the_installation_goes_on_step_by_step() {
    let steps = install_claude::execute("Some Tool", "https://tool.example/install.sh");
    assert_eq!(steps.len(), 3);
    assert_eq!(
        steps[0].args,
        strings(&["-c", "curl -fsSL https://tool.example/install.sh | bash"])
    );
    assert_eq!(
        install_claude::step_result(&steps[0], true, ""),
        Ok("Some Tool installed successfully.".to_string())
    );
    assert_eq!(
        install_claude::step_result(&steps[2], false, "exit status: 1"),
        Err("Failed to enable codebase-memory-mcp auto-indexing (status exit status: 1)".to_string())
    );
    assert!(install_deps::execute(true, false).is_err());
    let on_macos = install_deps::execute(true, true).unwrap();
    assert!(!on_macos.iter().any(|d| d.name == "setfacl"));
    let on_linux = install_deps::execute(false, true).unwrap();
    assert!(on_linux.iter().any(|d| d.name == "setfacl"));
}

#[test]
fn a_migration_backs_up_before_it_removes() {
    assert!(migrate::execute(false, "backup_1").is_err());
    let steps = migrate::execute(true, "backup_1").unwrap();
    let backup = steps
        .iter()
        .position(|s| matches!(s, MigrateStep::MakeBackup(_)))
        .unwrap();
    let empty = steps
        .iter()
        .position(|s| matches!(s, MigrateStep::Empty))
        .unwrap();
    assert!(backup < empty);
    assert_eq!(
        entries_to_remove(&strings(&["a", "backup_1", "b"]), "backup_1"),
        strings(&["a", "b"])
    );
    assert_eq!(
        restored_items(".tool"),
        strings(&["htdocs", ".idea", ".tool"])
    );
    let item = BackupItem {
        name: "htdocs".to_string(),
        is_dir: true,
    };
    let steps = rebuild("backup_1", "/t", &vec![item]);
    assert!(steps.contains(&MigrateStep::Say("Restoring htdocs...".to_string())));
    assert!(steps.contains(&MigrateStep::RecordTemplate));
    assert_eq!(
        capistrano_copies("backup_1").0.args,
        strings(&[
            "rsync",
            "-a",
            "backup_1/docker-compose/build/capistrano/",
            "build/capistrano/"
        ])
    );
}

#[test]
fn old_settings_go_into_the_new_environment() {
    let dist = "# c\nBASE_DOMAIN=example\nDB_HOST_PORT=1\nNEW=x\n\n";
    let old = "BASE_DOMAIN = mine\nMYSQL_PORT=33\nMARIADB_PORT=44\nGONE=y\n";
    assert_eq!(
        restore_env(dist, old),
        "# c\nBASE_DOMAIN=mine\nDB_HOST_PORT=44\nNEW=x\n\n"
    );
}

#[test]
fn the_service_of_capistrano_is_carried_over() {
    let compose = "services:\n  php:\n    image: x\n  capistrano:\n    build: docker-compose/build/capistrano\n    volumes:\n      - ./container/capistrano/ssh:/x\n  db:\n    image: y\n";
    assert_eq!(
        migrate_capistrano(compose),
        Some("services:\n  capistrano:\n    build: build/capistrano\n    volumes:\n      - ./volumes/capistrano/ssh:/x\n".to_string())
    );
    assert_eq!(migrate_capistrano("services:\n  php:\n"), None);
    assert!(write_capistrano_dockerfile(true, Some("old")));
    assert!(!write_capistrano_dockerfile(true, Some(CAPISTRANO_DOCKERFILE)));
    assert!(!write_capistrano_dockerfile(false, None));
}

#[test]
fn running_projects_are_listed_once() {
    let labels = |project: &str, dir: &str| ProjectLabels {
        project: Some(project.to_string()),
        plugin_dir: None,
        compose_dir: Some(dir.to_string()),
    };
    assert_eq!(
        show_running::execute(&vec![labels("b", "/b"), labels("a", "/a"), labels("b", "/b")]).len(),
        2
    );
}

#[test]
fn the_doctor_tells_what_is_wrong() {
    let (told, end) = doctor::execute(true, "", false);
    assert!(end.is_ok());
    assert!(told.iter().all(|m| m.level != Level::Warning));
    let many: String = (0..60u32).map(|i| format!("/var/www/{i}\n")).collect();
    let (told, end) = doctor::execute(true, &many, false);
    assert_eq!(end, Err("permission problems detected".to_string()));
    assert!(told.iter().any(|m| m.text.contains("... and 10 more")));
    let (_, end) = doctor::execute(false, "", true);
    assert_eq!(end, Err("permission problems remain after --fix".to_string()));
    assert!(doctor::ensure_setfacl_available(true, "/usr/bin/setfacl").is_ok());
    assert!(doctor::ensure_setfacl_available(true, "").is_err());
    assert!(doctor::ensure_setfacl_available(false, "x").is_err());
    let search = doctor::find_inaccessible_paths("/p");
    assert!(search.contains(&"-xtype".to_string()));
}

#[test]
fn the_status_counts_the_projects_containers() {
    let container = |dir: &str, running: bool| Container {
        plugin_dir: None,
        compose_dir: Some(dir.to_string()),
        running,
    };
    let all = vec![
        container("/p/", true),
        container("/p", false),
        container("/q", true),
    ];
    assert_eq!(count_containers(&all, "/p"), (2, 1));
    let git = GitState::Branch {
        name: "main".to_string(),
        dirty: true,
    };
    assert_eq!(
        get_summary(true, &git, Some(&all), "/p"),
        "✓ Managed | Git: main* | Docker: 1/2 up"
    );
    assert_eq!(
        get_summary(false, &GitState::Missing, None, "/p"),
        "✗ Unmanaged | Git: None | Docker: error"
    );
    let told = status::execute(
        "/p",
        true,
        &git,
        &TemplateCheck::NoTemplate,
        None,
        &DockerCheck::Containers(all),
    );
    assert!(told
        .iter()
        .any(|m| m.level == Level::Success && m.text.contains("1/2 containers running")));
    let told = status::execute(
        "/p",
        false,
        &GitState::Unknown,
        &TemplateCheck::Failed("no".to_string()),
        Some(&strings(&["prod"])),
        &DockerCheck::NoConnection,
    );
    assert!(!told.iter().any(|m| m.text.contains("Project Template")));
    assert!(told.iter().any(|m| m.text.contains("Environments: prod")));
}

struct Answer(bool);

impl UpgradePromptProvider for Answer {
    fn confirm_upgrade(&self) -> bool {
        self.0
    }
}

#[test]
fn an_upgrade_is_offered_where_there_is_one() {
    assert_eq!(check_outdated("{\"formulae\":[{}]}"), Some(true));
    assert_eq!(check_outdated("{\"formulae\":[]}"), Some(false));
    assert_eq!(check_outdated("{}"), None);
    assert_eq!(check_outdated("no json"), None);
    assert!(maybe_offer_self_upgrade_with(true, Some(true), &Answer(true)));
    assert!(!maybe_offer_self_upgrade_with(true, Some(true), &Answer(false)));
    assert!(!maybe_offer_self_upgrade_with(false, Some(true), &Answer(true)));
    assert!(!maybe_offer_self_upgrade_with(true, None, &Answer(true)));
    assert!(asks_for_updates(false, true, &Platform::Macos));
    assert!(!asks_for_updates(false, true, &Platform::Wsl));
    assert_eq!(
        upgrade::upgrade_result(false, "exit status: 1"),
        Err("brew upgrade failed with status exit status: 1".to_string())
    );
}

#[test]
fn the_manual_opens_as_the_system_opens_things() {
    assert_eq!(
        user_manual::execute("macos", None, "/m.pdf"),
        Opener::Program {
            program: "open".to_string(),
            args: strings(&["/m.pdf"])
        }
    );
    assert_eq!(
        user_manual::execute("linux", Some("Microsoft"), "/m.pdf"),
        Opener::Wsl
    );
    assert_eq!(
        user_manual::execute("linux", Some("Linux"), "/m.pdf"),
        Opener::Program {
            program: "xdg-open".to_string(),
            args: strings(&["/m.pdf"])
        }
    );
    assert_eq!(windows_path("/m.pdf", Some(" C:\\m.pdf\n")), Ok("C:\\m.pdf".to_string()));
    assert!(windows_path("/m.pdf", Some(" ")).is_err());
    assert!(opener_result("open", "/m.pdf", false, false, "").is_err());
    assert!(opener_result("open", "/m.pdf", true, true, "").is_ok());
}

#[test]
fn merged_ignore_rules_are_all_there_once() {
    let merged = merge_gitignore("logs\n# mine\nhtdocs\n", "htdocs\nreleases\n");
    assert_eq!(merged, "# mine\nhtdocs\nlogs\nreleases");
    let dist = gitignore_entries("htdocs\nreleases\n");
    assert!(difference(&dist, &gitignore_entries(&merged)).is_empty());
    assert_eq!(merge_gitignore(&merged, "htdocs\nreleases\n"), merged);
}

#[test]
fn what_one_command_writes_another_reads() {
    let content = env_content("shop", 33060, "8.2-oci");
    assert_eq!(
        get_env_var(Some(&content), "PROJECTNAME"),
        Some("shop".to_string())
    );
    assert_eq!(get_project_name(Some(&content), "/p/other"), "shop");
    assert_eq!(php_version(Some(&content)), "8.2-oci");
    assert_eq!(
        get_env_var(Some(&env_content("\"shop\"", 33060, "8.2")), "PROJECTNAME"),
        Some("shop".to_string())
    );

    let found = find_backups(&vec![backup_name(1700000000)]);
    assert_eq!(found.len(), 1);
    assert_eq!(found[0].timestamp, 1700000000);

    assert!(may_override(Some(&script_content("x", "d", true))));
    for location in [HTDOCS_LOCATION, ROOT_LOCATION] {
        let made = create_script::execute("/p", "x", "d", location, true, &Vec::new()).unwrap();
        assert!(script_candidates("/p", "x").contains(&made.path));
        assert_eq!(
            find_script_path("/p", "x", &vec![made.path.clone()]),
            Some(made.path)
        );
    }
    assert_eq!(command_name("x.sh"), Some("x".to_string()));
    let made = create_script::execute("/p", "x.sh", "d", ROOT_LOCATION, true, &Vec::new()).unwrap();
    assert!(!script_candidates("/p", "x.sh").contains(&made.path));
}

#[test]
fn an_update_stops_backs_up_and_starts_again() {
    let plan = ApplyPlan {
        take: strings(&["compose.yml"]),
        sidecars: strings(&["config/php.ini"]),
        kept: strings(&["config/php.ini"]),
    };
    let actions = apply_template_update(false, &plan, true);
    assert_eq!(actions[0], UpdateAction::StopProject);
    assert!(actions.contains(&UpdateAction::Backup));
    assert!(actions.contains(&UpdateAction::SyncFiles(strings(&["compose.yml"]))));
    assert!(actions.contains(&UpdateAction::WriteSidecar("config/php.ini".to_string())));
    assert!(apply_template_update(true, &plan, false).contains(&UpdateAction::SyncAll));
    let last = finish_template_update(false, &plan, true, true);
    assert!(last.contains(&UpdateAction::RebuildImage));
    assert_eq!(last[last.len() - 1], UpdateAction::StartProject);
    assert!(!finish_template_update(false, &plan, false, false).contains(&UpdateAction::StartProject));
    assert_eq!(sidecar_target("/p", "config/php.ini"), "/p/config/php.ini.dist");
    assert_eq!(backup_name(42), "backup_42");
}

#[test]
fn keeping_every_local_file_only_records_the_template() {
    let plan = ApplyPlan {
        take: Vec::new(),
        sidecars: Vec::new(),
        kept: strings(&["compose.yml"]),
    };
    assert!(keeps_every_file(false, &plan));
    for was_running in [false, true] {
        assert_eq!(
            apply_template_update(false, &plan, was_running),
            vec![UpdateAction::Stamp]
        );
        for changed in [false, true] {
            assert!(finish_template_update(false, &plan, changed, was_running).is_empty());
        }
    }
    assert!(!keeps_every_file(true, &plan));
    assert_eq!(
        apply_template_update(true, &plan, false),
        vec![
            UpdateAction::Backup,
            UpdateAction::SyncAll,
            UpdateAction::RefreshDockerfile,
        ]
    );
}

#[test]
fn files_are_copied_relative_to_the_template() {
    let args = sync_files("/t", "/p", &strings(&["a/b", "c"])).unwrap();
    assert!(args.contains(&"/t/./a/b".to_string()));
    assert!(args.contains(&"/t/./c".to_string()));
    assert!(sync_files("/t", "/p", &Vec::new()).is_none());
    assert!(sync_all("/t", "/p").iter().any(|a| a.contains("/p")));
}

#[test]
fn backups_leave_out_what_matches() {
    assert!(is_excluded("backup_12", &strings(&["backup_*"])));
    assert!(!is_excluded("my_backup_12", &strings(&["backup_*"])));
    assert!(is_excluded("volumes", &strings(&["volumes"])));
}

#[test]
fn an_update_without_changes_only_records() {
    assert_eq!(
        begin_update(false, &Vec::new()),
        UpdateStart::UpToDate { restamp: false }
    );
    assert_eq!(begin_update(true, &Vec::new()), UpdateStart::Plan);
    assert_eq!(
        begin_update(false, &vec![Change::SafeUpdate("a".into())]),
        UpdateStart::Plan
    );
    assert_eq!(decide_update(false, true, true), Ok(true));
    assert!(decide_update(false, false, true).is_err());
    let summary = Summary::from_changes(&vec![Change::EnvKeys(strings(&["K"]))]);
    assert!(report_pending(&summary).is_some());
    assert!(report_pending(&Summary::from_changes(&Vec::new())).is_none());
    let told = report_outcome(false, &ApplyPlan::default(), &summary);
    assert!(told
        .iter()
        .any(|m| m.text == "Add these keys to .env yourself (values are project-specific): K"));
}

#[test]
fn a_prompt_that_was_cancelled_overwrites_nothing() {
    let prompt = InteractiveConflictPrompt;
    assert_eq!(
        prompt.reply(None),
        ConflictReply::Resolve(ConflictResolution::KeepMine)
    );
    assert_eq!(
        prompt.reply(Some("take the template version")),
        ConflictReply::Resolve(ConflictResolution::TakeTheirs)
    );
    assert_eq!(prompt.reply(Some("show diff")), ConflictReply::ShowDiff);
    assert_eq!(prompt.policy(None), UnknownPolicy::KeepMine);
    assert!(!InteractiveUpdatePromptProvider.answer(None));
    assert!(InteractiveUpdatePromptProvider.answer(Some(true)));
}

#[test]
fn versions_are_read_from_what_programs_print() {
    assert_eq!(
        parse_version("Docker version 27.3.1, build ce12230"),
        Some((27, 3))
    );
    assert_eq!(parse_version("Docker Compose version v2.29.7"), Some((2, 29)));
    assert_eq!(parse_version("none"), None);
    assert_eq!(
        parse_version("Docker version 20.10, build 75fc5c9"),
        Some((20, 10))
    );
    assert_eq!(
        parse_version("Docker version 19.03, build 2d0083d"),
        Some((19, 3))
    );
    assert_eq!(parse_version("podman 3 (Docker 24.0-ce)"), Some((24, 0)));
    assert_eq!(parse_version("Docker version 20."), None);
    assert_eq!(parse_version("Docker version 4294967296.1"), None);
    assert!(check_dependencies(&Vec::new(), Some("Docker version 19.03, build 2d0083d"), None)
        .1
        .is_err());
    assert!(check_version("Docker", (20, 10), (20, 10)).is_ok());
    assert_eq!(
        check_version("Docker", (19, 9), (20, 10)),
        Err("Docker 19.9 is below the minimum required version 20.10. Please upgrade.".to_string())
    );
}

#[test]
fn only_critical_programs_are_looked_for_at_a_start() {
    assert!(startup_dependencies(false, false).iter().all(|d| d.critical));
    assert!(command_dependencies("deploy", false, false)
        .iter()
        .any(|d| d.command == "7z"));
    assert!(command_dependencies("start", true, false).is_empty());
    for command in ["start", "restart", "setacl", "doctor"] {
        let wanted = command_dependencies(command, false, false);
        let names: Vec<&str> = wanted.iter().map(|d| d.command.as_str()).collect();
        assert_eq!(names, ["setfacl", "getfacl"]);
    }
    let missing: Vec<_> = dependencies()
        .into_iter()
        .filter(|d| d.command == "git" || d.command == "ssh")
        .collect();
    let (told, end) = check_dependencies(&missing, None, None);
    assert!(end.is_err());
    assert!(told.iter().any(|m| m.level == Level::Critical));
    let (_, end) = check_dependencies(&Vec::new(), Some("Docker version 19.1"), None);
    assert!(end.is_err());
    let (told, end) = check_dependencies(&Vec::new(), Some("what"), Some("v2.29.7"));
    assert!(end.is_ok());
    assert_eq!(told[0].text, "Could not parse Docker version from: what");
    match maybe_offer_brew_install(&missing, &Platform::Macos, true, true) {
        BrewOffer::Ask { formulas, .. } => assert_eq!(formulas, strings(&["git"])),
        other => panic!("unexpected: {:?}", other),
    }
    assert!(matches!(
        maybe_offer_brew_install(&missing, &Platform::Macos, true, false),
        BrewOffer::Warn(_)
    ));
    assert!(matches!(
        maybe_offer_brew_install(&missing, &Platform::Wsl, true, true),
        BrewOffer::Nothing
    ));
    assert_eq!(retain_missing(&missing, &Vec::new()).len(), 1);
    assert!(install_report(&strings(&["git"]), false, &Vec::new()).is_err());
    assert!(install_report(&strings(&["git"]), true, &Vec::new()).is_ok());
}

#[test]
fn the_agent_is_forwarded_where_nobody_listens_yet() {
    let (what, told) = ensure_forwarding(true, "127.0.0.1", 2222, Some("/s"));
    assert!(what == Forwarding::Open && told.is_empty());
    let (what, _) = ensure_forwarding(false, "127.0.0.1", 2222, Some("/s"));
    assert_eq!(
        what,
        Forwarding::Start {
            address: "127.0.0.1:2222".to_string(),
            socket: "/s".to_string()
        }
    );
    let (what, told) = ensure_forwarding(false, "127.0.0.1", 2222, None);
    assert_eq!(what, Forwarding::NoAgent);
    assert_eq!(told[0].level, Level::Warning);
}

#[test]
fn a_project_is_restarted_once() {
    let dirs = |dir: &str| ContainerDirs {
        plugin: Some(dir.to_string()),
        compose: None,
    };
    let existing = strings(&["/a", "/a/compose.yml", "/b"]);
    assert_eq!(
        restart_php_containers(&vec![dirs("/a"), dirs("/a"), dirs("/b"), dirs("")], &existing),
        strings(&["/a"])
    );
    let (down, up) = restart_calls("/a");
    assert_eq!(down[down.len() - 1], "down");
    assert_eq!(up[up.len() - 2..], strings(&["up", "-d"])[..]);
}

#[test]
fn sudo_tells_what_failed() {
    let args = strings(&["rm", "x"]);
    assert_eq!(sudo::run(&args).args, args);
    assert_eq!(
        sudo::run_in(Some("/p"), &args).current_dir,
        Some("/p".to_string())
    );
    assert!(sudo::result(&args, true, true, "").is_ok());
    assert_eq!(
        sudo::result(&args, false, false, ""),
        Err("Failed to execute sudo rm x".to_string())
    );
    assert_eq!(
        sudo::result(&args, true, false, "exit status: 1"),
        Err("sudo rm x failed with status exit status: 1".to_string())
    );
}
