use docker_control::commands::deploy::archive::{
    archive_result, create_deployment_archive, pack_args, php_version, ssh_auth_port, staging_dir,
};
use docker_control::commands::deploy::notify::send_teams_notification;
use docker_control::commands::deploy::rollout::{
    advance, maintenance_choice, perform_deployment, prepare, settle, Environment, Event,
    ModeChoice, Planned, Rollout, Step,
};
use docker_control::commands::deploy::{
    after_archive, after_rollout, check_release, execute, find_environment, find_hook_file,
    get_env_var, get_project_name, hook_candidates, offer_releases, release_dir, DeployAction,
};
use docker_control::ssh::{copy_result, copy_ssh, exec_ssh, ssh_result};
use docker_control::table::Table;
use serde_json::Value;

const RELEASE: &str = "20240326153000_v1.0.0";

fn strings(items: &[&str]) -> Vec<String> {
    items.iter().map(|s| s.to_string()).collect()
}

fn environment() -> Environment {
    Environment {
        user: "deploy-user".to_string(),
        domain: "example.com".to_string(),
        service_root: Some("/var/www/my-app".to_string()),
        console_command: None,
        shared_directories: None,
        shared_files: None,
        cops_integration: None,
        teams_webhook_url: None,
    }
}

fn rollout(env: Environment, yes: bool) -> Rollout {
    Rollout {
        env,
        archive_path: format!("/p/deployments/{RELEASE}.7z"),
        release_dir: RELEASE.to_string(),
        maintenance_mode: "hard".to_string(),
        yes,
    }
}

/// Runs a rollout against a server on which the commands fail that `fails` picks; a hook writes its
/// name into the log. The log holds the calls, and the result how it ended.
fn run(c: &Rollout, fails: &dyn Fn(&str) -> bool) -> (Vec<String>, Result<(), String>) {
    let mut log: Vec<String> = Vec::new();
    let mut queue: Vec<Planned> = prepare(c);
    let mut performed = false;
    loop {
        if queue.is_empty() {
            if performed {
                return (log, Ok(()));
            }
            performed = true;
            let mode = match maintenance_choice(c) {
                ModeChoice::Given(m) => m,
                ModeChoice::Ask { soft_first } => {
                    if soft_first {
                        "soft".to_string()
                    } else {
                        "hard".to_string()
                    }
                }
            };
            queue = perform_deployment(c, &mode);
        }
        let event = match &queue[0].step {
            Step::Stop(e) => return (log, Err(e.clone())),
            Step::Run(cmd) | Step::Attempt(cmd) | Step::Check { command: cmd, .. } => {
                let args = exec_ssh(&c.env.user, &c.env.domain, cmd);
                log.push(format!("ssh {}", args.join(" ")));
                match ssh_result(!fails(cmd), "exit status: 1") {
                    Ok(()) => Event::Done,
                    Err(e) => Event::Failed(e),
                }
            }
            Step::Copy { from, to } => {
                let args = copy_ssh(&c.env.user, &c.env.domain, from, to);
                log.push(format!("scp {}", args.join(" ")));
                Event::Done
            }
            Step::Hook(name) => {
                log.push(format!(
                    "hook {name} {} {} {}",
                    c.release_dir,
                    c.console_new(),
                    c.env.service_root.clone().unwrap_or_default()
                ));
                Event::Done
            }
            Step::Offer { .. } => Event::Answered(true),
            Step::Insist => Event::Answered(false),
            Step::Say(_) | Step::Warn(_) | Step::LoadHooks | Step::Pause => Event::Done,
        };
        queue = advance(c, queue, &event);
    }
}

fn place(log: &[String], text: &str) -> usize {
    log.iter()
        .position(|l| l.contains(text))
        .unwrap_or_else(|| panic!("{text} not found in {log:?}"))
}

#[test]
fn test_successful_deploy() {
    let (log, end) = run(&rollout(environment(), true), &|_| false);
    assert_eq!(end, Ok(()));
    let log_content = log.join("\n");
    assert!(log_content.contains("ssh -o LogLevel=QUIET -o StrictHostKeyChecking=accept-new -tA deploy-user@example.com -- mkdir -p '/var/www/my-app/releases'"));
    assert!(log_content.contains("scp -o StrictHostKeyChecking=accept-new -A"));
    assert!(log_content.contains("v1.0.0.7z deploy-user@example.com:/var/www/my-app/releases/"));
    assert!(log_content.contains("ssh -o LogLevel=QUIET -o StrictHostKeyChecking=accept-new -tA deploy-user@example.com -- mkdir -p '/var/www/my-app/releases/"));
    assert!(log_content.contains("7z x -o'/var/www/my-app/releases/"));
    assert!(log_content.contains("rm -f '/var/www/my-app/releases/"));
    assert!(log_content.contains("shared:maintenance hard"));
    assert!(log_content.contains("migrations:migrate --no-interaction"));
}

#[test]
fn test_failed_deploy_ssh_error() {
    let (log, end) = run(&rollout(environment(), true), &|_| true);
    let error = end.unwrap_err();
    assert!(error.starts_with("SSH command failed"), "{error}");
    assert_eq!(log.len(), 1, "nothing follows the failure: {log:?}");
}

#[test]
fn test_failed_deploy_cops_error_non_interactive() {
    let mut env = environment();
    env.cops_integration = Some(true);
    let c = rollout(env, true);
    let (log, end) = run(&c, &|cmd| cmd.contains("cops:outdated"));
    let error = end.unwrap_err();
    assert!(error.contains("COPS outdated check failed"), "{error}");
    // Maintenance ends on both releases, and the release does not become the live one.
    assert!(log[log.len() - 2].contains(&format!("{} shared:maintenance off", c.console_current())));
    assert!(log[log.len() - 1].contains(&format!("{} shared:maintenance off", c.console_new())));
    assert!(!log.iter().any(|l| l.contains("/current' && ln -s")));
}

#[test]
fn test_deploy_hooks() {
    let (log, _) = run(&rollout(environment(), true), &|_| false);
    let log_content = log.join("\n");
    assert!(log_content.contains("hook pre_deploy "));
    assert!(log_content.contains("hook post_deploy "));
    assert!(log_content.contains("hook done_deploy "));
    // Order should be: release_dir console_new server_root
    assert!(log_content.contains("_v1.0.0 php /var/www/my-app/releases/"));
    assert!(log_content.contains("/var/www/my-app"));
}

#[test]
fn test_deploy_bugfixes() {
    let mut env = environment();
    env.console_command = Some("php bin/console".to_string());
    env.shared_directories = Some(strings(&["uploads"]));
    env.shared_files = Some(strings(&[".env.local"]));
    let (log, end) = run(&rollout(env, true), &|_| false);
    assert_eq!(end, Ok(()));
    let log_content = log.join("\n");

    assert!(
        !log_content.contains("php php bin/console"),
        "Double php prefix detected"
    );
    assert!(
        !log_content.contains("public/index.php"),
        "Incorrect console_current command"
    );
    assert!(
        log_content.contains("bin/console shared:maintenance"),
        "Correct console command not found"
    );

    let shared = place(&log, "mkdir -p '/var/www/my-app/shared/uploads'");
    let switch = place(&log, "rm -f '/var/www/my-app/current' && ln -s 'releases/");
    assert!(
        shared < switch,
        "Shared paths should be handled BEFORE symlink update"
    );
    assert!(
        !log[shared..]
            .iter()
            .any(|l| l.contains("/var/www/my-app/current/uploads")),
        "Shared paths should NOT use 'current' before symlink update"
    );
}

#[test]
fn test_deploy_order_full_verification() {
    let mut env = environment();
    env.shared_directories = Some(strings(&["uploads"]));
    let (log, end) = run(&rollout(env, true), &|_| false);
    assert_eq!(end, Ok(()));
    let order = [
        place(&log, "mkdir -p '/var/www/my-app/shared/uploads'"),
        place(&log, "shared:maintenance hard"),
        place(&log, "hook pre_deploy"),
        place(&log, "migrations:migrate"),
        place(&log, "hook post_deploy"),
        place(&log, "rm -f '/var/www/my-app/current' && ln -s 'releases/"),
    ];
    for pair in order.windows(2) {
        assert!(pair[0] < pair[1], "{order:?} in {log:?}");
    }
}

#[test]
fn test_execute_hook() {
    let c = rollout(environment(), true);
    let hook = |name: &str| Planned {
        step: Step::Hook(name.to_string()),
        stage: prepare(&c)[0].stage,
    };
    // A script without the function is no failure; one that calls what is not there is.
    let missing = Event::Missing {
        function: "pre_deploy (&str, &str)".to_string(),
        error: "Function not found".to_string(),
    };
    assert!(settle(&c, &hook("pre_deploy"), &missing).is_empty());
    let other = Event::Missing {
        function: "no_such_thing".to_string(),
        error: "Function not found: no_such_thing".to_string(),
    };
    assert_eq!(
        settle(&c, &hook("pre_deploy"), &other)[0].step,
        Step::Stop("Hook pre_deploy failed: Function not found: no_such_thing".to_string())
    );
    assert_eq!(
        settle(&c, &hook("pre_deploy"), &Event::Failed("no".to_string()))[0].step,
        Step::Stop("Hook pre_deploy failed: no".to_string())
    );
    let load = Planned {
        step: Step::LoadHooks,
        stage: prepare(&c)[0].stage,
    };
    assert_eq!(
        settle(&c, &load, &Event::Failed("bad".to_string()))[0].step,
        Step::Stop("Failed to compile Rhai script: bad".to_string())
    );
}

#[test]
fn an_attended_rollout_asks_and_an_unattended_one_does_not() {
    let asks = |steps: &[Planned]| {
        steps
            .iter()
            .any(|p| matches!(p.step, Step::Offer { .. } | Step::Pause | Step::Insist))
    };
    assert!(asks(&perform_deployment(&rollout(environment(), false), "soft")));
    assert!(!asks(&perform_deployment(&rollout(environment(), true), "soft")));
    let mut c = rollout(environment(), false);
    c.maintenance_mode = "soft".to_string();
    assert_eq!(
        maintenance_choice(&c),
        ModeChoice::Ask { soft_first: true }
    );
}

#[test]
fn a_failed_check_can_be_insisted_on() {
    let mut env = environment();
    env.cops_integration = Some(true);
    let (log, end) = run(&rollout(env, false), &|cmd| cmd.contains("cops:permissions"));
    assert_eq!(
        end,
        Err("Deployment aborted due to COPS integration failure".to_string())
    );
    assert!(log[log.len() - 1].contains("shared:maintenance off"));
}

#[test]
fn the_archive_is_made_before_and_removed_after() {
    let mut env = environment();
    assert_eq!(
        execute("/p", &env, RELEASE, "log", false),
        vec![
            DeployAction::Say("Deploying to deploy-user@example.com...".to_string()),
            DeployAction::MakeDir("/p/deployments".to_string()),
            DeployAction::Archive(format!("/p/deployments/{RELEASE}.7z")),
        ]
    );
    assert_eq!(
        after_archive(&env, "/a.7z", None),
        vec![DeployAction::Rollout("/a.7z".to_string())]
    );
    env.teams_webhook_url = Some("https://hook".to_string());
    assert_eq!(
        after_archive(&env, "/a.7z", Some("no")),
        vec![
            DeployAction::Notify {
                status: "failed".to_string(),
                text: "Archive creation failed: no".to_string()
            },
            DeployAction::Fail("no".to_string()),
        ]
    );
    let end = after_rollout(&env, "/a.7z", "log", None);
    assert_eq!(end[0], DeployAction::RemoveFile("/a.7z".to_string()));
    assert_eq!(
        end[2],
        DeployAction::Succeed("Deployment completed successfully!".to_string())
    );
    assert_eq!(
        after_rollout(&env, "/a.7z", "log", Some("no"))[0],
        DeployAction::RemoveFile("/a.7z".to_string())
    );
}

#[test]
fn settings_are_read_without_their_quotes() {
    let env = "# c\nPROJECTNAME = \"my app\"\nPHP_VERSION='8.5'\nPHP_VERSION=7\n";
    assert_eq!(get_env_var(Some(env), "PHP_VERSION"), Some("8.5".to_string()));
    assert_eq!(get_env_var(Some(env), "NOPE"), None);
    assert_eq!(get_env_var(None, "PHP_VERSION"), None);
    assert_eq!(get_project_name(Some(env), "/srv/x"), "my app");
    assert_eq!(get_project_name(None, "/srv/x/"), "x");
    assert_eq!(php_version(Some(env)), "8.5");
    assert_eq!(php_version(None), "8.2");
    assert_eq!(ssh_auth_port(Some("h:1"), None), "h:1");
    assert_eq!(
        ssh_auth_port(None, Some("SSH_AUTH_PORT=h:2")),
        "h:2"
    );
    assert_eq!(ssh_auth_port(None, None), "host.docker.internal:2222");
}

#[test]
fn the_archive_is_built_in_a_container() {
    assert_eq!(staging_dir("/p", "r"), "/p/deployments/temp_r");
    let args = create_deployment_archive("/p", "/s", "1000:1000", "8.2", "h:1");
    assert!(args.contains(&"fduarte42/docker-php:8.2".to_string()));
    assert!(args.contains(&"SSH_AUTH_PORT=h:1".to_string()));
    assert!(args.contains(&"/s:/var/www/html".to_string()));
    assert_eq!(pack_args("/a.7z", "/s"), strings(&["a", "/a.7z", "/s/."]));
    assert!(archive_result(true, true).is_ok());
    assert_eq!(
        archive_result(false, true),
        Err("Composer install failed".to_string())
    );
    assert_eq!(
        archive_result(true, false),
        Err("7z compression failed".to_string())
    );
}

#[test]
fn a_notice_is_a_card_with_the_facts() {
    let body = send_teams_notification("shop", "prod", "v1", "failed", "it \"broke\"\n");
    let value: Value = serde_json::from_str(&body).unwrap();
    assert_eq!(value["@type"], "MessageCard");
    assert_eq!(value["themeColor"], "FF0000");
    assert_eq!(value["summary"], "Deployment failed - shop [prod]");
    assert_eq!(value["sections"][0]["text"], "it \"broke\"\n");
    assert_eq!(value["sections"][0]["facts"][2]["value"], "v1");
}

#[test]
fn hooks_of_the_application_come_first() {
    let both = hook_candidates("/p", "prod");
    assert_eq!(
        both,
        strings(&[
            "/p/htdocs/.docker-control/deployment-scripts/prod.rhai",
            "/p/deployments/scripts/prod.rhai"
        ])
    );
    assert_eq!(find_hook_file("/p", "prod", &both), Some(both[0].clone()));
    assert_eq!(find_hook_file("/p", "prod", &Vec::new()), None);
}

#[test]
fn what_is_not_there_cannot_be_deployed() {
    let mut table: Table<Environment> = Table::new();
    table.insert("prod".to_string(), environment());
    assert!(find_environment(&table, "prod").is_ok());
    assert_eq!(
        find_environment(&table, "stage"),
        Err("Environment 'stage' not found in config".to_string())
    );
    assert!(offer_releases(Vec::new()).is_err());
    assert_eq!(release_dir("20240326153000", "v1.0.0"), RELEASE);
    for release in ["v1.0.0", "release/1.0", "v1..2", "..v1"] {
        assert_eq!(check_release(release), Ok(()));
    }
    for release in ["../../../../tmp/x", "..", "v1/../..", "v1/.."] {
        assert_eq!(
            check_release(release),
            Err(format!(
                "Invalid release '{}': must not lead out of the releases directory",
                release
            ))
        );
    }
    assert_eq!(
        copy_result(false, "exit status: 1"),
        Err("SCP copy failed with status exit status: 1".to_string())
    );
}

#[test]
fn the_removal_of_old_releases_keeps_the_paths_in_quotes() {
    let plain = rollout(environment(), true);
    let (log, _) = run(&plain, &|_| false);
    let removal = log.iter().find(|l| l.contains("xargs rm -rf")).unwrap();
    assert!(removal.ends_with(
        "bash -c 'ls -d1t '\\''/var/www/my-app/releases'\\''/* 2>/dev/null | grep -v \
         $(readlink -f '\\''/var/www/my-app/current'\\'' 2>/dev/null || echo \"none\") | grep -E \
         '\\''/var/www/my-app/releases/[0-9]{14}_.+$'\\'' | tail -n +6 | xargs rm -rf \
         2>/dev/null || true'"
    ));
}
