use docker_control::assets::AssetManager;
use docker_control::assets::share_candidate;
use docker_control::commands::custom::CustomCommand;
use docker_control::dispatch::{
    agent_request, check_managed, command_requires_managed_project, custom_help,
    execute_external_script, maybe_offer_image_pull, maybe_report_template_drift, metadata,
    needs_agent, needs_dependency_check, opening, project_dir_argument, start_failed, tasks,
    wants_debug, AgentRequest, Builtin, Opening, ScriptRun, Task,
};
use docker_control::docker::ImageStatus;
use docker_control::template::summary::Summary;
use docker_control::template::Change;
use serde_json::Value;

fn strings(items: &[&str]) -> Vec<String> {
    items.iter().map(|s| s.to_string()).collect()
}

const ALL: [Builtin; 30] = [
    Builtin::AddDeployConfig,
    Builtin::Build,
    Builtin::Console,
    Builtin::CleanupBackups,
    Builtin::CreateControlScript,
    Builtin::Deploy,
    Builtin::Doctor,
    Builtin::Init,
    Builtin::InstallClaude,
    Builtin::InstallDeps,
    Builtin::Merge,
    Builtin::Module,
    Builtin::Pull,
    Builtin::PullIngress,
    Builtin::Release,
    Builtin::Restart,
    Builtin::RestartIngress,
    Builtin::SetAcl,
    Builtin::ShowRunning,
    Builtin::Start,
    Builtin::StartIngress,
    Builtin::Status,
    Builtin::StatusIngress,
    Builtin::Stop,
    Builtin::StopIngress,
    Builtin::TrustCa,
    Builtin::Migrate,
    Builtin::Update,
    Builtin::Upgrade,
    Builtin::UserManual,
];

#[test]
fn a_command_checks_the_project_if_and_only_if_it_is_listed() {
    for b in ALL {
        let todo = tasks(b, &Vec::new());
        assert_eq!(
            command_requires_managed_project(&b.name()),
            todo.contains(&Task::CheckManaged),
            "{b:?}"
        );
        assert_eq!(
            command_requires_managed_project(&b.name()),
            todo[0] == Task::CheckManaged
        );
    }
}

#[test]
fn commands_are_named_apart() {
    let mut names: Vec<String> = ALL.iter().map(|b| b.name()).collect();
    assert!(names.contains(&"create-control-script".to_string()));
    assert!(!names.iter().any(|n| n.contains('_')));
    names.sort();
    names.dedup();
    assert_eq!(names.len(), ALL.len());
}

#[test]
fn arguments_go_on_to_compose() {
    assert_eq!(
        tasks(Builtin::Build, &strings(&["--no-cache"])),
        vec![
            Task::CheckManaged,
            Task::Compose(strings(&["build", "--no-cache"]))
        ]
    );
}

#[test]
fn what_the_tool_is_asked_stands_before_the_separator() {
    assert_eq!(
        agent_request(&strings(&["dc", "--stop-ssh-agent", "--start-ssh-agent"])),
        AgentRequest::Stop
    );
    assert_eq!(
        agent_request(&strings(&["dc", "console", "--", "--stop-ssh-agent"])),
        AgentRequest::Nothing
    );
    assert!(!needs_agent(&strings(&["dc", "upgrade"]), false));
    assert!(needs_agent(&strings(&["dc", "start"]), false));
    assert!(needs_agent(&strings(&["dc", "console", "--", "--help"]), false));
    assert!(!needs_agent(&strings(&["dc", "start"]), true));
    assert!(!needs_agent(&strings(&["dc", &Builtin::InstallClaude.name()]), false));
    assert!(!needs_dependency_check(&strings(&["dc", "install-deps"]), false));
    assert!(!needs_dependency_check(
        &strings(&["dc", &Builtin::InstallClaude.name()]),
        false
    ));
    assert!(needs_dependency_check(&strings(&["dc", "start"]), false));
    assert!(wants_debug(&strings(&["dc", "--debug"])));
    assert!(!wants_debug(&strings(&["dc", "--", "--debug"])));
}

#[test]
fn a_call_opens_with_what_it_is_for() {
    let flags = strings(&["--debug"]);
    assert_eq!(
        opening(&strings(&["dc", "--debug", "--version"]), &flags),
        Opening::Version
    );
    assert_eq!(
        opening(&strings(&["dc", "docker-cli-plugin-metadata"]), &flags),
        Opening::Metadata
    );
    assert_eq!(opening(&strings(&["dc", "help"]), &flags), Opening::Help);
    assert_eq!(
        opening(&strings(&["dc", "console", "--help"]), &flags),
        Opening::Command
    );
    let value: Value = serde_json::from_str(&metadata("2.0.0")).unwrap();
    assert_eq!(value["SchemaVersion"], "0.1.0");
    assert_eq!(value["Version"], "2.0.0");
}

#[test]
fn the_project_directory_may_be_given() {
    assert_eq!(
        project_dir_argument(&strings(&["dc", "--dir", "/p", "start"])),
        Some("/p".to_string())
    );
    assert_eq!(
        project_dir_argument(&strings(&["dc", "-d=/p"])),
        Some("/p".to_string())
    );
    assert_eq!(
        project_dir_argument(&strings(&["dc", "--dir=/p"])),
        Some("/p".to_string())
    );
    assert_eq!(
        project_dir_argument(&strings(&["dc", "console", "--", "-d", "/p"])),
        None
    );
}

#[test]
fn a_second_agent_is_no_failure() {
    assert_eq!(
        start_failed(Some(7), "locked"),
        Ok("SSH agent daemon is already running (PID: 7).".to_string())
    );
    assert_eq!(
        start_failed(None, "locked"),
        Err("Failed to start SSH agent daemon: locked".to_string())
    );
}

#[test]
fn the_help_names_what_the_project_has() {
    assert!(custom_help(false, Vec::new()).is_empty());
    let own = CustomCommand {
        name: "x".to_string(),
        description: "y".to_string(),
    };
    let parts = custom_help(true, vec![own]);
    assert_eq!(parts[0].heading, "Migration Command:");
    assert_eq!(parts[1].heading, "Custom Commands:");
}

#[test]
fn a_project_is_managed_by_its_marker() {
    for marker in [
        "/p/.managed-by-docker-control-plugin",
        "/p/.managed-by-docker-control",
    ] {
        assert!(check_managed("/p", &strings(&[marker])).is_ok());
    }
    assert_eq!(
        check_managed("/p", &Vec::new()),
        Err("\"/p\" not managed by docker control plugin".to_string())
    );
}

#[test]
fn an_unknown_command_may_be_a_script() {
    let existing = strings(&["/p/control-scripts/x.sh"]);
    assert_eq!(
        execute_external_script("/p", &strings(&["x", "a"]), &existing),
        Ok(ScriptRun::Run {
            path: existing[0].clone(),
            args: strings(&["a"])
        })
    );
    assert_eq!(
        execute_external_script("/p", &strings(&["x", "--help"]), &existing),
        Ok(ScriptRun::Help(existing[0].clone()))
    );
    assert_eq!(
        execute_external_script("/p", &strings(&["y"]), &existing),
        Err("Unknown command: y".to_string())
    );
    assert_eq!(
        execute_external_script("/p", &Vec::new(), &existing),
        Err("No command provided".to_string())
    );
    assert!(execute_external_script("/p", &strings(&["../x"]), &existing).is_err());
}

#[test]
fn drift_is_noticed_but_not_unknown_files() {
    let drift = Summary::from_changes(&vec![Change::SafeUpdate("a".into())]);
    assert_eq!(
        maybe_report_template_drift(&drift, Some("1.0"), "2.0"),
        Some("The project template has changed since 1.0 (now 2.0).".to_string())
    );
    assert_eq!(
        maybe_report_template_drift(&drift, Some("2.0"), "2.0"),
        Some("The project template has changed since your last sync (2.0).".to_string())
    );
    let unknown = Summary::from_changes(&vec![Change::Unknown("a".into())]);
    assert_eq!(maybe_report_template_drift(&unknown, None, "2.0"), None);
}

#[test]
fn outdated_images_are_named() {
    let image = |name: &str, outdated: bool| ImageStatus {
        image: name.to_string(),
        outdated,
    };
    let told = maybe_offer_image_pull(&vec![image("a", false), image("b", true)]);
    assert_eq!(told.len(), 2);
    assert_eq!(told[1].text, "  - b");
    assert!(maybe_offer_image_pull(&vec![image("a", false)]).is_empty());
}

#[test]
fn assets_of_a_package_come_before_those_of_the_tool() {
    assert_eq!(
        share_candidate("/opt/bin/docker-control"),
        Some("/opt/share/docker-control".to_string())
    );
    assert_eq!(share_candidate("docker-control"), None);
    let existing = strings(&["/s", "/s/template"]);
    let packaged = AssetManager::new("/c", Some("/s"), &existing);
    assert_eq!(packaged.get_template_dir(&existing), "/s/template");
    assert_eq!(packaged.get_ingress_dir(&existing), "/c/ingress");
    assert!(!packaged.ensure_assets(None, "2.0.0"));
    let own = AssetManager::new("/c", Some("/gone"), &existing);
    assert!(own.share_dir.is_none());
    assert!(own.ensure_assets(None, "2.0.0"));
    assert!(own.ensure_assets(Some("1.0.0"), "2.0.0"));
    assert!(!own.ensure_assets(Some("2.0.0\n"), "2.0.0"));
    assert_eq!(
        own.ensure_manual(&existing, false),
        ("/c/USER-MANUAL.pdf".to_string(), true)
    );
    assert!(!own.ensure_manual(&existing, true).1);
}
