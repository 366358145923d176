use docker_control::commands::custom::{
    self, ClashChoice, ClashPromptProvider, CustomCommand, InteractiveClashPromptProvider,
};

const DECLARES: &str =
    "#!/bin/bash\nif [[ \"$1\" == \"_override_\" ]]; then\n    echo \"true\"\n    exit 0\nfi\nexit 0\n";
const PLAIN: &str = "#!/bin/bash\nexit 0\n";

fn strings(items: &[&str]) -> Vec<String> {
    items.iter().map(|s| s.to_string()).collect()
}

#[test]
fn find_script_path_finds_root_control_script() {
    let existing = strings(&["/p/control-scripts/build.sh"]);
    let found = custom::find_script_path("/p", "build", &existing).unwrap();
    assert_eq!(found, "/p/control-scripts/build.sh");
}

#[test]
fn find_script_path_finds_htdocs_control_script() {
    let existing = strings(&["/p/htdocs/.docker-control/control-scripts/build.sh"]);
    let found = custom::find_script_path("/p", "build", &existing).unwrap();
    assert_eq!(found, "/p/htdocs/.docker-control/control-scripts/build.sh");
}

#[test]
fn find_script_path_prefers_htdocs_over_root() {
    let existing = strings(&[
        "/p/control-scripts/build.sh",
        "/p/htdocs/.docker-control/control-scripts/build.sh",
    ]);
    let found = custom::find_script_path("/p", "build", &existing).unwrap();
    assert_eq!(found, "/p/htdocs/.docker-control/control-scripts/build.sh");
}

#[test]
fn find_script_path_returns_none_when_missing() {
    assert!(custom::find_script_path("/p", "build", &Vec::new()).is_none());
}

#[test]
fn get_override_true_when_script_echoes_true() {
    assert!(custom::get_override(Some(DECLARES), Some("true\n")));
}

#[test]
fn get_override_false_when_block_absent() {
    assert!(!custom::get_override(Some(PLAIN), Some("")));
}

#[test]
fn get_override_false_when_script_exits_nonzero() {
    // A script that fails has no answer, whatever it printed.
    let fails =
        "#!/bin/bash\nif [[ \"$1\" == \"_override_\" ]]; then\n    echo \"true\"\n    exit 1\nfi\nexit 0\n";
    assert!(!custom::get_override(Some(fails), None));
}

#[test]
fn get_override_never_executes_script_lacking_the_override_marker() {
    let touches = "#!/bin/bash\ntouch \"/p/ran.marker\"\nexit 0\n";
    assert!(
        !custom::may_override(Some(touches)),
        "get_override must not run a script that never mentions `_override_`"
    );
    assert!(!custom::get_override(Some(touches), Some("true")));
    assert!(custom::may_override(Some(DECLARES)));
    assert!(!custom::may_override(None));
}

struct MockClashPromptProvider {
    choice: ClashChoice,
}

impl ClashPromptProvider for MockClashPromptProvider {
    fn resolve(&self, _command_name: &str) -> Result<ClashChoice, String> {
        Ok(self.choice)
    }
}

struct PanicIfCalledPromptProvider;

impl ClashPromptProvider for PanicIfCalledPromptProvider {
    fn resolve(&self, _command_name: &str) -> Result<ClashChoice, String> {
        panic!("prompt should not be invoked when the script declares _override_");
    }
}

#[test]
fn resolve_clash_returns_none_when_no_script_exists() {
    let result = custom::resolve_clash(
        "/p",
        "build",
        &Vec::new(),
        &Vec::new(),
        &PanicIfCalledPromptProvider,
    )
    .unwrap();
    assert!(result.is_none());
}

#[test]
fn resolve_clash_returns_script_path_when_override_true_without_prompting() {
    let existing = strings(&["/p/control-scripts/build.sh"]);
    let result = custom::resolve_clash(
        "/p",
        "build",
        &existing,
        &existing,
        &PanicIfCalledPromptProvider,
    )
    .unwrap();
    assert_eq!(result, Some("/p/control-scripts/build.sh".to_string()));
}

#[test]
fn resolve_clash_prompts_and_returns_none_on_builtin_choice() {
    let existing = strings(&["/p/control-scripts/build.sh"]);
    let provider = MockClashPromptProvider {
        choice: ClashChoice::Builtin,
    };
    let result = custom::resolve_clash("/p", "build", &existing, &Vec::new(), &provider).unwrap();
    assert!(result.is_none());
}

#[test]
fn resolve_clash_prompts_and_returns_script_path_on_custom_choice() {
    let existing = strings(&["/p/control-scripts/build.sh"]);
    let provider = MockClashPromptProvider {
        choice: ClashChoice::Custom,
    };
    let result = custom::resolve_clash("/p", "build", &existing, &Vec::new(), &provider).unwrap();
    assert_eq!(result, Some("/p/control-scripts/build.sh".to_string()));
}

#[test]
fn split_leading_subcommand_plain_case() {
    let args = strings(&["docker-control", "build", "--no-cache"]);
    let (name, trailing) = custom::split_leading_subcommand(&args, &Vec::new()).unwrap();
    assert_eq!(name, "build");
    assert_eq!(trailing, vec!["--no-cache".to_string()]);
}

#[test]
fn split_leading_subcommand_skips_dir_flag_space_form() {
    let args = strings(&[
        "docker-control",
        "--dir",
        "/tmp/proj",
        "build",
        "--no-cache",
    ]);
    let (name, trailing) = custom::split_leading_subcommand(&args, &Vec::new()).unwrap();
    assert_eq!(name, "build");
    assert_eq!(trailing, vec!["--no-cache".to_string()]);
}

#[test]
fn split_leading_subcommand_skips_dir_flag_equals_form() {
    let args = strings(&["docker-control", "--dir=/tmp/proj", "build", "--no-cache"]);
    let (name, trailing) = custom::split_leading_subcommand(&args, &Vec::new()).unwrap();
    assert_eq!(name, "build");
    assert_eq!(trailing, vec!["--no-cache".to_string()]);
}

#[test]
fn split_leading_subcommand_skips_short_dir_flag_equals_form() {
    let args = strings(&["docker-control", "-d=/tmp/proj", "build"]);
    let (name, trailing) = custom::split_leading_subcommand(&args, &Vec::new()).unwrap();
    assert_eq!(name, "build");
    assert!(trailing.is_empty());
}

#[test]
fn split_leading_subcommand_skips_global_flag_before_subcommand() {
    let args = strings(&["docker-control", "--debug", "status", "--no-cache"]);
    let global_flags = strings(&["--debug"]);
    let (name, trailing) = custom::split_leading_subcommand(&args, &global_flags).unwrap();
    assert_eq!(name, "status");
    assert_eq!(trailing, vec!["--no-cache".to_string()]);
}

#[test]
fn split_leading_subcommand_strips_global_flag_after_subcommand() {
    let args = strings(&["docker-control", "status", "--debug"]);
    let global_flags = strings(&["--debug"]);
    let (name, trailing) = custom::split_leading_subcommand(&args, &global_flags).unwrap();
    assert_eq!(name, "status");
    assert!(
        trailing.is_empty(),
        "a global flag placed after the subcommand must not be forwarded as a script arg"
    );
}

#[test]
fn split_leading_subcommand_strips_global_flag_interleaved_with_real_args() {
    let args = strings(&["docker-control", "build", "--no-cache", "--debug", "foo"]);
    let global_flags = strings(&["--debug"]);
    let (name, trailing) = custom::split_leading_subcommand(&args, &global_flags).unwrap();
    assert_eq!(name, "build");
    assert_eq!(trailing, vec!["--no-cache".to_string(), "foo".to_string()]);
}

#[test]
fn split_leading_subcommand_returns_none_when_only_flags_given() {
    let args = strings(&["docker-control", "--debug"]);
    let global_flags = strings(&["--debug"]);
    assert!(custom::split_leading_subcommand(&args, &global_flags).is_none());
}

#[test]
fn split_leading_subcommand_returns_none_for_bare_binary() {
    let args = strings(&["docker-control"]);
    assert!(custom::split_leading_subcommand(&args, &Vec::new()).is_none());
}

#[test]
fn split_leading_subcommand_empty_when_no_extra_tokens() {
    let args = strings(&["docker-control", "build"]);
    let (name, trailing) = custom::split_leading_subcommand(&args, &Vec::new()).unwrap();
    assert_eq!(name, "build");
    assert!(trailing.is_empty());
}

#[test]
fn the_users_pick_settles_a_clash() {
    let provider = InteractiveClashPromptProvider;
    let choices = provider.choices();
    assert_eq!(choices.len(), 2);
    assert!(provider.question("build").contains("build"));
    for choice in &choices {
        let picked = provider.reply(Some(choice));
        let settled = custom::settle_clash("/s.sh".to_string(), picked);
        assert_eq!(settled.is_some(), picked == ClashChoice::Custom);
    }
    assert_ne!(
        provider.reply(Some(&choices[0])),
        provider.reply(Some(&choices[1]))
    );
}

#[test]
fn scripts_are_named_by_their_files() {
    assert_eq!(custom::command_name("build.sh"), Some("build".to_string()));
    assert_eq!(custom::command_name("build.txt"), None);
    assert_eq!(
        custom::script_dirs("/p"),
        strings(&[
            "/p/htdocs/.docker-control/control-scripts",
            "/p/control-scripts"
        ])
    );
}

#[test]
fn what_follows_the_separator_belongs_to_the_script() {
    assert_eq!(
        custom::args_before_separator(&strings(&["a", "--", "--help"])),
        strings(&["a"])
    );
    assert!(!custom::wants_help(&strings(&["--", "--help"])));
    assert!(custom::wants_help(&strings(&["--help", "a"])));
    assert!(!custom::wants_help(&strings(&["a", "--help"])));
}

#[test]
fn scripts_are_listed_by_name() {
    let command = |name: &str, description: &str| CustomCommand {
        name: name.to_string(),
        description: description.to_string(),
    };
    let all = custom::get_custom_commands(vec![
        command("b", "first"),
        command("b", "second"),
        command("a", "alone"),
    ]);
    let rows: Vec<(&str, &str)> = all
        .iter()
        .map(|c| (c.name.as_str(), c.description.as_str()))
        .collect();
    assert_eq!(rows, vec![("a", "alone"), ("b", "first"), ("b", "second")]);
}

#[test]
fn a_failed_script_is_reported() {
    assert!(custom::script_result("/s.sh", true, "exit status: 0").is_ok());
    assert_eq!(
        custom::script_result("/s.sh", false, "exit status: 2"),
        Err("Custom script '/s.sh' exited with exit status: 2".to_string())
    );
}
