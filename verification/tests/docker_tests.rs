use docker_control::docker::{
    check_image_outdated, console, console_exec, console_exec_flags, exec_as_root, exec_as_user,
    exec_flags, execute_compose, exit_code, find_ingress_dir, get_local_repo_digest,
    get_remote_digest, ingress_tls_dir, installation_candidates, is_running, list_compose_images,
    resolve_brew_prefix, starts_ingress, LocalDigest,
};
use docker_control::template::resolve_dir;

fn strings(items: &[&str]) -> Vec<String> {
    items.iter().map(|s| s.to_string()).collect()
}

#[test]
fn console_exec_flags_match_the_interactive_shell_for_php() {
    assert_eq!(
        console_exec_flags("php", false),
        vec![
            "-T",
            "-u",
            "www-data",
            "-w",
            "/var/www/html",
            "-e",
            "COMPOSER_HOME=/var/www/.composer",
        ]
    );
}

#[test]
fn console_exec_flags_leave_other_services_alone() {
    assert_eq!(console_exec_flags("db", false), vec!["-T"]);
}

#[test]
fn exec_flags_match_the_previous_hand_built_argv() {
    assert_eq!(
        exec_flags("root", None, &[], false),
        vec!["-T", "-u", "root"]
    );
    assert_eq!(
        exec_flags(
            "www-data",
            Some("/var/www/html"),
            &[("COMPOSER_HOME", "/var/www/.composer")],
            false
        ),
        vec![
            "-T",
            "-u",
            "www-data",
            "-w",
            "/var/www/html",
            "-e",
            "COMPOSER_HOME=/var/www/.composer",
        ]
    );
}

#[test]
fn exec_flags_drop_no_tty_when_a_tty_is_requested() {
    let flags = exec_flags("www-data", Some("/m"), &[], true);
    assert!(!flags.contains(&"-T".to_string()));
    assert_eq!(flags, vec!["-u", "www-data", "-w", "/m"]);
}

#[test]
fn console_exec_rejects_the_help_pseudo_service() {
    // Would otherwise become `docker compose exec help <cmd>`.
    let err = console_exec(".", Some("help"), &strings(&["ls"]), false).unwrap_err();
    assert!(err.contains("console help"), "unexpected message: {err}");
}

#[test]
fn console_exec_flags_omit_no_tty_when_a_tty_is_available() {
    assert!(!console_exec_flags("php", true).contains(&"-T".to_string()));
    assert!(console_exec_flags("db", true).is_empty());
}

#[test]
fn a_console_command_follows_the_service() {
    let args = console_exec("/p", None, &strings(&["ls", "-l"]), true).unwrap();
    let n: usize = args.len();
    assert_eq!(args[n - 3..], strings(&["php", "ls", "-l"])[..]);
    assert!(console("/p", Some("help")).is_none());
    assert!(console("/p", None).unwrap().contains(&"php".to_string()));
}

#[test]
fn a_compose_call_names_the_project() {
    let args = execute_compose("/p", &strings(&["up", "-d"]));
    assert!(args.iter().any(|a| a.contains("/p")));
    assert_eq!(args[args.len() - 2..], strings(&["up", "-d"])[..]);
    let root = exec_as_root("/p", "php", &strings(&["id"]));
    assert!(root.contains(&"root".to_string()));
    let user = exec_as_user("/p", "php", "bob", None, &[], &strings(&["id"]), false);
    assert!(user.contains(&"bob".to_string()));
    assert_eq!(user[user.len() - 2..], strings(&["php", "id"])[..]);
}

#[test]
fn containers_run_where_any_is_listed() {
    assert!(is_running(Some("abc123\n")));
    assert!(!is_running(Some(" \n")));
    assert!(!is_running(None));
}

#[test]
fn digests_tell_outdated_images() {
    let local = get_local_repo_digest(Some("[\"php@sha256:aa\"]"));
    assert_eq!(local, LocalDigest::Present("sha256:aa".to_string()));
    assert_eq!(
        check_image_outdated(&local, Some("sha256:bb")),
        Some(true)
    );
    assert_eq!(
        check_image_outdated(&local, Some("sha256:aa")),
        Some(false)
    );
    assert_eq!(check_image_outdated(&local, None), None);
    assert_eq!(
        check_image_outdated(&LocalDigest::Missing, Some("sha256:aa")),
        Some(true)
    );
    assert_eq!(
        check_image_outdated(&LocalDigest::Unknown, Some("sha256:aa")),
        None
    );
}

#[test]
fn a_remote_digest_is_read_from_its_line() {
    assert_eq!(
        get_remote_digest("Name: php\nDigest:    sha256:cc\n"),
        Some("sha256:cc".to_string())
    );
    assert_eq!(get_remote_digest("Name: php\n"), None);
}

#[test]
fn images_are_listed_as_they_come() {
    assert_eq!(
        list_compose_images("b\n a \nb\n\n"),
        strings(&["b", "a", "b"])
    );
}

#[test]
fn the_brew_prefix_comes_from_the_environment_first() {
    assert_eq!(resolve_brew_prefix(Some("/env"), Some("/brew")), "/env");
    assert_eq!(resolve_brew_prefix(None, Some("/brew")), "/brew");
    assert!(ingress_tls_dir("/brew").starts_with("/brew/"));
}

#[test]
fn only_a_start_touches_the_volumes_of_the_ingress() {
    assert!(starts_ingress(&strings(&["up", "-d"])));
    assert!(!starts_ingress(&strings(&["down"])));
}

#[test]
fn a_killed_command_has_an_exit_code_of_its_own() {
    assert_eq!(exit_code(Some(3)), 3);
    assert_eq!(exit_code(None), 130);
}

#[test]
fn the_installation_is_found_at_the_first_place_that_exists() {
    let places = installation_candidates(
        "ingress",
        Some("/mine"),
        Some("/home/me/.config/docker-control/ingress"),
        Some("/opt/bin"),
        Some("/opt"),
    );
    assert_eq!(
        places,
        [
            "/mine",
            "/home/me/.config/docker-control/ingress",
            "/opt/bin/ingress",
            "/opt/ingress",
            "/opt/share/docker-control/ingress",
            "ingress",
        ]
    );
    let there = vec![
        "ingress".to_string(),
        "/opt/share/docker-control/ingress".to_string(),
    ];
    assert_eq!(
        find_ingress_dir(&places, &there),
        Ok("/opt/share/docker-control/ingress".to_string())
    );
    assert_eq!(
        find_ingress_dir(&places, &Vec::new()),
        Err("Could not find ingress directory".to_string())
    );
    let places = installation_candidates("template", None, None, None, None);
    assert_eq!(places, ["template"]);
    assert_eq!(resolve_dir(&places, &places), Ok("template".to_string()));
    assert_eq!(
        resolve_dir(&places, &Vec::new()),
        Err("Could not find template directory".to_string())
    );
}
