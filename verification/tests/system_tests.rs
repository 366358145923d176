use docker_control::utils::acl::{
    apply_container_acl, apply_host_acl, current_username, linux_host_acl_already_set,
    macos_host_ace, macos_host_acl_already_set,
};
use docker_control::utils::platform::{
    detect_platform, get_brew_prefix, get_docker0_ip, needs_docker_info, Interface, Platform,
};

#[test]
fn macos_host_ace_uses_username_and_inherit_flags() {
    let ace = macos_host_ace("tito");
    // macOS ACL entries take a user *name*, not a numeric UID.
    assert_eq!(
        ace,
        "user:tito allow read,write,execute,file_inherit,directory_inherit"
    );
    // Inheritance flags are the macOS stand-in for a Linux default ACL.
    assert!(ace.contains("file_inherit"));
    assert!(ace.contains("directory_inherit"));
}

#[test]
fn current_username_prefers_user_env() {
    assert_eq!(current_username(Some("alice"), Some("bob\n"), 0), "alice");
}

#[test]
fn a_user_without_a_name_has_a_number() {
    assert_eq!(current_username(None, Some("bob\n"), 1000), "bob");
    assert_eq!(current_username(None, None, 1000), "1000");
}

#[test]
fn test_get_brew_prefix() {
    match get_brew_prefix(Some("/opt/homebrew\n")) {
        Some(prefix) => assert_eq!(prefix, "/opt/homebrew"),
        None => panic!("Brew prefix not found"),
    }
    assert!(get_brew_prefix(None).is_none());
}

#[test]
fn an_acl_that_is_set_is_not_set_again() {
    assert!(!linux_host_acl_already_set(None, 1000));
    assert!(!macos_host_acl_already_set(None, "tito"));
    assert!(apply_host_acl(false, true, 1000, "tito").is_empty());
    assert!(!apply_host_acl(false, false, 1000, "tito").is_empty());
    assert!(!apply_container_acl("/p").is_empty());
}

#[test]
fn the_platform_is_told_by_what_runs() {
    assert_eq!(
        detect_platform("macos", None, None, None).platform,
        Platform::Macos
    );
    let wsl = "Linux version 5.15.90.1-microsoft-standard-WSL2";
    assert_eq!(
        detect_platform("linux", Some(wsl), None, None).platform,
        Platform::Wsl
    );
    assert!(needs_docker_info("linux", Some("Linux version 6.1")));
    let native = detect_platform("linux", Some("Linux version 6.1"), Some("Ubuntu"), Some("172.17.0.1"));
    assert_eq!(
        native.platform,
        Platform::NativeLinux(Some("172.17.0.1".to_string()))
    );
    assert_eq!(native.bind_ip, "172.17.0.1");
    assert_eq!(
        detect_platform("plan9", None, None, None).platform,
        Platform::Unknown
    );
}

#[test]
fn the_bridge_of_docker_is_found_by_its_name() {
    let interface = |name: &str, ip: Option<&str>| Interface {
        name: name.to_string(),
        ipv4: ip.map(str::to_string),
    };
    let all = vec![
        interface("lo", Some("127.0.0.1")),
        interface("docker0", None),
        interface("docker0", Some("172.17.0.1")),
    ];
    assert_eq!(get_docker0_ip(&all), Some("172.17.0.1".to_string()));
    assert_eq!(get_docker0_ip(&Vec::new()), None);
}
